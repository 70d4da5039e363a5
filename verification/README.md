# nova_core

The part of a driver for NVIDIA GPUs that talks to the GPU System Processor (GSP), verified
with Verus.

- `src/` is the library. Every function has a contract that Verus proves; what holds of
  several functions together is stated in public proof functions, such as
  `gsp::cmdq::lemma_sent_arguments_are_received`: a reader of the queue finds the function
  and the arguments that the driver sent. It accepts them if the bytes that lay behind the
  message in the driver's part of the queue add nothing to the checksum, as zeros do, and
  otherwise fails with `EIO`.
- `tests/` runs the library on concrete values.
- `app/` is ordinary Rust around the library: allocating and copying the memory that is
  shared with the device, its doorbell, waiting, and the log.

The one thing that is trusted is what `core::str::from_utf8` returns (`src/cstring.rs`).
