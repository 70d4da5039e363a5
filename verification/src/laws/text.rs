//! Laws of strings and of waiting.

use vstd::prelude::*;
use vstd::string::StringSliceAdditionalSpecFns;
use vstd::utf8::valid_utf8;

use crate::cstring::{nul_position, string_from_bytes, CString};
use crate::error::Error;
use crate::util::{str_from_null_terminated, wait_on, WaitStep};

verus! {

/// The first NUL is found where it is, and nowhere if there is none.
pub proof fn law_nul_position(bytes: &[u8], r: Option<usize>, i: int)
    requires
        call_ensures(nul_position, (bytes,), r),
        0 <= i < bytes@.len(),
    ensures
        r is None ==> bytes@[i] != 0,
        r is Some ==> r->0 < bytes@.len() && bytes@[r->0 as int] == 0,
        r is Some && i < r->0 ==> bytes@[i] != 0,
{
    if r is None && bytes@[i] == 0 {
        assert(bytes@.contains(bytes@[i]));
    }
    if r is Some && i < r->0 && bytes@[i] == 0 {
        assert(bytes@.take(r->0 as int)[i] == 0);
    }
}

/// A string keeps every byte of what it is made from, and has a NUL behind them. A NUL among
/// them is an error.
pub proof fn law_string(s: &str, r: Result<CString, Error>, bytes: &[u8])
    requires
        call_ensures(CString::try_from_str, (s,), r),
        r is Ok ==> call_ensures(CString::to_bytes, (&r->Ok_0,), bytes),
    ensures
        r is Ok <==> forall|i: int|
            0 <= i < s.spec_bytes().len() ==> #[trigger] s.spec_bytes()[i] != 0,
        r is Err ==> r->Err_0 == Error::EINVAL,
        r is Ok ==> bytes@ == s.spec_bytes() && r->Ok_0.buf@ == s.spec_bytes().push(0),
{
    if r is Ok {
        assert forall|i: int| 0 <= i < s.spec_bytes().len() implies #[trigger] s.spec_bytes()[i]
            != 0 by {
            if s.spec_bytes()[i] == 0 {
                assert(s.spec_bytes().contains(0));
            }
        }
        assert(s.spec_bytes().push(0).drop_last() =~= s.spec_bytes());
    } else {
        let i = choose|i: int| 0 <= i < s.spec_bytes().len() && s.spec_bytes()[i] == 0;
        assert(s.spec_bytes()[i] == 0);
    }
}

/// Bytes are a string if they are valid UTF-8 without a NUL, and the string is those bytes.
pub proof fn law_string_from_bytes(bytes: &[u8], r: Result<CString, Error>)
    requires
        call_ensures(string_from_bytes, (bytes,), r),
    ensures
        !valid_utf8(bytes@) ==> r is Err && r->Err_0 == Error::EINVAL,
        valid_utf8(bytes@) && bytes@.contains(0) ==> r is Err && r->Err_0 == Error::ENOMEM,
        valid_utf8(bytes@) && !bytes@.contains(0) ==> r is Ok && r->Ok_0.buf@ == bytes@.push(0),
{
}

/// The string is what stands in front of the first NUL, if that is valid UTF-8.
pub proof fn law_null_terminated(bytes: &[u8], nul: Option<usize>, r: &str)
    requires
        call_ensures(nul_position, (bytes,), nul),
        call_ensures(str_from_null_terminated, (bytes,), r),
    ensures
        nul is None ==> r@ == "invalid"@,
        nul is Some && !valid_utf8(bytes@.take(nul->0 as int)) ==> r@ == "invalid"@,
        nul is Some && valid_utf8(bytes@.take(nul->0 as int)) ==> r.spec_bytes() == bytes@.take(
            nul->0 as int,
        ),
{
}

/// A wait is over with the value of its condition, however late it is, and otherwise once more
/// time than allowed has passed.
pub proof fn law_wait_on<R>(timeout: i64, polled: Option<R>, elapsed: i64, r: WaitStep<R>)
    requires
        call_ensures(wait_on::<R>, (timeout, polled, elapsed), r),
    ensures
        polled is Some ==> r == WaitStep::Done(Ok::<R, Error>(polled->0)),
        polled is None && elapsed > timeout ==> r == WaitStep::Done(
            Err::<R, Error>(Error::ETIMEDOUT),
        ),
        polled is None && elapsed <= timeout ==> r is Again,
{
}

} // verus!
