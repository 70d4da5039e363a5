//! Waiting with a timeout, and strings out of byte arrays.

use vstd::prelude::*;
use vstd::string::StringSliceAdditionalSpecFns;
use vstd::utf8::valid_utf8;

use crate::cstring::nul_position;
use crate::error::Error;

verus! {

/// What a wait does after one look at its condition.
pub enum WaitStep<R> {
    /// The wait is over, with this result.
    Done(Result<R, Error>),
    /// The condition is to be looked at again.
    Again,
}

/// One turn of waiting until a condition holds or `timeout` has elapsed.
///
/// `polled` is what the condition evaluated to in this turn, and `elapsed` the time, in
/// nanoseconds, since the wait began, taken after that. When the condition evaluates to
/// `Some`, its value is the result, however much time has passed. Otherwise
/// [`Error::ETIMEDOUT`] is the result once more than `timeout` nanoseconds have elapsed.
pub fn wait_on<R>(timeout: i64, polled: Option<R>, elapsed: i64) -> (r: WaitStep<R>)
    ensures
        r == wait_turn(timeout as int, polled, elapsed as int),
{
    match polled {
        Some(ret) => WaitStep::Done(Ok(ret)),
        None => if elapsed > timeout {
            WaitStep::Done(Err(Error::ETIMEDOUT))
        } else {
            WaitStep::Again
        },
    }
}

/// The outcome of one turn of a wait.
pub open spec fn wait_turn<R>(timeout: int, polled: Option<R>, elapsed: int) -> WaitStep<R> {
    match polled {
        Some(ret) => WaitStep::Done(Ok(ret)),
        None => if elapsed > timeout {
            WaitStep::Done(Err(Error::ETIMEDOUT))
        } else {
            WaitStep::Again
        },
    }
}

/// The result of a wait whose turns see `turns`, the condition's value and the elapsed
/// time of each; `None` if it is still waiting after the last of them.
pub open spec fn wait_result<R>(timeout: int, turns: Seq<(Option<R>, int)>) -> Option<
    Result<R, Error>,
>
    decreases turns.len(),
{
    if turns.len() == 0 {
        None
    } else {
        match wait_turn(timeout, turns[0].0, turns[0].1) {
            WaitStep::Done(result) => Some(result),
            WaitStep::Again => wait_result(timeout, turns.drop_first()),
        }
    }
}

/// A wait returns the first value that its condition evaluates to, if no turn before
/// it ended after the timeout.
pub proof fn lemma_wait_returns_first_value<R>(
    timeout: int,
    turns: Seq<(Option<R>, int)>,
    i: int,
)
    requires
        0 <= i < turns.len(),
        turns[i].0 is Some,
        forall|j: int| 0 <= j < i ==> (#[trigger] turns[j]).0 is None && turns[j].1 <= timeout,
    ensures
        wait_result(timeout, turns) == Some(Ok::<R, Error>(turns[i].0->0)),
    decreases i,
{
    if i > 0 {
        assert(turns[0].0 is None);
        assert forall|j: int| 0 <= j < i - 1 implies (#[trigger] turns.drop_first()[j]).0 is None
            && turns.drop_first()[j].1 <= timeout by {
            assert(turns.drop_first()[j] == turns[j + 1]);
        }
        lemma_wait_returns_first_value(timeout, turns.drop_first(), i - 1);
    }
}

/// A wait fails with [`Error::ETIMEDOUT`] in the first turn that ends after the
/// timeout, if its condition has not held until then.
pub proof fn lemma_wait_times_out<R>(timeout: int, turns: Seq<(Option<R>, int)>, i: int)
    requires
        0 <= i < turns.len(),
        turns[i].0 is None,
        turns[i].1 > timeout,
        forall|j: int| 0 <= j < i ==> (#[trigger] turns[j]).0 is None && turns[j].1 <= timeout,
    ensures
        wait_result(timeout, turns) == Some(Err::<R, Error>(Error::ETIMEDOUT)),
    decreases i,
{
    if i > 0 {
        assert(turns[0].0 is None);
        assert forall|j: int| 0 <= j < i - 1 implies (#[trigger] turns.drop_first()[j]).0 is None
            && turns.drop_first()[j].1 <= timeout by {
            assert(turns.drop_first()[j] == turns[j + 1]);
        }
        lemma_wait_times_out(timeout, turns.drop_first(), i - 1);
    }
}

/// A wait goes on as long as its condition has not held and the timeout has not passed.
pub proof fn lemma_wait_goes_on<R>(timeout: int, turns: Seq<(Option<R>, int)>)
    requires
        forall|j: int|
            0 <= j < turns.len() ==> (#[trigger] turns[j]).0 is None && turns[j].1 <= timeout,
    ensures
        wait_result(timeout, turns) is None,
    decreases turns.len(),
{
    if turns.len() > 0 {
        assert(turns[0].0 is None);
        assert forall|j: int| 0 <= j < turns.len() - 1 implies (
        #[trigger] turns.drop_first()[j]).0 is None && turns.drop_first()[j].1 <= timeout by {
            assert(turns.drop_first()[j] == turns[j + 1]);
        }
        lemma_wait_goes_on(timeout, turns.drop_first());
    }
}

/// Converts a null-terminated byte array to a string slice.
///
/// Returns "invalid" if the bytes are not valid UTF-8 or not null-terminated. What
/// follows the first null byte is not looked at.
pub fn str_from_null_terminated(bytes: &[u8]) -> (r: &str)
    ensures
        forall|n: int|
            0 <= n < bytes@.len() && #[trigger] bytes@[n] == 0 && !bytes@.take(n).contains(0) ==> (
            if valid_utf8(bytes@.take(n)) {
                r.spec_bytes() == bytes@.take(n)
            } else {
                r@ == "invalid"@
            }),
        !bytes@.contains(0) ==> r@ == "invalid"@,
{
    match nul_position(bytes) {
        None => "invalid",
        Some(pos) => {
            let text = bytes.split_at(pos).0;
            assert(text@ == bytes@.take(pos as int));
            assert forall|n: int|
                0 <= n < bytes@.len() && #[trigger] bytes@[n] == 0 && !bytes@.take(n).contains(
                    0,
                ) implies n == pos by {
                if n < pos {
                    assert(bytes@.take(pos as int)[n] == 0);
                }
                if pos < n {
                    assert(bytes@.take(n)[pos as int] == 0);
                }
            }
            match core::str::from_utf8(text) {
                Ok(s) => s,
                Err(_) => "invalid",
            }
        },
    }
}

} // verus!
