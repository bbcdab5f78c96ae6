use vstd::prelude::*;
use crate::error::ErrorKind;

verus! {

/// How a bounded wait ends, given how the operation returned and whether the
/// deadline flag was still live when it did: the operation's own error
/// first, else success while live, else a timeout.
pub fn bounded_outcome(op: Result<(), ErrorKind>, live: bool) -> (r: Result<(), ErrorKind>)
    ensures
        op is Err ==> r == op,
        op is Ok && live ==> r is Ok,
        op is Ok && !live ==> r is Err && r->Err_0 is TimeoutError,
{
    match op {
        Err(e) => Err(e),
        Ok(()) => {
            if live {
                Ok(())
            } else {
                Err(ErrorKind::TimeoutError)
            }
        },
    }
}

} // verus!
