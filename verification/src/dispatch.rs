use vstd::prelude::*;

verus! {

/// Who a call comes from.
#[derive(Clone, Copy, Debug, PartialEq, Eq, Structural)]
pub enum Origin {
    Root,
    Signed(u64),
    Unsigned,
}

/// Why a dispatched call failed: the origin was not a signed account, or the
/// pallet refused the call with one of its own errors.
#[derive(Debug, PartialEq, Eq)]
pub enum DispatchError<E> {
    BadOrigin,
    Module(E),
}

/// The account that signed the call, or `BadOrigin` for any other origin.
pub fn ensure_signed<E>(origin: Origin) -> (r: Result<u64, DispatchError<E>>)
    ensures
        match origin {
            Origin::Signed(who) => r == Ok::<u64, DispatchError<E>>(who),
            _ => r == Err::<u64, DispatchError<E>>(DispatchError::BadOrigin),
        },
{
    match origin {
        Origin::Signed(who) => Ok(who),
        _ => Err(DispatchError::BadOrigin),
    }
}

/// A pallet's own outcome as the outcome of a dispatched call.
pub open spec fn lift<E>(r: Result<(), E>) -> Result<(), DispatchError<E>> {
    match r {
        Ok(()) => Ok(()),
        Err(e) => Err(DispatchError::Module(e)),
    }
}

/// Turns a pallet's own outcome into the outcome of a dispatched call.
pub fn lift_result<E>(r: Result<(), E>) -> (d: Result<(), DispatchError<E>>)
    ensures
        d == lift(r),
{
    match r {
        Ok(()) => Ok(()),
        Err(e) => Err(DispatchError::Module(e)),
    }
}

/// The next value of a ledger nonce: one more, or the same once the largest
/// value is reached.
pub open spec fn bump(n: u32) -> u32 {
    if n == u32::MAX {
        n
    } else {
        (n + 1) as u32
    }
}

/// Advances a ledger nonce by one, saturating at the largest value.
pub fn next_nonce(n: u32) -> (r: u32)
    ensures
        r == bump(n),
{
    n.saturating_add(1)
}

} // verus!
