//! What the runtime modules share: the origin of a call, the error a call
//! is refused with for its origin, and the cost of storage reads and writes.
use vstd::prelude::*;

verus! {

/// An account of the runtime.
pub type AccountId = u64;

/// A weight: an amount of execution time.
pub type Weight = u64;

/// Who dispatched a call.
#[derive(Debug, PartialEq, Eq, Structural, Clone, Copy)]
pub enum Origin {
    /// The root of the chain.
    Root,
    /// A signed extrinsic of the given account.
    Signed(AccountId),
    /// An extrinsic with no signature, such as an inherent.
    Unsigned,
}

impl Origin {
    /// The origin of an extrinsic that `who` signed.
    pub fn signed(who: AccountId) -> (o: Origin)
        ensures
            o == Origin::Signed(who),
    {
        Origin::Signed(who)
    }

    /// The origin of an extrinsic with no signature.
    pub fn none() -> (o: Origin)
        ensures
            o == Origin::Unsigned,
    {
        Origin::Unsigned
    }

    /// The root origin.
    pub fn root() -> (o: Origin)
        ensures
            o == Origin::Root,
    {
        Origin::Root
    }
}

/// Why a call was refused before it did anything.
#[derive(Debug, PartialEq, Eq, Structural, Clone, Copy)]
pub enum DispatchError {
    /// The call came from an origin that it does not accept.
    BadOrigin,
}

/// The account that signed the call; refused for any other origin.
pub fn ensure_signed(origin: Origin) -> (r: Result<AccountId, DispatchError>)
    ensures
        match origin {
            Origin::Signed(who) => r == Ok::<AccountId, DispatchError>(who),
            _ => r == Err::<AccountId, DispatchError>(DispatchError::BadOrigin),
        },
{
    match origin {
        Origin::Signed(who) => Ok(who),
        _ => Err(DispatchError::BadOrigin),
    }
}

/// Accepts a call with no signature; refuses any other origin.
pub fn ensure_none(origin: Origin) -> (r: Result<(), DispatchError>)
    ensures
        origin == Origin::Unsigned <==> r is Ok,
        r is Err ==> r == Err::<(), DispatchError>(DispatchError::BadOrigin),
{
    match origin {
        Origin::Unsigned => Ok(()),
        _ => Err(DispatchError::BadOrigin),
    }
}

/// `x * y`, or `u64::MAX` where the product does not fit.
pub open spec fn saturating_mul_spec(x: u64, y: u64) -> u64 {
    if x * y > u64::MAX {
        u64::MAX
    } else {
        (x * y) as u64
    }
}

/// `x + y`, or `u64::MAX` where the sum does not fit.
pub open spec fn saturating_add_spec(x: u64, y: u64) -> u64 {
    if x + y > u64::MAX {
        u64::MAX
    } else {
        (x + y) as u64
    }
}

/// The weight of one storage read and of one storage write.
#[derive(Debug, PartialEq, Eq, Structural, Clone, Copy)]
pub struct RuntimeDbWeight {
    pub read: Weight,
    pub write: Weight,
}

impl RuntimeDbWeight {
    /// The weight of `r` reads.
    pub fn reads(&self, r: Weight) -> (w: Weight)
        ensures
            w == saturating_mul_spec(self.read, r),
    {
        match self.read.checked_mul(r) {
            Some(w) => w,
            None => u64::MAX,
        }
    }

    /// The weight of `w` writes.
    pub fn writes(&self, w: Weight) -> (total: Weight)
        ensures
            total == saturating_mul_spec(self.write, w),
    {
        match self.write.checked_mul(w) {
            Some(total) => total,
            None => u64::MAX,
        }
    }
}

/// The cost of storage reads and writes on a RocksDB backend: 25 µs a read,
/// 100 µs a write, a weight of 1 being a picosecond.
pub fn rocks_db_weight() -> (w: RuntimeDbWeight)
    ensures
        w.read == 25_000_000,
        w.write == 100_000_000,
{
    RuntimeDbWeight { read: 25_000_000, write: 100_000_000 }
}

/// Weights add and multiply as integers do, and stop at `u64::MAX`.
pub proof fn weights_saturate(x: u64, y: u64)
    ensures
        x * y <= u64::MAX ==> saturating_mul_spec(x, y) == x * y,
        x * y > u64::MAX ==> saturating_mul_spec(x, y) == u64::MAX,
        x + y <= u64::MAX ==> saturating_add_spec(x, y) == x + y,
        x + y > u64::MAX ==> saturating_add_spec(x, y) == u64::MAX,
{
}

} // verus!
