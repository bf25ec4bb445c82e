//! A module that reads the storage of the [`template`](crate::template)
//! module directly.
use vstd::prelude::*;

use crate::frame::{ensure_signed, DispatchError, Origin};

verus! {

/// What the module reports.
#[derive(Debug, PartialEq, Eq, Structural, Clone, Copy)]
pub enum Event {
    /// The number read from the other module's storage.
    AccessStore(u32),
}

/// Why a call of the module is refused.
#[derive(Debug, PartialEq, Eq, Structural, Clone, Copy)]
pub enum Error {
    NoneValue,
    StorageOverflow,
}

/// The module.
pub struct Pallet;

impl Pallet {
    /// A signed caller reads `stored`, the number in the template module's
    /// storage, which must be set; the module reports it. Refused for any
    /// other origin, before anything is read.
    pub fn access_storage_template_pallet(origin: Origin, stored: Option<u32>) -> (r: Result<
        Event,
        DispatchError,
    >)
        requires
            origin is Signed ==> stored is Some,
        ensures
            origin is Signed ==> r == Ok::<Event, DispatchError>(Event::AccessStore(stored->Some_0)),
            !(origin is Signed) ==> r == Err::<Event, DispatchError>(DispatchError::BadOrigin),
    {
        let _who = ensure_signed(origin)?;
        let data = match stored {
            Some(data) => data,
            None => 0,
        };
        Ok(Event::AccessStore(data))
    }
}

} // verus!
