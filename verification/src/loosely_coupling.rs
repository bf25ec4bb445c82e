//! A module that reaches another only through the [`DoSomeActivity`] trait
//! that its configuration names.
use vstd::prelude::*;

use crate::frame::{ensure_signed, DispatchError, Origin};
use crate::template::DoSomeActivity;

verus! {

/// What a runtime that uses the module chooses.
pub trait Config {
    /// The provider of [`DoSomeActivity`].
    type DoSome: DoSomeActivity;
}

/// What the module reports.
#[derive(Debug, PartialEq, Eq, Structural, Clone, Copy)]
pub enum Event {
    /// The provider turned the value into the one given.
    IncreaseSuccess(u32),
}

/// Why a call of the module is refused.
#[derive(Debug, PartialEq, Eq, Structural, Clone, Copy)]
pub enum Error {
    NoneValue,
    StorageOverflow,
}

/// The module, for the runtime `T`.
pub struct Pallet<T: Config> {
    runtime: core::marker::PhantomData<T>,
}

impl<T: Config> Pallet<T> {
    /// A signed caller asks the provider to increase `value`; the module
    /// reports the result. Refused for any other origin.
    pub fn increase_value(origin: Origin, value: u32) -> (r: Result<Event, DispatchError>)
        ensures
            origin is Signed ==> r == Ok::<Event, DispatchError>(
                Event::IncreaseSuccess(T::DoSome::increased(value)),
            ),
            !(origin is Signed) ==> r == Err::<Event, DispatchError>(DispatchError::BadOrigin),
    {
        let _who = ensure_signed(origin)?;
        let result = T::DoSome::increase_value(value);
        Ok(Event::IncreaseSuccess(result))
    }
}

} // verus!
