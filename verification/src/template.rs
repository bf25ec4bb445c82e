//! A module that stores two numbers, lets signed callers set them, and adds
//! them up. Other modules build on it: one reads its storage directly, one
//! reaches it only through [`DoSomeActivity`].
use vstd::prelude::*;

use crate::frame::{ensure_signed, AccountId, DispatchError, Origin};

verus! {

/// What the module reports.
#[derive(Debug, PartialEq, Eq, Structural, Clone, Copy)]
pub enum Event {
    /// A number was stored by the given account.
    SomethingStored(u32, AccountId),
    /// A stored number was read.
    AccessStore(u32),
}

/// Why a call of the module is refused.
#[derive(Debug, PartialEq, Eq, Structural, Clone, Copy)]
pub enum Error {
    NoneValue,
    StorageOverflow,
}

/// Something another module can ask of this one without depending on it.
pub trait DoSomeActivity {
    /// What `increase_value` gives back for `value`.
    spec fn increased(value: u32) -> u32;

    /// Derives a larger value from `value`.
    fn increase_value(value: u32) -> (r: u32)
        ensures
            r == Self::increased(value),
    ;
}

/// The module's storage.
pub struct Pallet {
    something1: Option<u32>,
    something2: Option<u32>,
}

impl Pallet {
    /// The first stored number, if set.
    pub closed spec fn stored1(&self) -> Option<u32> {
        self.something1
    }

    /// The second stored number, if set.
    pub closed spec fn stored2(&self) -> Option<u32> {
        self.something2
    }

    /// Storage with neither number set.
    pub fn new() -> (p: Pallet)
        ensures
            p.stored1() is None,
            p.stored2() is None,
    {
        Pallet { something1: None, something2: None }
    }

    /// A signed caller stores `something` as the first number. Refused, and
    /// nothing changes, for any other origin.
    pub fn set_something_1(&mut self, origin: Origin, something: u32) -> (r: Result<
        Event,
        DispatchError,
    >)
        ensures
            match origin {
                Origin::Signed(who) => {
                    &&& r == Ok::<Event, DispatchError>(Event::SomethingStored(something, who))
                    &&& final(self).stored1() == Some(something)
                    &&& final(self).stored2() == old(self).stored2()
                },
                _ => {
                    &&& r == Err::<Event, DispatchError>(DispatchError::BadOrigin)
                    &&& *final(self) == *old(self)
                },
            },
    {
        let who = ensure_signed(origin)?;
        self.something1 = Some(something);
        Ok(Event::SomethingStored(something, who))
    }

    /// A signed caller stores `something` as the second number. Refused, and
    /// nothing changes, for any other origin.
    pub fn set_something_2(&mut self, origin: Origin, something: u32) -> (r: Result<
        Event,
        DispatchError,
    >)
        ensures
            match origin {
                Origin::Signed(who) => {
                    &&& r == Ok::<Event, DispatchError>(Event::SomethingStored(something, who))
                    &&& final(self).stored1() == old(self).stored1()
                    &&& final(self).stored2() == Some(something)
                },
                _ => {
                    &&& r == Err::<Event, DispatchError>(DispatchError::BadOrigin)
                    &&& *final(self) == *old(self)
                },
            },
    {
        let who = ensure_signed(origin)?;
        self.something2 = Some(something);
        Ok(Event::SomethingStored(something, who))
    }

    /// Stores `value` as the first number.
    pub fn update_storage1(&mut self, value: u32) -> (r: Result<(), DispatchError>)
        ensures
            r is Ok,
            final(self).stored1() == Some(value),
            final(self).stored2() == old(self).stored2(),
    {
        self.something1 = Some(value);
        Ok(())
    }

    /// Stores `value` as the second number.
    pub fn update_storage2(&mut self, value: u32) -> (r: Result<(), DispatchError>)
        ensures
            r is Ok,
            final(self).stored1() == old(self).stored1(),
            final(self).stored2() == Some(value),
    {
        self.something2 = Some(value);
        Ok(())
    }

    /// The sum of the two stored numbers, both of which must be set.
    pub fn sum_storage(&self) -> (sum: u32)
        requires
            self.stored1() is Some,
            self.stored2() is Some,
            self.stored1()->Some_0 + self.stored2()->Some_0 <= u32::MAX,
        ensures
            sum == self.stored1()->Some_0 + self.stored2()->Some_0,
    {
        match (self.something1, self.something2) {
            (Some(a), Some(b)) => a + b,
            _ => 0,
        }
    }

    /// The first stored number, if set.
    pub fn something1(&self) -> (r: Option<u32>)
        ensures
            r == self.stored1(),
    {
        self.something1
    }

    /// The second stored number, if set.
    pub fn something2(&self) -> (r: Option<u32>)
        ensures
            r == self.stored2(),
    {
        self.something2
    }
}

/// The module raises a value by 5, stopping at `u32::MAX`.
impl DoSomeActivity for Pallet {
    open spec fn increased(value: u32) -> u32 {
        if value + 5 > u32::MAX {
            u32::MAX
        } else {
            (value + 5) as u32
        }
    }

    fn increase_value(value: u32) -> (r: u32) {
        value.saturating_add(5)
    }
}

/// The module raises a value by exactly 5, and gives `u32::MAX` where that
/// does not fit.
pub proof fn increase_adds_five(value: u32)
    ensures
        value as int + 5 <= u32::MAX ==> <Pallet as DoSomeActivity>::increased(value) == value + 5,
        value as int + 5 > u32::MAX ==> <Pallet as DoSomeActivity>::increased(value) == u32::MAX,
        <Pallet as DoSomeActivity>::increased(value) >= value,
{
}

} // verus!
