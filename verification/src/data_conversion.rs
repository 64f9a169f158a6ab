//! Helpers for converting between binary registry data and semantic values.

pub mod byte_seq;
pub mod format;
pub mod hex_bytes;
pub mod time;

pub use byte_seq::ParseError;

use vstd::prelude::*;
use vstd::std_specs::cmp::PartialEqSpec;
use vstd::std_specs::cmp::PartialEqSpecImpl;

verus! {

/// A value as loaded, together with a replacement for it that may have been set since.
#[derive(Debug)]
pub struct TrackedValue<T> {
    old: T,
    new: Option<T>,
}

impl<T> TrackedValue<T> {
    /// A freshly loaded value, without a replacement.
    pub closed spec fn spec_new(value: T) -> Self {
        TrackedValue { old: value, new: None }
    }

    /// The value as loaded.
    pub closed spec fn initial(self) -> T {
        self.old
    }

    /// The replacement, if one was set.
    pub closed spec fn pending(self) -> Option<T> {
        self.new
    }

    /// The tracked value with the replacement `value`.
    pub closed spec fn spec_set(self, value: T) -> Self {
        TrackedValue { old: self.old, new: Some(value) }
    }

    /// The tracked value without a replacement.
    pub closed spec fn spec_reset(self) -> Self {
        TrackedValue { old: self.old, new: None }
    }

    /// The current value: the replacement if one was set, else the value as loaded.
    pub open spec fn value(self) -> T {
        match self.pending() {
            Some(v) => v,
            None => self.initial(),
        }
    }
}

impl<T: PartialEq> TrackedValue<T> {
    /// Whether a replacement was set that differs from the value as loaded (by `==` of `T`).
    pub open spec fn spec_changed(self) -> bool {
        match self.pending() {
            Some(v) => !v.eq_spec(&self.initial()),
            None => false,
        }
    }

    pub fn new(value: T) -> (r: Self)
        ensures
            r == Self::spec_new(value),
            r.initial() == value,
            r.pending() is None,
    {
        Self { old: value, new: None }
    }

    pub fn set(&mut self, value: T)
        ensures
            *final(self) == old(self).spec_set(value),
            final(self).initial() == old(self).initial(),
            final(self).pending() == Some(value),
    {
        self.new = Some(value);
    }

    pub fn reset(&mut self)
        ensures
            *final(self) == old(self).spec_reset(),
            final(self).initial() == old(self).initial(),
            final(self).pending() is None,
    {
        self.new = None;
    }

    pub fn changed(&self) -> (r: bool)
        ensures
            self.pending() is None ==> !r,
            T::obeys_eq_spec() ==> r == self.spec_changed(),
    {
        if let Some(new) = &self.new {
            *new != self.old
        } else {
            false
        }
    }

    /// The current value.
    pub fn get(&self) -> (r: &T)
        ensures
            *r == self.value(),
    {
        match &self.new {
            Some(v) => v,
            None => &self.old,
        }
    }
}

impl<T: PartialEq> core::ops::Deref for TrackedValue<T> {
    type Target = T;

    fn deref(&self) -> (r: &T)
        ensures
            *r == self.value(),
    {
        self.get()
    }
}

/// Tracked values are equal when their current values are.
impl<T: PartialEq> PartialEq for TrackedValue<T> {
    fn eq(&self, other: &Self) -> (r: bool) {
        self.get().eq(other.get())
    }
}

impl<T: PartialEq> PartialEqSpecImpl for TrackedValue<T> {
    open spec fn obeys_eq_spec() -> bool {
        T::obeys_eq_spec()
    }

    open spec fn eq_spec(&self, other: &Self) -> bool {
        self.value().eq_spec(&other.value())
    }
}

/// What a freshly loaded tracked value is: the value as loaded, without a replacement.
pub broadcast proof fn lemma_tracked_value_spec_new<T>(v: T)
    ensures
        (#[trigger] TrackedValue::spec_new(v)).initial() == v,
        TrackedValue::spec_new(v).pending() is None,
        TrackedValue::spec_new(v).value() == v,
{
}

/// What setting a replacement makes of a tracked value.
pub broadcast proof fn lemma_tracked_value_spec_set<T>(t: TrackedValue<T>, v: T)
    ensures
        (#[trigger] t.spec_set(v)).initial() == t.initial(),
        t.spec_set(v).pending() == Some(v),
{
}

/// Law: after setting a replacement, the current value is the replacement, the value as loaded
/// stays, and it counts as changed exactly if it differs from the value as loaded, whatever was
/// set before.
pub proof fn lemma_tracked_value_set<T: PartialEq>(t: TrackedValue<T>, v: T)
    ensures
        t.spec_set(v).value() == v,
        t.spec_set(v).initial() == t.initial(),
        t.spec_set(v).spec_changed() == !v.eq_spec(&t.initial()),
{
}

/// Law: after resetting, the tracked value is the freshly loaded one again: its current value
/// is the value as loaded, and nothing counts as changed, whatever was set before.
pub proof fn lemma_tracked_value_reset<T: PartialEq>(t: TrackedValue<T>)
    ensures
        t.spec_reset() == TrackedValue::spec_new(t.initial()),
        t.spec_reset().value() == t.initial(),
        !t.spec_reset().spec_changed(),
{
}

/// The mode of operation when parsing and checking values for validity.
#[derive(Clone, Copy, PartialEq, Eq, Structural, Debug)]
pub enum Strictness {
    /// Only accept known formats exact to the byte, and only value ranges last known to be valid.
    /// Should normally be used.
    Strict,
    /// Turn a blind eye regarding certain aspects when parsing or checking values for validity.
    /// Can be tried when strict mode doesn't work, or when you must overcome certain limitations.
    /// Doesn't influence serialization. Rather than this being used regularly, the parsing or
    /// other code should be updated.
    Lenient,
}

impl Strictness {
    pub fn from_lenient_bool(lenient: bool) -> (r: Self)
        ensures
            r == if lenient {
                Strictness::Lenient
            } else {
                Strictness::Strict
            },
    {
        if lenient {
            Self::Lenient
        } else {
            Self::Strict
        }
    }

    pub fn is_strict(&self) -> (r: bool)
        ensures
            r == (*self is Strict),
    {
        match self {
            Strictness::Strict => true,
            Strictness::Lenient => false,
        }
    }

    pub fn is_lenient(&self) -> (r: bool)
        ensures
            r == (*self is Lenient),
    {
        match self {
            Strictness::Strict => false,
            Strictness::Lenient => true,
        }
    }
}

/// Falling back to another result on error, but only if a flag is set.
pub trait ResultOrElseIf<T, E>: Sized {
    fn or_else_if<O>(self, flag: bool, op: O) -> Result<T, E> where
        O: FnOnce(E) -> Result<T, E>,
        requires
            forall|e: E| op.requires((e,)),
    ;
}

impl<T, E> ResultOrElseIf<T, E> for Result<T, E> {
    fn or_else_if<O>(self, flag: bool, op: O) -> (r: Result<T, E>) where
        O: FnOnce(E) -> Result<T, E>,
        ensures
            match self {
                Ok(t) => r == Ok::<T, E>(t),
                Err(e) => if flag {
                    op.ensures((e,), r)
                } else {
                    r == Err::<T, E>(e)
                },
            },
    {
        match self {
            Ok(t) => Ok(t),
            Err(e) => {
                if flag {
                    op(e)
                } else {
                    Err(e)
                }
            },
        }
    }
}

} // verus!
