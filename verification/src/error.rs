//! Validation failures of protocol artifacts and the checks that raise them.

use vstd::prelude::*;

use crate::digest::{hex_32, is_hex_32};
use crate::order::{is_sorted_unique, sorted_by_key, views, SortKey};
use crate::text::{blank, is_blank};

verus! {

/// Why an artifact was refused.
#[derive(Debug, Clone, PartialEq, Eq)]
pub enum CoreError {
    /// Canonical serialization failed, with the serializer's message.
    Canonical(String),
    /// A field breaks a protocol rule.
    Invalid { field: &'static str, reason: String },
}

/// What an error says, apart from a serializer's message.
pub enum Fault {
    Canonical,
    Invalid(Seq<char>, Seq<char>),
}

/// The fault an error reports.
pub open spec fn fault_of(e: CoreError) -> Fault {
    match e {
        CoreError::Canonical(_) => Fault::Canonical,
        CoreError::Invalid { field, reason } => Fault::Invalid(field@, reason@),
    }
}

/// The fault of a field that breaks a rule.
pub open spec fn invalid_fault(field: &str, reason: &str) -> Fault {
    Fault::Invalid(field@, reason@)
}

/// A check's result agrees with the first fault found, if any.
pub open spec fn reports(r: Result<(), CoreError>, f: Option<Fault>) -> bool {
    match f {
        None => r is Ok,
        Some(fault) => r is Err && fault_of(r->Err_0) == fault,
    }
}

/// The first fault of a chain of checks: `first` unless it passed.
pub open spec fn or_else(first: Option<Fault>, rest: Option<Fault>) -> Option<Fault> {
    match first {
        Some(f) => Some(f),
        None => rest,
    }
}

impl CoreError {
    /// The error's text, as its `Display` would write it.
    pub fn message(&self) -> (r: String)
        ensures
            r@ == match self {
                CoreError::Canonical(m) => "canonical serialization failed: "@ + m@,
                CoreError::Invalid { field, reason } => "invalid "@ + field@ + ": "@ + reason@,
            },
    {
        match self {
            CoreError::Canonical(m) => "canonical serialization failed: ".to_owned().concat(
                m.as_str(),
            ),
            CoreError::Invalid { field, reason } => "invalid ".to_owned().concat(field).concat(
                ": ",
            ).concat(reason.as_str()),
        }
    }
}

/// The error for a field that breaks a rule.
pub fn invalid(field: &'static str, reason: &str) -> (r: CoreError)
    ensures
        fault_of(r) == invalid_fault(field, reason),
{
    CoreError::Invalid { field, reason: reason.to_owned() }
}

/// Reject blank text.
pub fn require_non_empty(field: &'static str, value: &str) -> (r: Result<(), CoreError>)
    ensures
        reports(
            r,
            if is_blank(value@) {
                Some(invalid_fault(field, "must not be empty"))
            } else {
                None
            },
        ),
{
    if blank(value) {
        return Err(invalid(field, "must not be empty"));
    }
    Ok(())
}

/// Reject anything but 32 bytes in hexadecimal.
pub fn require_hex_32(field: &'static str, value: &str) -> (r: Result<(), CoreError>)
    ensures
        reports(
            r,
            if !is_hex_32(value@) {
                Some(invalid_fault(field, "must be 32 bytes encoded as 64 hexadecimal characters"))
            } else {
                None
            },
        ),
{
    if !hex_32(value) {
        return Err(invalid(field, "must be 32 bytes encoded as 64 hexadecimal characters"));
    }
    Ok(())
}

/// Reject values that are not strictly increasing.
pub fn require_sorted_unique<T: SortKey>(field: &'static str, values: &[T]) -> (r: Result<
    (),
    CoreError,
>)
    ensures
        reports(
            r,
            if !sorted_by_key::<T>(views(values@)) {
                Some(invalid_fault(field, "must be strictly sorted and unique"))
            } else {
                None
            },
        ),
{
    if !is_sorted_unique(values) {
        return Err(invalid(field, "must be strictly sorted and unique"));
    }
    Ok(())
}

/// The fault of values in `field` that are not strictly increasing.
pub open spec fn sorted_fault<T: SortKey>(field: &str, s: Seq<T::V>) -> Option<Fault> {
    if !sorted_by_key::<T>(s) {
        Some(invalid_fault(field, "must be strictly sorted and unique"))
    } else {
        None
    }
}

/// Artifacts that check their own protocol rules.
pub trait Validate: View + Sized {
    /// The first rule the value breaks, in the order the checks run.
    spec fn first_fault(v: Self::V) -> Option<Fault>;

    fn validate(&self) -> (r: Result<(), CoreError>)
        ensures
            reports(r, Self::first_fault(self@)),
    ;
}

/// The first fault among a sequence of values, checked in order.
pub open spec fn first_fault_in<T: Validate>(s: Seq<T::V>) -> Option<Fault>
    decreases s.len(),
{
    if s.len() == 0 {
        None
    } else {
        or_else(T::first_fault(s[0]), first_fault_in::<T>(s.drop_first()))
    }
}

/// When a sequence has no first fault, no value in it has a fault.
pub proof fn lemma_first_fault_in_none<T: Validate>(s: Seq<T::V>)
    requires
        first_fault_in::<T>(s) is None,
    ensures
        forall|i: int| 0 <= i < s.len() ==> T::first_fault(#[trigger] s[i]) is None,
    decreases s.len(),
{
    if s.len() > 0 {
        lemma_first_fault_in_none::<T>(s.drop_first());
        assert forall|i: int| 0 <= i < s.len() implies T::first_fault(#[trigger] s[i]) is None by {
            if i > 0 {
                assert(s[i] == s.drop_first()[i - 1]);
            }
        }
    }
}

/// Validate each value in order, stopping at the first failure.
pub fn validate_all<T: Validate>(values: &[T]) -> (r: Result<(), CoreError>)
    ensures
        reports(r, first_fault_in::<T>(views(values@))),
{
    let n = values.len();
    let mut i: usize = 0;
    let ghost v = views(values@);
    assert(v.skip(0) =~= v);
    while i < n
        invariant
            n == values@.len(),
            v == views(values@),
            i <= n,
            first_fault_in::<T>(v) == first_fault_in::<T>(v.skip(i as int)),
        decreases n - i,
    {
        proof {
            assert(v.skip(i as int)[0] == values@[i as int]@);
            assert(v.skip(i as int).drop_first() =~= v.skip(i + 1));
        }
        values[i].validate()?;
        i += 1;
    }
    assert(v.skip(n as int) =~= Seq::<T::V>::empty());
    Ok(())
}

} // verus!
