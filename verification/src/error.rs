use vstd::prelude::*;

verus! {

/// Errors that can abort an XML serialization pass.
///
/// The first error encountered propagates through every enclosing
/// `serialize` call; bytes already written to the sink stay written.
#[derive(Debug, Clone, Copy, PartialEq, Eq, Structural)]
pub enum XmlSerializeError {
    /// The underlying sink refused a write.
    IOError,
    /// An attribute name failed validation.
    InvalidAttributeName,
    /// A namespace prefix is not a valid XML name token.
    InvalidNamespace,
}

/// Error returned when an attribute name is rejected.
#[derive(Debug, Clone, Copy, PartialEq, Eq, Structural)]
pub struct InvalidAttributeName;

impl From<InvalidAttributeName> for XmlSerializeError {
    fn from(v: InvalidAttributeName) -> (r: Self) {
        XmlSerializeError::InvalidAttributeName
    }
}

impl vstd::std_specs::convert::FromSpecImpl<InvalidAttributeName> for XmlSerializeError {
    open spec fn obeys_from_spec() -> bool {
        true
    }

    open spec fn from_spec(v: InvalidAttributeName) -> Self {
        XmlSerializeError::InvalidAttributeName
    }
}

/// Errors from decoding a timestamp out of its fixed-width text form.
#[derive(Debug, Clone, Copy, PartialEq, Eq, Structural)]
pub enum TimeStampFormatErrors {
    /// Wrong length or wrong punctuation layout.
    InvalidFormat,
    /// The year is before 1970.
    UnsupportedYear,
    /// A date that no calendar walk can reach.
    NonExistingDate,
    /// Hour, minute or second out of range.
    InvalidTime,
    /// Month or day out of range for the (leap-aware) calendar.
    InvalidDate,
    /// The trailing offset is not `Z`, `-00:00` or a `+HH:MM`/`-HH:MM` form.
    InvalidTimeOffset,
}

} // verus!
