//! The error surface of the emission engine.
//!
//! Every failure a caller can see is one of the variants of [`Error`]; the
//! broader classification demanded by the design (capability, width, reserved
//! byte, configuration) is available through [`Error::kind`].

use vstd::prelude::*;

verus! {

/// The coarse classification of an [`Error`].
#[derive(Clone, Copy, Debug, PartialEq, Eq, Structural)]
pub enum ErrorKind {
    /// The chosen backend cannot represent the requested shape.
    CapabilityUnsupported,
    /// A value does not fit the fixed-width slot reserved for it.
    ValueTooWide,
    /// A value contains a byte that is reserved as a terminator or sentinel.
    ValueContainsReservedByte,
    /// A configuration parameter is outside the supported set.
    ConfigurationUnsupported,
}

/// Everything that an emission call can fail with.
#[derive(Clone, Copy, Debug, PartialEq, Eq, Structural)]
pub enum Error {
    /// A string-valued map was requested in the transducer backend.
    FstStringMap,
    /// A one-to-many codepoint map was requested in the transducer backend.
    FstMultiMap,
    /// A codepoint-to-codepoints map was requested in the transducer backend.
    FstCodepointsMap,
    /// A string to be packed into a 64-bit slot exceeds 8 bytes.
    StringTooLong,
    /// A string to be packed into a 64-bit slot contains a zero byte.
    StringContainsNul,
    /// A function-style codepoint map has 0 as a destination codepoint.
    ZeroDestination,
    /// A flat fixed-width table was requested for a value list of more
    /// than 3 entries.
    FlatTableTooManyValues,
    /// A flat fixed-width table would confuse a real value with the padding
    /// sentinel.
    FlatTableSentinel,
    /// An automaton's state identifier width is not 1, 2, 4 or 8 bytes.
    UnsupportedStateIdSize,
    /// The trie builder cannot represent the codepoint set.
    TrieBuild,
    /// The transducer builder refused the key sequence.
    FstBuild,
}

impl Error {
    /// The coarse kind of this error.
    pub fn kind(&self) -> (k: ErrorKind)
        ensures
            k == self.spec_kind(),
    {
        match self {
            Error::FstStringMap => ErrorKind::CapabilityUnsupported,
            Error::FstMultiMap => ErrorKind::CapabilityUnsupported,
            Error::FstCodepointsMap => ErrorKind::CapabilityUnsupported,
            Error::StringTooLong => ErrorKind::ValueTooWide,
            Error::StringContainsNul => ErrorKind::ValueContainsReservedByte,
            Error::ZeroDestination => ErrorKind::ValueTooWide,
            Error::FlatTableTooManyValues => ErrorKind::CapabilityUnsupported,
            Error::FlatTableSentinel => ErrorKind::ValueContainsReservedByte,
            Error::UnsupportedStateIdSize => ErrorKind::ConfigurationUnsupported,
            Error::TrieBuild => ErrorKind::CapabilityUnsupported,
            Error::FstBuild => ErrorKind::CapabilityUnsupported,
        }
    }

    /// The kind, as a spec-level function.
    pub open spec fn spec_kind(&self) -> ErrorKind {
        match self {
            Error::FstStringMap => ErrorKind::CapabilityUnsupported,
            Error::FstMultiMap => ErrorKind::CapabilityUnsupported,
            Error::FstCodepointsMap => ErrorKind::CapabilityUnsupported,
            Error::StringTooLong => ErrorKind::ValueTooWide,
            Error::StringContainsNul => ErrorKind::ValueContainsReservedByte,
            Error::ZeroDestination => ErrorKind::ValueTooWide,
            Error::FlatTableTooManyValues => ErrorKind::CapabilityUnsupported,
            Error::FlatTableSentinel => ErrorKind::ValueContainsReservedByte,
            Error::UnsupportedStateIdSize => ErrorKind::ConfigurationUnsupported,
            Error::TrieBuild => ErrorKind::CapabilityUnsupported,
            Error::FstBuild => ErrorKind::CapabilityUnsupported,
        }
    }

    /// A human-readable description of this error.
    pub fn message(&self) -> (m: String)
        ensures
            m@ == self.spec_message(),
    {
        match self {
            Error::FstStringMap => "cannot emit string->string map as an FST".to_owned(),
            Error::FstMultiMap => "cannot emit codepoint multimaps as an FST".to_owned(),
            Error::FstCodepointsMap => "cannot emit codepoint->codepoints map as an FST"
                .to_owned(),
            Error::StringTooLong => "cannot encode string (too long)".to_owned(),
            Error::StringContainsNul => "cannot encode string (contains NUL byte)".to_owned(),
            Error::ZeroDestination => "destination codepoint must not be 0 (NUL) for rust-match output format"
                .to_owned(),
            Error::FlatTableTooManyValues => "flat-table representation cannot be used when value arrays may contain more than 3 entries"
                .to_owned(),
            Error::FlatTableSentinel => "flat-table representation cannot be used when the padding sentinel is present in the value array"
                .to_owned(),
            Error::UnsupportedStateIdSize => "unsupported DFA state id size".to_owned(),
            Error::TrieBuild => "codepoint set cannot be represented as a trie".to_owned(),
            Error::FstBuild => "keys cannot be represented as an FST".to_owned(),
        }
    }

    /// The message, as a spec-level function.
    pub open spec fn spec_message(&self) -> Seq<char> {
        match self {
            Error::FstStringMap => "cannot emit string->string map as an FST"@,
            Error::FstMultiMap => "cannot emit codepoint multimaps as an FST"@,
            Error::FstCodepointsMap => "cannot emit codepoint->codepoints map as an FST"@,
            Error::StringTooLong => "cannot encode string (too long)"@,
            Error::StringContainsNul => "cannot encode string (contains NUL byte)"@,
            Error::ZeroDestination => "destination codepoint must not be 0 (NUL) for rust-match output format"@,
            Error::FlatTableTooManyValues => "flat-table representation cannot be used when value arrays may contain more than 3 entries"@,
            Error::FlatTableSentinel => "flat-table representation cannot be used when the padding sentinel is present in the value array"@,
            Error::UnsupportedStateIdSize => "unsupported DFA state id size"@,
            Error::TrieBuild => "codepoint set cannot be represented as a trie"@,
            Error::FstBuild => "keys cannot be represented as an FST"@,
        }
    }
}

} // verus!
