use vstd::prelude::*;

verus! {

/// Ways in which decoding one sentence can fail.
#[derive(Clone, Copy, Debug, PartialEq, Eq, Structural)]
pub enum ParseError {
    /// A payload byte lies outside the six-bit armor alphabet.
    InvalidArmorCharacter,
    /// A bit window reaches past the end of the payload, or is wider than 64 bits.
    RangeError,
    /// The message type (or the sentence kind) has no decoder.
    UnsupportedSentenceType,
    /// A fragment failed its checksum or did not fit the group it claims to belong to.
    CorruptedFragment,
    /// The sentence text is not a well-formed encapsulation sentence.
    InvalidSentence,
}

} // verus!
