use vstd::prelude::*;
use crate::error::ParseError;
use crate::message::Station;

verus! {

/// Which reassembly group a fragment belongs to: its sequential message id
/// and its radio channel, each absent when the sentence leaves it empty.
#[derive(Clone, Copy, Debug, PartialEq, Eq, Structural)]
pub struct FragmentKey {
    pub sequence_id: Option<u8>,
    pub channel: Option<u8>,
}

/// The fields of one encapsulation sentence (`!AIVDM,...*hh`). The payload is
/// given by its bounds in the sentence text.
#[derive(Clone, Copy, Debug, PartialEq, Eq, Structural)]
pub struct Sentence {
    pub station: Station,
    pub own_vessel: bool,
    pub fragment_count: u8,
    pub fragment_number: u8,
    pub key: FragmentKey,
    pub payload_start: usize,
    pub payload_end: usize,
    pub fill_bits: u8,
    pub checksum_ok: bool,
}

/// End of the field that starts at `i`: the first comma at or after `i`
/// before `stop`, or `stop`.
pub open spec fn field_end(s: Seq<u8>, i: int, stop: int) -> int
    decreases stop - i,
{
    if i >= stop {
        stop
    } else if s[i] == 44 {
        i
    } else {
        field_end(s, i + 1, stop)
    }
}

pub open spec fn is_digit(c: u8) -> bool {
    48 <= c <= 57
}

pub open spec fn is_hex_digit(c: u8) -> bool {
    is_digit(c) || (65 <= c <= 70) || (97 <= c <= 102)
}

pub open spec fn hex_value(c: u8) -> u8 {
    if is_digit(c) {
        (c - 48) as u8
    } else if 65 <= c <= 70 {
        (c - 55) as u8
    } else {
        (c - 87) as u8
    }
}

/// XOR of the bytes `lo .. hi` of `s`.
pub open spec fn xor_range(s: Seq<u8>, lo: int, hi: int) -> u8
    decreases hi - lo,
{
    if hi <= lo {
        0
    } else {
        xor_range(s, lo, hi - 1) ^ s[hi - 1]
    }
}

/// The value of a field made of one decimal digit.
pub open spec fn single_digit(s: Seq<u8>, a: int, b: int) -> Option<u8> {
    if b == a + 1 && is_digit(s[a]) {
        Some((s[a] - 48) as u8)
    } else {
        None
    }
}

/// A field that is empty or holds one byte: `Ok(None)`, `Ok(Some(byte))`, or
/// `Err(())` when it is longer.
pub open spec fn short_field(s: Seq<u8>, a: int, b: int) -> Result<Option<u8>, ()> {
    if b == a {
        Ok(None)
    } else if b - a == 1 {
        Ok(Some(s[a]))
    } else {
        Err(())
    }
}

/// The station category that a two-letter talker id names.
pub open spec fn station_of(c1: u8, c2: u8) -> Station {
    if c1 != 65 {
        Station::Other
    } else if c2 == 66 {
        Station::BaseStation
    } else if c2 == 68 {
        Station::DependentAisBaseStation
    } else if c2 == 73 {
        Station::MobileStation
    } else if c2 == 78 {
        Station::AidToNavigationStation
    } else if c2 == 82 {
        Station::AisReceivingStation
    } else if c2 == 83 {
        Station::LimitedBaseStation
    } else if c2 == 84 {
        Station::AisTransmittingStation
    } else if c2 == 88 {
        Station::RepeaterStation
    } else {
        Station::Other
    }
}

/// Whether the five-byte tag at `a` is `..VDM` (other vessels) or `..VDO` (own vessel).
pub open spec fn is_vdm_tag(s: Seq<u8>, a: int, b: int) -> bool {
    b == a + 5 && s[a + 2] == 86 && s[a + 3] == 68 && (s[a + 4] == 77 || s[a + 4] == 79)
}

/// The fields of a sentence, or why it is refused.
pub open spec fn tokenize(s: Seq<u8>) -> Result<Sentence, ParseError> {
    if s.len() < 4 || !(s[0] == 33 || s[0] == 36) || s[s.len() - 3] != 42 || !is_hex_digit(
        s[s.len() - 2],
    ) || !is_hex_digit(s[s.len() - 1]) {
        Err(ParseError::InvalidSentence)
    } else {
        let hi = s.len() - 3;
        let e0 = field_end(s, 1, hi);
        let e1 = field_end(s, e0 + 1, hi);
        let e2 = field_end(s, e1 + 1, hi);
        let e3 = field_end(s, e2 + 1, hi);
        let e4 = field_end(s, e3 + 1, hi);
        let e5 = field_end(s, e4 + 1, hi);
        let e6 = field_end(s, e5 + 1, hi);
        if !(e5 < hi && e6 == hi) {
            Err(ParseError::InvalidSentence)
        } else if !is_vdm_tag(s, 1, e0) {
            Err(ParseError::UnsupportedSentenceType)
        } else {
            let count = single_digit(s, e0 + 1, e1);
            let number = single_digit(s, e1 + 1, e2);
            let seq_id = short_field(s, e2 + 1, e3);
            let channel = short_field(s, e3 + 1, e4);
            let fill = single_digit(s, e5 + 1, e6);
            if count is None || number is None || seq_id is Err || channel is Err || fill is None {
                Err(ParseError::InvalidSentence)
            } else if !(1 <= number->0 <= count->0) || fill->0 > 5 {
                Err(ParseError::InvalidSentence)
            } else {
                Ok(
                    Sentence {
                        station: station_of(s[1], s[2]),
                        own_vessel: s[5] == 79,
                        fragment_count: count->0,
                        fragment_number: number->0,
                        key: FragmentKey { sequence_id: seq_id->Ok_0, channel: channel->Ok_0 },
                        payload_start: (e4 + 1) as usize,
                        payload_end: e5 as usize,
                        fill_bits: fill->0,
                        checksum_ok: xor_range(s, 1, hi) == hex_value(s[s.len() - 2]) * 16
                            + hex_value(s[s.len() - 1]),
                    },
                )
            }
        }
    }
}

proof fn lemma_field_end_bounds(s: Seq<u8>, i: int, stop: int)
    ensures
        i <= stop ==> i <= field_end(s, i, stop) <= stop,
        i > stop ==> field_end(s, i, stop) == stop,
    decreases stop - i,
{
    if i < stop && s[i] != 44 {
        lemma_field_end_bounds(s, i + 1, stop);
    }
}

fn find_field_end(s: &[u8], i: usize, stop: usize) -> (r: usize)
    requires
        stop <= s@.len(),
    ensures
        r == field_end(s@, i as int, stop as int),
{
    let mut j = i;
    if j >= stop {
        return stop;
    }
    while j < stop && s[j] != 44
        invariant
            i <= j <= stop,
            stop <= s@.len(),
            field_end(s@, i as int, stop as int) == field_end(s@, j as int, stop as int),
        decreases stop - j,
    {
        j += 1;
    }
    j
}

fn digit_field(s: &[u8], a: usize, b: usize) -> (r: Option<u8>)
    requires
        a <= b <= s@.len(),
    ensures
        r == single_digit(s@, a as int, b as int),
{
    if b > a && b - a == 1 && 48 <= s[a] && s[a] <= 57 {
        Some(s[a] - 48)
    } else {
        None
    }
}

fn byte_field(s: &[u8], a: usize, b: usize) -> (r: Result<Option<u8>, ()>)
    requires
        a <= b <= s@.len(),
    ensures
        r == short_field(s@, a as int, b as int),
{
    if b == a {
        Ok(None)
    } else if b - a == 1 {
        Ok(Some(s[a]))
    } else {
        Err(())
    }
}

fn hex_digit(c: u8) -> (r: u8)
    requires
        is_hex_digit(c),
    ensures
        r == hex_value(c),
        r < 16,
{
    if 48 <= c && c <= 57 {
        c - 48
    } else if 65 <= c && c <= 70 {
        c - 55
    } else {
        c - 87
    }
}

fn talker_station(c1: u8, c2: u8) -> (r: Station)
    ensures
        r == station_of(c1, c2),
{
    if c1 != 65 {
        Station::Other
    } else if c2 == 66 {
        Station::BaseStation
    } else if c2 == 68 {
        Station::DependentAisBaseStation
    } else if c2 == 73 {
        Station::MobileStation
    } else if c2 == 78 {
        Station::AidToNavigationStation
    } else if c2 == 82 {
        Station::AisReceivingStation
    } else if c2 == 83 {
        Station::LimitedBaseStation
    } else if c2 == 84 {
        Station::AisTransmittingStation
    } else if c2 == 88 {
        Station::RepeaterStation
    } else {
        Station::Other
    }
}

fn checksum(s: &[u8], lo: usize, hi: usize) -> (r: u8)
    requires
        lo <= hi <= s@.len(),
    ensures
        r == xor_range(s@, lo as int, hi as int),
{
    let mut acc: u8 = 0;
    let mut i = lo;
    while i < hi
        invariant
            lo <= i <= hi,
            hi <= s@.len(),
            acc == xor_range(s@, lo as int, i as int),
        decreases hi - i,
    {
        acc = acc ^ s[i];
        i += 1;
    }
    acc
}

/// Splits an encapsulation sentence into its fields.
pub fn parse_sentence_fields(s: &[u8]) -> (r: Result<Sentence, ParseError>)
    ensures
        r == tokenize(s@),
        r matches Ok(t) ==> t.payload_start <= t.payload_end <= s@.len(),
{
    let n = s.len();
    if n < 4 || !(s[0] == 33 || s[0] == 36) || s[n - 3] != 42 {
        return Err(ParseError::InvalidSentence);
    }
    let h1 = s[n - 2];
    let h2 = s[n - 1];
    if !((48 <= h1 && h1 <= 57) || (65 <= h1 && h1 <= 70) || (97 <= h1 && h1 <= 102)) || !((48
        <= h2 && h2 <= 57) || (65 <= h2 && h2 <= 70) || (97 <= h2 && h2 <= 102)) {
        return Err(ParseError::InvalidSentence);
    }
    let hi = n - 3;
    let e0 = find_field_end(s, 1, hi);
    proof {
        lemma_field_end_bounds(s@, 1, hi as int);
    }
    let e1 = find_field_end(s, e0 + 1, hi);
    proof {
        lemma_field_end_bounds(s@, e0 + 1, hi as int);
    }
    let e2 = find_field_end(s, e1 + 1, hi);
    proof {
        lemma_field_end_bounds(s@, e1 + 1, hi as int);
    }
    let e3 = find_field_end(s, e2 + 1, hi);
    proof {
        lemma_field_end_bounds(s@, e2 + 1, hi as int);
    }
    let e4 = find_field_end(s, e3 + 1, hi);
    proof {
        lemma_field_end_bounds(s@, e3 + 1, hi as int);
    }
    let e5 = find_field_end(s, e4 + 1, hi);
    proof {
        lemma_field_end_bounds(s@, e4 + 1, hi as int);
    }
    let e6 = find_field_end(s, e5 + 1, hi);
    proof {
        lemma_field_end_bounds(s@, e5 + 1, hi as int);
    }
    if !(e5 < hi && e6 == hi) {
        return Err(ParseError::InvalidSentence);
    }
    if !(e0 == 6 && s[3] == 86 && s[4] == 68 && (s[5] == 77 || s[5] == 79)) {
        return Err(ParseError::UnsupportedSentenceType);
    }
    let count = digit_field(s, e0 + 1, e1);
    let number = digit_field(s, e1 + 1, e2);
    let seq_id = byte_field(s, e2 + 1, e3);
    let channel = byte_field(s, e3 + 1, e4);
    let fill = digit_field(s, e5 + 1, e6);
    match (count, number, seq_id, channel, fill) {
        (Some(c), Some(k), Ok(q), Ok(ch), Some(f)) => {
            if !(1 <= k && k <= c) || f > 5 {
                Err(ParseError::InvalidSentence)
            } else {
                let x = checksum(s, 1, hi);
                let expected = hex_digit(h1) * 16 + hex_digit(h2);
                Ok(
                    Sentence {
                        station: talker_station(s[1], s[2]),
                        own_vessel: s[5] == 79,
                        fragment_count: c,
                        fragment_number: k,
                        key: FragmentKey { sequence_id: q, channel: ch },
                        payload_start: e4 + 1,
                        payload_end: e5,
                        fill_bits: f,
                        checksum_ok: x == expected,
                    },
                )
            }
        },
        _ => Err(ParseError::InvalidSentence),
    }
}

} // verus!
