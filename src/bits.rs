use vstd::prelude::*;
use vstd::arithmetic::power2::*;
use crate::error::ParseError;

verus! {

/// Whether `c` belongs to the six-bit armor alphabet (`'0'..='W'` and `` '`'..='w' ``).
pub open spec fn is_armor_char(c: u8) -> bool {
    (48 <= c && c <= 87) || (96 <= c && c <= 119)
}

/// The six-bit value carried by an armor character: subtract 48, and when the
/// result exceeds 40 subtract 8 more.
pub open spec fn armor_value(c: u8) -> u8 {
    if c - 48 > 40 {
        (c - 56) as u8
    } else {
        (c - 48) as u8
    }
}

/// The armor character that carries the six-bit value `v`.
pub open spec fn armor_char(v: u8) -> u8 {
    if v < 40 {
        (v + 48) as u8
    } else {
        (v + 56) as u8
    }
}

pub open spec fn all_armor(p: Seq<u8>) -> bool {
    forall|i: int| 0 <= i < p.len() ==> is_armor_char(#[trigger] p[i])
}

/// The six bits of `v`, most significant first.
pub open spec fn sixbit_bits(v: u8) -> Seq<bool> {
    seq![
        (v / 32) % 2 == 1,
        (v / 16) % 2 == 1,
        (v / 8) % 2 == 1,
        (v / 4) % 2 == 1,
        (v / 2) % 2 == 1,
        v % 2 == 1,
    ]
}

/// The bit sequence that an armored payload carries, before fill bits are dropped.
pub open spec fn payload_bits(p: Seq<u8>) -> Seq<bool>
    decreases p.len(),
{
    if p.len() == 0 {
        Seq::empty()
    } else {
        payload_bits(p.drop_last()) + sixbit_bits(armor_value(p.last()))
    }
}

/// The unsigned number written by `s`, most significant bit first.
pub open spec fn bits_value(s: Seq<bool>) -> nat
    decreases s.len(),
{
    if s.len() == 0 {
        0
    } else {
        2 * bits_value(s.drop_last()) + (if s.last() { 1nat } else { 0nat })
    }
}

/// The value of bits `offset .. offset + width` of `s`.
pub open spec fn field_value(s: Seq<bool>, offset: int, width: int) -> nat {
    bits_value(s.subrange(offset, offset + width))
}

/// Two's complement reading of a `width`-bit pattern `raw`.
pub open spec fn sign_extend(raw: nat, width: nat) -> int {
    if width > 0 && raw >= pow2((width - 1) as nat) {
        raw - pow2(width)
    } else {
        raw as int
    }
}

/// The signed value of bits `offset .. offset + width` of `s`.
pub open spec fn signed_field_value(s: Seq<bool>, offset: int, width: int) -> int {
    sign_extend(field_value(s, offset, width), width as nat)
}

/// Whether a window of `width` bits at `offset` can be read from `len` bits.
pub open spec fn window_fits(len: nat, offset: nat, width: nat) -> bool {
    width <= 64 && offset + width <= len
}

pub proof fn lemma_bits_value_bound(s: Seq<bool>)
    ensures
        bits_value(s) < pow2(s.len()),
    decreases s.len(),
{
    lemma2_to64();
    if s.len() > 0 {
        let rest = s.drop_last();
        lemma_bits_value_bound(rest);
        lemma_pow2_unfold(s.len());
        assert(bits_value(rest) + 1 <= pow2(rest.len()));
        assert(bits_value(s) <= 2 * bits_value(rest) + 1);
    }
}

pub proof fn lemma_payload_bits_len(p: Seq<u8>)
    ensures
        payload_bits(p).len() == 6 * p.len(),
    decreases p.len(),
{
    if p.len() > 0 {
        lemma_payload_bits_len(p.drop_last());
    }
}

/// Re-armoring the six-bit value of any armor character gives the character back.
pub proof fn lemma_armor_char_round_trip(c: u8)
    requires
        is_armor_char(c),
    ensures
        armor_value(c) < 64,
        armor_char(armor_value(c)) == c,
{
}

/// Armoring a six-bit value and de-armoring the character gives the value back.
pub proof fn lemma_armor_value_round_trip(v: u8)
    requires
        v < 64,
    ensures
        is_armor_char(armor_char(v)),
        armor_value(armor_char(v)) == v,
{
}

/// Six-bit value of an armor character, or `None` for a byte outside the alphabet.
pub fn dearmor_char(c: u8) -> (r: Option<u8>)
    ensures
        r == (if is_armor_char(c) { Some(armor_value(c)) } else { None::<u8> }),
{
    if (48 <= c && c <= 87) || (96 <= c && c <= 119) {
        let v = c - 48;
        if v > 40 {
            Some(v - 8)
        } else {
            Some(v)
        }
    } else {
        None
    }
}

/// Armor character of a six-bit value.
pub fn armor_encode_char(v: u8) -> (r: u8)
    requires
        v < 64,
    ensures
        r == armor_char(v),
{
    if v < 40 {
        v + 48
    } else {
        v + 56
    }
}

/// The armor characters of a sequence of six-bit values.
pub open spec fn armor_string(vs: Seq<u8>) -> Seq<u8> {
    Seq::new(vs.len(), |i: int| armor_char(vs[i]))
}

/// The six-bit values of an armored payload.
pub open spec fn dearmor_string(p: Seq<u8>) -> Seq<u8> {
    Seq::new(p.len(), |i: int| armor_value(p[i]))
}

/// De-armoring a valid payload and armoring the values again reproduces the payload.
pub proof fn lemma_armor_round_trip(p: Seq<u8>)
    requires
        all_armor(p),
    ensures
        armor_string(dearmor_string(p)) == p,
{
    assert forall|i: int| 0 <= i < p.len() implies #[trigger] armor_string(dearmor_string(p))[i]
        == p[i] by {
        lemma_armor_char_round_trip(p[i]);
    }
    assert(armor_string(dearmor_string(p)) =~= p);
}

/// Armors six-bit values into payload characters.
pub fn armor_payload(values: &[u8]) -> (r: Vec<u8>)
    requires
        forall|i: int| 0 <= i < values@.len() ==> #[trigger] values@[i] < 64,
    ensures
        r@ == armor_string(values@),
{
    let mut out: Vec<u8> = Vec::new();
    let mut i: usize = 0;
    while i < values.len()
        invariant
            i <= values@.len(),
            forall|j: int| 0 <= j < values@.len() ==> #[trigger] values@[j] < 64,
            out@ == armor_string(values@.subrange(0, i as int)),
        decreases values@.len() - i,
    {
        let c = armor_encode_char(values[i]);
        out.push(c);
        i += 1;
        assert(out@ =~= armor_string(values@.subrange(0, i as int)));
    }
    assert(values@.subrange(0, values@.len() as int) =~= values@);
    out
}

/// The bits of one assembled payload, most significant bit of the first
/// character first, with the fill bits already dropped from the end.
pub struct BitBuffer {
    bits: Vec<bool>,
}

impl View for BitBuffer {
    type V = Seq<bool>;

    closed spec fn view(&self) -> Seq<bool> {
        self.bits@
    }
}

/// Appends the six bits of `v`, most significant first.
fn push_sixbit(bits: &mut Vec<bool>, v: u8)
    ensures
        final(bits)@ == old(bits)@ + sixbit_bits(v),
{
    bits.push(v / 32 % 2 == 1);
    bits.push(v / 16 % 2 == 1);
    bits.push(v / 8 % 2 == 1);
    bits.push(v / 4 % 2 == 1);
    bits.push(v / 2 % 2 == 1);
    bits.push(v % 2 == 1);
    assert(bits@ =~= old(bits)@ + sixbit_bits(v));
}

/// `2^e` as a machine integer.
fn pow2_u64(e: usize) -> (r: u64)
    requires
        e < 64,
    ensures
        r == pow2(e as nat),
{
    let mut r: u64 = 1;
    let mut k: usize = 0;
    proof {
        reveal(pow2);
        lemma2_to64();
    }
    while k < e
        invariant
            k <= e,
            e < 64,
            r == pow2(k as nat),
        decreases e - k,
    {
        proof {
            lemma_pow2_unfold((k + 1) as nat);
            lemma_pow2_strictly_increases((k + 1) as nat, 64);
            lemma2_to64();
        }
        r = r * 2;
        k += 1;
    }
    r
}

impl BitBuffer {
    /// Builds the buffer of an armored payload whose last `fill_bits` bits are padding.
    pub fn from_payload(payload: &[u8], fill_bits: usize) -> (r: Result<BitBuffer, ParseError>)
        ensures
            !all_armor(payload@) ==> r == Err::<BitBuffer, ParseError>(
                ParseError::InvalidArmorCharacter,
            ),
            all_armor(payload@) && fill_bits > 6 * payload@.len() ==> r == Err::<
                BitBuffer,
                ParseError,
            >(ParseError::RangeError),
            all_armor(payload@) && fill_bits <= 6 * payload@.len() ==> r is Ok && r->Ok_0@
                == payload_bits(payload@).take(6 * payload@.len() - fill_bits),
    {
        let mut bits: Vec<bool> = Vec::new();
        let mut i: usize = 0;
        while i < payload.len()
            invariant
                i <= payload@.len(),
                all_armor(payload@.subrange(0, i as int)),
                bits@ == payload_bits(payload@.subrange(0, i as int)),
            decreases payload@.len() - i,
        {
            let c = payload[i];
            match dearmor_char(c) {
                None => {
                    return Err(ParseError::InvalidArmorCharacter);
                },
                Some(v) => {
                    push_sixbit(&mut bits, v);
                    let ghost before = payload@.subrange(0, i as int);
                    i += 1;
                    proof {
                        let now = payload@.subrange(0, i as int);
                        assert(now.drop_last() =~= before);
                        assert(bits@ =~= payload_bits(now));
                        assert(all_armor(now));
                    }
                },
            }
        }
        proof {
            assert(payload@.subrange(0, payload@.len() as int) =~= payload@);
            lemma_payload_bits_len(payload@);
        }
        if fill_bits > bits.len() {
            return Err(ParseError::RangeError);
        }
        let keep = bits.len() - fill_bits;
        bits.truncate(keep);
        proof {
            assert(bits@ =~= payload_bits(payload@).take(6 * payload@.len() - fill_bits));
        }
        Ok(BitBuffer { bits })
    }

    /// Number of bits held. Decoders call it first so that their proofs know
    /// the length, and every offset below it, fits a `usize`.
    pub fn len(&self) -> (r: usize)
        ensures
            r == self@.len(),
    {
        self.bits.len()
    }

    /// Reads `width` bits at `offset` as an unsigned number; the window must fit.
    pub fn read_unsigned(&self, offset: usize, width: usize) -> (r: u64)
        requires
            window_fits(self@.len(), offset as nat, width as nat),
        ensures
            r == field_value(self@, offset as int, width as int),
    {
        let len = self.bits.len();
        let mut acc: u64 = 0;
        let mut i: usize = offset;
        let end = offset + width;
        while i < end
            invariant
                offset <= i <= end,
                end == offset + width,
                width <= 64,
                end <= self@.len(),
                acc == bits_value(self@.subrange(offset as int, i as int)),
            decreases end - i,
        {
            let ghost prefix = self@.subrange(offset as int, i as int);
            proof {
                lemma_bits_value_bound(prefix);
                lemma_pow2_strictly_increases(prefix.len(), 64);
                if prefix.len() < 63 {
                    lemma_pow2_strictly_increases(prefix.len(), 63);
                }
                lemma2_to64();
                lemma2_to64_rest();
            }
            let b: u64 = if self.bits[i] { 1 } else { 0 };
            acc = acc * 2 + b;
            i += 1;
            proof {
                assert(self@.subrange(offset as int, i as int).drop_last() =~= prefix);
            }
        }
        acc
    }

    /// Reads `width` bits at `offset` as a two's complement number; the window
    /// must fit and hold at least one bit.
    pub fn read_signed(&self, offset: usize, width: usize) -> (r: i64)
        requires
            window_fits(self@.len(), offset as nat, width as nat),
            width >= 1,
        ensures
            r == signed_field_value(self@, offset as int, width as int),
    {
        let raw = self.read_unsigned(offset, width);
        let half = pow2_u64(width - 1);
        proof {
            lemma_bits_value_bound(self@.subrange(offset as int, offset + width));
            lemma_pow2_unfold(width as nat);
            lemma2_to64();
            lemma2_to64_rest();
            if width < 64 {
                lemma_pow2_strictly_increases((width - 1) as nat, 63);
            }
        }
        if raw >= half {
            let mag = half - (raw - half);
            -((mag - 1) as i64) - 1
        } else {
            raw as i64
        }
    }

    /// Unsigned read of a window, or `RangeError` when it does not fit.
    pub fn pick_u64(&self, offset: usize, width: usize) -> (r: Result<u64, ParseError>)
        ensures
            window_fits(self@.len(), offset as nat, width as nat) ==> r == Ok::<u64, ParseError>(
                field_value(self@, offset as int, width as int) as u64,
            ),
            !window_fits(self@.len(), offset as nat, width as nat) ==> r == Err::<u64, ParseError>(
                ParseError::RangeError,
            ),
    {
        if width > 64 || offset > self.bits.len() || width > self.bits.len() - offset {
            Err(ParseError::RangeError)
        } else {
            Ok(self.read_unsigned(offset, width))
        }
    }

    /// Sign-extended read of a window, or `RangeError` when it does not fit or is empty.
    pub fn pick_i64(&self, offset: usize, width: usize) -> (r: Result<i64, ParseError>)
        ensures
            window_fits(self@.len(), offset as nat, width as nat) && width >= 1 ==> r == Ok::<
                i64,
                ParseError,
            >(signed_field_value(self@, offset as int, width as int) as i64),
            !(window_fits(self@.len(), offset as nat, width as nat) && width >= 1) ==> r == Err::<
                i64,
                ParseError,
            >(ParseError::RangeError),
    {
        if width == 0 || width > 64 || offset > self.bits.len() || width > self.bits.len()
            - offset {
            Err(ParseError::RangeError)
        } else {
            Ok(self.read_signed(offset, width))
        }
    }
}

/// Two bit sequences of one length that write the same number are equal.
pub proof fn lemma_bits_value_injective(s1: Seq<bool>, s2: Seq<bool>)
    requires
        s1.len() == s2.len(),
        bits_value(s1) == bits_value(s2),
    ensures
        s1 == s2,
    decreases s1.len(),
{
    if s1.len() > 0 {
        lemma_bits_value_injective(s1.drop_last(), s2.drop_last());
        assert(s1 =~= s1.drop_last().push(s1.last()));
        assert(s2 =~= s2.drop_last().push(s2.last()));
    } else {
        assert(s1 =~= s2);
    }
}

/// A pattern whose first (most significant) bit is set is at least `2^(len-1)`.
pub proof fn lemma_top_bit_value(s: Seq<bool>)
    requires
        s.len() >= 1,
        s[0],
    ensures
        bits_value(s) >= pow2((s.len() - 1) as nat),
    decreases s.len(),
{
    lemma2_to64();
    if s.len() > 1 {
        let rest = s.drop_last();
        lemma_top_bit_value(rest);
        lemma_pow2_unfold((s.len() - 1) as nat);
    } else {
        assert(s.drop_last().len() == 0);
    }
}

/// A field whose top bit is set reads, sign-extended, as its unsigned value
/// minus `2^width`, which is negative.
pub proof fn lemma_sign_extension_negative(b: Seq<bool>, offset: int, width: int)
    requires
        1 <= width <= 64,
        0 <= offset,
        offset + width <= b.len(),
        b[offset],
    ensures
        signed_field_value(b, offset, width) == field_value(b, offset, width) - pow2(width as nat),
        signed_field_value(b, offset, width) < 0,
{
    let f = b.subrange(offset, offset + width);
    assert(f[0] == b[offset]);
    lemma_top_bit_value(f);
    lemma_bits_value_bound(f);
}

} // verus!
