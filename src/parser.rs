use vstd::prelude::*;
use vstd::string::StringSliceAdditionalSpecFns;
use crate::bits::{BitBuffer, all_armor, field_value, payload_bits};
use crate::error::ParseError;
use crate::field::ClockReading;
use crate::message::{ParsedMessage, Station};
use crate::sentence::{FragmentKey, Sentence, parse_sentence_fields, tokenize};
use crate::vdm_t6;
use crate::vdm_t8;

verus! {

/// A reassembly group as the contracts see it: its key, the declared number
/// of fragments, how many have arrived in order, and their payloads joined.
pub type GroupView = (FragmentKey, u8, u8, Seq<u8>);

/// Fragments of one message received so far.
pub struct PendingGroup {
    key: FragmentKey,
    total: u8,
    received: u8,
    payload: Vec<u8>,
}

impl View for PendingGroup {
    type V = GroupView;

    closed spec fn view(&self) -> GroupView {
        (self.key, self.total, self.received, self.payload@)
    }
}

/// Index of the group with key `k`, or -1.
pub open spec fn find_group(gs: Seq<GroupView>, k: FragmentKey) -> int
    decreases gs.len(),
{
    if gs.len() == 0 {
        -1
    } else if gs.last().0 == k {
        gs.len() - 1
    } else {
        find_group(gs.drop_last(), k)
    }
}

/// The groups without the one keyed `k`.
pub open spec fn remove_group(gs: Seq<GroupView>, k: FragmentKey) -> Seq<GroupView> {
    let i = find_group(gs, k);
    if i >= 0 {
        gs.remove(i)
    } else {
        gs
    }
}

/// The groups with `g` in place of any group under its key.
pub open spec fn put_group(gs: Seq<GroupView>, g: GroupView) -> Seq<GroupView> {
    remove_group(gs, g.0).push(g)
}

/// No two groups share a key.
pub open spec fn unique_keys(gs: Seq<GroupView>) -> bool {
    forall|i: int, j: int| 0 <= i < j < gs.len() ==> gs[i].0 != gs[j].0
}

/// One step of reassembly: the groups after the fragment `t` with payload
/// `p`, and either an error, `None` while the message is incomplete, or the
/// whole payload.
///
/// A first fragment starts its group afresh, replacing a stale group under
/// the same key; this is also what bounds the groups kept: one per key.
pub open spec fn reassemble(gs: Seq<GroupView>, t: Sentence, p: Seq<u8>) -> (
    Seq<GroupView>,
    Result<Option<Seq<u8>>, ParseError>,
) {
    let k = t.key;
    if !t.checksum_ok {
        (remove_group(gs, k), Err(ParseError::CorruptedFragment))
    } else if t.fragment_count == 1 {
        (gs, Ok(Some(p)))
    } else if t.fragment_number == 1 {
        (put_group(gs, (k, t.fragment_count, 1u8, p)), Ok(None))
    } else {
        let i = find_group(gs, k);
        if i >= 0 && gs[i].1 == t.fragment_count && gs[i].2 + 1 == t.fragment_number {
            let joined = gs[i].3 + p;
            if t.fragment_number == t.fragment_count {
                (remove_group(gs, k), Ok(Some(joined)))
            } else {
                (put_group(gs, (k, t.fragment_count, t.fragment_number, joined)), Ok(None))
            }
        } else {
            (remove_group(gs, k), Err(ParseError::CorruptedFragment))
        }
    }
}

/// The payloads `ps` joined in order.
pub open spec fn join(ps: Seq<Seq<u8>>) -> Seq<u8>
    decreases ps.len(),
{
    if ps.len() == 0 {
        Seq::empty()
    } else {
        join(ps.drop_last()) + ps.last()
    }
}

/// Feeds the fragments `ts` with payloads `ps` in order; the groups after the
/// last one and its result.
pub open spec fn feed(gs: Seq<GroupView>, ts: Seq<Sentence>, ps: Seq<Seq<u8>>) -> (
    Seq<GroupView>,
    Result<Option<Seq<u8>>, ParseError>,
)
    decreases ts.len(),
{
    if ts.len() == 0 || ps.len() == 0 {
        (gs, Ok(None))
    } else {
        reassemble(feed(gs, ts.drop_last(), ps.drop_last()).0, ts.last(), ps.last())
    }
}

/// Fragments `1 ..= n` of one message, in order, each with a good checksum.
pub open spec fn in_order_fragments(ts: Seq<Sentence>, n: int) -> bool {
    2 <= ts.len() == n <= 9 && forall|i: int|
        0 <= i < ts.len() ==> {
            &&& (#[trigger] ts[i]).checksum_ok
            &&& ts[i].key == ts[0].key
            &&& ts[i].fragment_count == n
            &&& ts[i].fragment_number == i + 1
        }
}

proof fn lemma_feed_prefix(gs: Seq<GroupView>, ts: Seq<Sentence>, ps: Seq<Seq<u8>>, j: int)
    requires
        unique_keys(gs),
        in_order_fragments(ts, ts.len() as int),
        ps.len() == ts.len(),
        1 <= j < ts.len(),
    ensures
        feed(gs, ts.subrange(0, j), ps.subrange(0, j)) == (
            put_group(
                gs,
                (ts[0].key, ts.len() as u8, j as u8, join(ps.subrange(0, j))),
            ),
            Ok::<Option<Seq<u8>>, ParseError>(None),
        ),
    decreases j,
{
    let k = ts[0].key;
    let n = ts.len() as u8;
    let tj = ts.subrange(0, j);
    let pj = ps.subrange(0, j);
    assert(tj.drop_last() =~= ts.subrange(0, j - 1));
    assert(pj.drop_last() =~= ps.subrange(0, j - 1));
    assert(ts[j - 1].fragment_count == n);
    if j == 1 {
        assert(ts.subrange(0, 0) =~= Seq::<Sentence>::empty());
        assert(ps.subrange(0, 0) =~= Seq::<Seq<u8>>::empty());
        assert(join(pj) =~= ps[0]);
    } else {
        lemma_feed_prefix(gs, ts, ps, j - 1);
        let g = (k, n, (j - 1) as u8, join(ps.subrange(0, j - 1)));
        lemma_put_group(gs, g);
        lemma_remove_group(gs, k);
        let st = put_group(gs, g);
        assert(join(pj) =~= join(ps.subrange(0, j - 1)) + ps[j - 1]);
        assert(st.last() == g);
    }
}

/// Fragments `1 ..= n` of one message delivered in order with good checksums
/// give the joined payload, exactly what a single sentence carrying that
/// payload gives, and leave no group under their key.
pub proof fn lemma_reassembly_in_order(
    gs: Seq<GroupView>,
    ts: Seq<Sentence>,
    ps: Seq<Seq<u8>>,
    single: Sentence,
)
    requires
        unique_keys(gs),
        in_order_fragments(ts, ts.len() as int),
        ps.len() == ts.len(),
        single.checksum_ok,
        single.fragment_count == 1,
    ensures
        feed(gs, ts, ps).0 == remove_group(gs, ts[0].key),
        find_group(feed(gs, ts, ps).0, ts[0].key) == -1,
        feed(gs, ts, ps).1 == Ok::<Option<Seq<u8>>, ParseError>(Some(join(ps))),
        reassemble(gs, single, join(ps)).1 == feed(gs, ts, ps).1,
{
    let n = ts.len() as int;
    let k = ts[0].key;
    lemma_feed_prefix(gs, ts, ps, n - 1);
    assert(ts.subrange(0, n) =~= ts);
    assert(ps.subrange(0, n) =~= ps);
    assert(ts.drop_last() =~= ts.subrange(0, n - 1));
    assert(ps.drop_last() =~= ps.subrange(0, n - 1));
    let g = (k, n as u8, (n - 1) as u8, join(ps.subrange(0, n - 1)));
    lemma_put_group(gs, g);
    lemma_remove_group(gs, k);
    assert(ts[n - 1].fragment_count == n);
}

/// Feeds the sentences `ss` in order; the groups after the last one and its result.
pub open spec fn parse_all(gs: Seq<GroupView>, ss: Seq<Seq<u8>>, now: ClockReading) -> (
    Seq<GroupView>,
    Result<ParsedMessage, ParseError>,
)
    decreases ss.len(),
{
    if ss.len() == 0 {
        (gs, Ok(ParsedMessage::Incomplete))
    } else {
        parse_step(parse_all(gs, ss.drop_last(), now).0, ss.last(), now)
    }
}

/// The fields of sentences that all tokenize.
pub open spec fn tokens(ss: Seq<Seq<u8>>) -> Seq<Sentence> {
    Seq::new(ss.len(), |i: int| tokenize(ss[i])->Ok_0)
}

/// The payloads of sentences that all tokenize.
pub open spec fn payloads(ss: Seq<Seq<u8>>) -> Seq<Seq<u8>> {
    Seq::new(ss.len(), |i: int| sentence_payload(ss[i], tokenize(ss[i])->Ok_0))
}

proof fn lemma_parse_all_follows_feed(gs: Seq<GroupView>, ss: Seq<Seq<u8>>, now: ClockReading)
    requires
        forall|i: int| 0 <= i < ss.len() ==> tokenize(#[trigger] ss[i]) is Ok,
    ensures
        parse_all(gs, ss, now).0 == feed(gs, tokens(ss), payloads(ss)).0,
    decreases ss.len(),
{
    if ss.len() > 0 {
        let rest = ss.drop_last();
        lemma_parse_all_follows_feed(gs, rest, now);
        assert(tokens(ss).drop_last() =~= tokens(rest));
        assert(payloads(ss).drop_last() =~= payloads(rest));
        assert(tokens(ss).last() == tokenize(ss.last())->Ok_0);
    }
}

/// Sentences carrying fragments `1 ..= n` of one message, in order, with good
/// checksums, decode to the same result as one sentence that carries their
/// joined payload with the last fragment's fill bits and talker.
pub proof fn lemma_fragments_decode_like_single(
    gs: Seq<GroupView>,
    ss: Seq<Seq<u8>>,
    single: Seq<u8>,
    now: ClockReading,
)
    requires
        unique_keys(gs),
        forall|i: int| 0 <= i < ss.len() ==> tokenize(#[trigger] ss[i]) is Ok,
        in_order_fragments(tokens(ss), ss.len() as int),
        tokenize(single) matches Ok(t) && t.checksum_ok && t.fragment_count == 1 && sentence_payload(
            single,
            t,
        ) == join(payloads(ss)) && t.fill_bits == tokens(ss).last().fill_bits && t.station
            == tokens(ss).last().station && t.own_vessel == tokens(ss).last().own_vessel,
    ensures
        parse_all(gs, ss, now).1 == parse_step(gs, single, now).1,
        parse_all(gs, ss, now).0 == remove_group(gs, tokens(ss)[0].key),
{
    let ts = tokens(ss);
    let ps = payloads(ss);
    let t = tokenize(single)->Ok_0;
    lemma_reassembly_in_order(gs, ts, ps, t);
    let rest = ss.drop_last();
    assert forall|i: int| 0 <= i < rest.len() implies tokenize(#[trigger] rest[i]) is Ok by {
        assert(rest[i] == ss[i]);
    }
    lemma_parse_all_follows_feed(gs, rest, now);
    assert(ts.drop_last() =~= tokens(rest));
    assert(ps.drop_last() =~= payloads(rest));
    assert(ts.last() == tokenize(ss.last())->Ok_0);
    assert(ps.last() == sentence_payload(ss.last(), ts.last()));
}

/// A fragment that fails its checksum is refused as corrupted and leaves no
/// group under its key.
pub proof fn lemma_checksum_failure(gs: Seq<GroupView>, t: Sentence, p: Seq<u8>)
    requires
        unique_keys(gs),
        !t.checksum_ok,
    ensures
        reassemble(gs, t, p).1 == Err::<Option<Seq<u8>>, ParseError>(ParseError::CorruptedFragment),
        find_group(reassemble(gs, t, p).0, t.key) == -1,
        unique_keys(reassemble(gs, t, p).0),
{
    lemma_remove_group(gs, t.key);
}

/// Of the fragments `ts` of one message, all but the last are delivered in
/// order, then `bad` arrives in the last one's place and fails its checksum:
/// that step is refused as corrupted, no group remains under the message's
/// key, and every group under another key is kept.
pub proof fn lemma_checksum_failure_in_sequence(
    gs: Seq<GroupView>,
    ts: Seq<Sentence>,
    ps: Seq<Seq<u8>>,
    bad: Sentence,
    p: Seq<u8>,
)
    requires
        unique_keys(gs),
        ts.len() >= 1,
        in_order_fragments(ts, ts.len() as int),
        ps.len() == ts.len(),
        !bad.checksum_ok,
        bad.key == ts[0].key,
    ensures
        ({
            let k = (ts.len() - 1) as int;
            let before = feed(gs, ts.subrange(0, k), ps.subrange(0, k)).0;
            &&& reassemble(before, bad, p).1 == Err::<Option<Seq<u8>>, ParseError>(
                ParseError::CorruptedFragment,
            )
            &&& reassemble(before, bad, p).0 == remove_group(gs, bad.key)
            &&& find_group(reassemble(before, bad, p).0, bad.key) == -1
            &&& forall|i: int|
                0 <= i < gs.len() && gs[i].0 != bad.key ==> reassemble(before, bad, p).0.contains(
                    #[trigger] gs[i],
                )
        }),
{
    let k = (ts.len() - 1) as int;
    let key = ts[0].key;
    lemma_find_group(gs, key);
    lemma_remove_group(gs, key);
    lemma_feed_prefix(gs, ts, ps, k);
    let g = (key, ts.len() as u8, k as u8, join(ps.subrange(0, k)));
    lemma_put_group(gs, g);
    let r = remove_group(gs, key);
    assert forall|i: int| 0 <= i < gs.len() && gs[i].0 != key implies r.contains(
        #[trigger] gs[i],
    ) by {
        let f = find_group(gs, key);
        if f >= 0 {
            if i < f {
                assert(r[i] == gs[i]);
            } else {
                assert(i != f);
                assert(r[i - 1] == gs[i]);
            }
        } else {
            assert(r[i] == gs[i]);
        }
    }
}

/// A complete single sentence decodes to the same result whatever the
/// decoder holds: two decoders given it agree.
pub proof fn lemma_parse_independent_of_state(
    gs1: Seq<GroupView>,
    gs2: Seq<GroupView>,
    s: Seq<u8>,
    now: ClockReading,
)
    requires
        tokenize(s) matches Ok(t) && t.fragment_count == 1 && t.checksum_ok,
    ensures
        parse_step(gs1, s, now).1 == parse_step(gs2, s, now).1,
{
}

/// The message that a bit buffer holds, chosen by its 6-bit type.
pub open spec fn decode_bits(b: Seq<bool>, station: Station, own_vessel: bool, now: ClockReading) -> Result<
    ParsedMessage,
    ParseError,
> {
    if b.len() < 6 {
        Err(ParseError::RangeError)
    } else if field_value(b, 0, 6) == 6 {
        match vdm_t6::addressed_spec(b, station, own_vessel, now) {
            Ok(m) => Ok(ParsedMessage::BinaryAddressedMessage(m)),
            Err(e) => Err(e),
        }
    } else if field_value(b, 0, 6) == 8 {
        match vdm_t8::broadcast_spec(b, station, own_vessel, now) {
            Ok(m) => Ok(ParsedMessage::BinaryBroadcastMessage(m)),
            Err(e) => Err(e),
        }
    } else {
        Err(ParseError::UnsupportedSentenceType)
    }
}

/// The message that a whole armored payload holds.
pub open spec fn decode_payload(
    p: Seq<u8>,
    fill_bits: u8,
    station: Station,
    own_vessel: bool,
    now: ClockReading,
) -> Result<ParsedMessage, ParseError> {
    if !all_armor(p) {
        Err(ParseError::InvalidArmorCharacter)
    } else if fill_bits > 6 * p.len() {
        Err(ParseError::RangeError)
    } else {
        decode_bits(payload_bits(p).take(6 * p.len() - fill_bits), station, own_vessel, now)
    }
}

/// The payload bytes of a tokenized sentence.
pub open spec fn sentence_payload(s: Seq<u8>, t: Sentence) -> Seq<u8> {
    s.subrange(t.payload_start as int, t.payload_end as int)
}

/// What feeding sentence `s` to a decoder with groups `gs` does: the groups
/// after it and the result.
pub open spec fn parse_step(gs: Seq<GroupView>, s: Seq<u8>, now: ClockReading) -> (
    Seq<GroupView>,
    Result<ParsedMessage, ParseError>,
) {
    match tokenize(s) {
        Err(e) => (gs, Err(e)),
        Ok(t) => {
            let (next, r) = reassemble(gs, t, sentence_payload(s, t));
            match r {
                Err(e) => (next, Err(e)),
                Ok(None) => (next, Ok(ParsedMessage::Incomplete)),
                Ok(Some(p)) => (next, decode_payload(p, t.fill_bits, t.station, t.own_vessel, now)),
            }
        },
    }
}

/// Decodes a message from its bits, dispatching on the message type.
pub fn decode_message(buf: &BitBuffer, station: Station, own_vessel: bool, now: ClockReading) -> (r: Result<
    ParsedMessage,
    ParseError,
>)
    ensures
        r == decode_bits(buf@, station, own_vessel, now),
{
    if buf.len() < 6 {
        return Err(ParseError::RangeError);
    }
    let message_type = buf.read_unsigned(0, 6);
    if message_type == 6 {
        vdm_t6::handle(buf, station, own_vessel, now)
    } else if message_type == 8 {
        vdm_t8::handle(buf, station, own_vessel, now)
    } else {
        Err(ParseError::UnsupportedSentenceType)
    }
}

/// Decodes a whole armored payload whose last `fill_bits` bits are padding.
pub fn decode_armored(
    payload: &[u8],
    fill_bits: u8,
    station: Station,
    own_vessel: bool,
    now: ClockReading,
) -> (r: Result<ParsedMessage, ParseError>)
    ensures
        r == decode_payload(payload@, fill_bits, station, own_vessel, now),
{
    match BitBuffer::from_payload(payload, fill_bits as usize) {
        Ok(buf) => decode_message(&buf, station, own_vessel, now),
        Err(e) => Err(e),
    }
}

/// Copies bytes `a .. b` of `s`.
fn copy_range(s: &[u8], a: usize, b: usize) -> (r: Vec<u8>)
    requires
        a <= b <= s@.len(),
    ensures
        r@ == s@.subrange(a as int, b as int),
{
    let mut out: Vec<u8> = Vec::new();
    let mut i = a;
    while i < b
        invariant
            a <= i <= b,
            b <= s@.len(),
            out@ == s@.subrange(a as int, i as int),
        decreases b - i,
    {
        out.push(s[i]);
        i += 1;
        assert(out@ =~= s@.subrange(a as int, i as int));
    }
    out
}

proof fn lemma_find_group(gs: Seq<GroupView>, k: FragmentKey)
    ensures
        -1 <= find_group(gs, k) < gs.len(),
        find_group(gs, k) >= 0 ==> gs[find_group(gs, k)].0 == k,
        find_group(gs, k) == -1 ==> forall|j: int| 0 <= j < gs.len() ==> gs[j].0 != k,
        forall|j: int| find_group(gs, k) < j < gs.len() ==> gs[j].0 != k,
    decreases gs.len(),
{
    if gs.len() > 0 && gs.last().0 != k {
        let rest = gs.drop_last();
        lemma_find_group(rest, k);
        assert forall|j: int| 0 <= j < rest.len() implies rest[j] == gs[j] by {}
    }
}

proof fn lemma_remove_group(gs: Seq<GroupView>, k: FragmentKey)
    requires
        unique_keys(gs),
    ensures
        unique_keys(remove_group(gs, k)),
        forall|j: int| 0 <= j < remove_group(gs, k).len() ==> remove_group(gs, k)[j].0 != k,
        find_group(remove_group(gs, k), k) == -1,
{
    lemma_find_group(gs, k);
    let r = remove_group(gs, k);
    assert forall|j: int| 0 <= j < r.len() implies r[j].0 != k by {
        let i = find_group(gs, k);
        if i >= 0 {
            if j < i {
                assert(r[j] == gs[j]);
            } else {
                assert(r[j] == gs[j + 1]);
            }
        }
    }
    lemma_find_group(r, k);
}

proof fn lemma_put_group(gs: Seq<GroupView>, g: GroupView)
    requires
        unique_keys(gs),
    ensures
        unique_keys(put_group(gs, g)),
        find_group(put_group(gs, g), g.0) == put_group(gs, g).len() - 1,
        put_group(gs, g).last() == g,
        remove_group(put_group(gs, g), g.0) == remove_group(gs, g.0),
{
    lemma_remove_group(gs, g.0);
    let r = remove_group(gs, g.0);
    let p = r.push(g);
    assert(p.drop_last() =~= r);
    assert(p.remove(p.len() - 1) =~= r);
}

impl PendingGroup {
    fn key(&self) -> (r: FragmentKey)
        ensures
            r == self@.0,
    {
        self.key
    }
}

/// The decoder: turns sentences into messages, holding the fragments of
/// messages that are not complete yet.
pub struct NmeaParser {
    groups: Vec<PendingGroup>,
}

impl View for NmeaParser {
    type V = Seq<GroupView>;

    closed spec fn view(&self) -> Seq<GroupView> {
        self.groups@.map_values(|g: PendingGroup| g@)
    }
}

impl NmeaParser {
    /// The parser's invariant: at most one group per key.
    pub open spec fn wf(&self) -> bool {
        unique_keys(self@)
    }

    /// A decoder with no fragments pending.
    pub fn new() -> (r: NmeaParser)
        ensures
            r@ == Seq::<GroupView>::empty(),
            r.wf(),
    {
        let r = NmeaParser { groups: Vec::new() };
        assert(r@ =~= Seq::<GroupView>::empty());
        r
    }

    /// Number of messages whose fragments are pending.
    pub fn pending(&self) -> (r: usize)
        ensures
            r == self@.len(),
    {
        self.groups.len()
    }

    fn find(&self, k: FragmentKey) -> (r: Option<usize>)
        ensures
            find_group(self@, k) == (match r {
                Some(i) => i as int,
                None => -1,
            }),
    {
        let mut i = self.groups.len();
        assert(self@.subrange(0, i as int) =~= self@);
        while i > 0
            invariant
                i <= self@.len(),
                self@.len() == self.groups@.len(),
                find_group(self@, k) == find_group(self@.subrange(0, i as int), k),
            decreases i,
        {
            let ghost sub = self@.subrange(0, i as int);
            if self.groups[i - 1].key() == k {
                assert(sub.last() == self@[i - 1]);
                return Some(i - 1);
            }
            assert(sub.drop_last() =~= self@.subrange(0, i - 1));
            i -= 1;
        }
        None
    }

    fn remove(&mut self, k: FragmentKey) -> (r: Option<PendingGroup>)
        requires
            old(self).wf(),
        ensures
            final(self)@ == remove_group(old(self)@, k),
            final(self).wf(),
            r matches Some(g) ==> find_group(old(self)@, k) >= 0 && g@ == old(self)@[find_group(
                old(self)@,
                k,
            )],
            r is None ==> find_group(old(self)@, k) == -1,
    {
        proof {
            lemma_remove_group(self@, k);
            lemma_find_group(self@, k);
        }
        match self.find(k) {
            Some(i) => {
                let g = self.groups.remove(i);
                assert(self@ =~= remove_group(old(self)@, k));
                Some(g)
            },
            None => None,
        }
    }

    fn put(&mut self, g: PendingGroup)
        requires
            old(self).wf(),
        ensures
            final(self)@ == put_group(old(self)@, g@),
            final(self).wf(),
    {
        proof {
            lemma_put_group(self@, g@);
        }
        let _ = self.remove(g.key());
        let ghost before = self@;
        self.groups.push(g);
        assert(self@ =~= before.push(g@));
    }

    /// Feeds one fragment: returns the whole payload once it is complete.
    fn reassemble(&mut self, t: Sentence, payload: Vec<u8>) -> (r: Result<Option<Vec<u8>>, ParseError>)
        requires
            old(self).wf(),
        ensures
            final(self).wf(),
            final(self)@ == reassemble(old(self)@, t, payload@).0,
            (match r {
                Ok(Some(p)) => Ok(Some(p@)),
                Ok(None) => Ok(None),
                Err(e) => Err(e),
            }) == reassemble(old(self)@, t, payload@).1,
    {
        let k = t.key;
        if !t.checksum_ok {
            let _ = self.remove(k);
            return Err(ParseError::CorruptedFragment);
        }
        if t.fragment_count == 1 {
            return Ok(Some(payload));
        }
        if t.fragment_number == 1 {
            self.put(PendingGroup { key: k, total: t.fragment_count, received: 1, payload });
            return Ok(None);
        }
        match self.remove(k) {
            Some(g) => {
                if g.total == t.fragment_count && g.received < 255 && g.received + 1
                    == t.fragment_number {
                    let mut joined = g.payload;
                    let mut rest = payload;
                    joined.append(&mut rest);
                    if t.fragment_number == t.fragment_count {
                        Ok(Some(joined))
                    } else {
                        proof {
                            lemma_remove_group(old(self)@, k);
                            lemma_put_group(old(self)@, (k, t.fragment_count, t.fragment_number, joined@));
                        }
                        let ng = PendingGroup {
                            key: k,
                            total: t.fragment_count,
                            received: t.fragment_number,
                            payload: joined,
                        };
                        proof {
                            lemma_find_group(self@, k);
                            lemma_remove_group(self@, k);
                        }
                        let ghost mid = self@;
                        self.groups.push(ng);
                        assert(self@ =~= mid.push(ng@));
                        assert(remove_group(mid, k) == mid);
                        Ok(None)
                    }
                } else {
                    Err(ParseError::CorruptedFragment)
                }
            },
            None => Err(ParseError::CorruptedFragment),
        }
    }

    /// Feeds one sentence, completing dates that the payload gives only in
    /// part with the year and month of `now`.
    pub fn parse_sentence(&mut self, sentence: &str, now: ClockReading) -> (r: Result<
        ParsedMessage,
        ParseError,
    >)
        requires
            old(self).wf(),
        ensures
            final(self).wf(),
            (final(self)@, r) == parse_step(old(self)@, sentence.spec_bytes(), now),
    {
        let s = sentence.as_bytes();
        match parse_sentence_fields(s) {
            Err(e) => Err(e),
            Ok(t) => {
                let payload = copy_range(s, t.payload_start, t.payload_end);
                match self.reassemble(t, payload) {
                    Err(e) => Err(e),
                    Ok(None) => Ok(ParsedMessage::Incomplete),
                    Ok(Some(p)) => decode_armored(p.as_slice(), t.fill_bits, t.station, t.own_vessel, now),
                }
            },
        }
    }
}

} // verus!
