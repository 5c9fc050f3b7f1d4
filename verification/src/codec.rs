//! Scenario C: the newline-delimited codec behind the framed echo server.
//!
//! The decoder turns a raw byte stream, delivered in arbitrary chunks, into
//! complete records: maximal runs of bytes not containing the terminator
//! `\n` (byte 10), each yielded with the terminator stripped. The encoder
//! appends the terminator. On top of the byte layer sits the record layer:
//! each record must be valid UTF-8 and is answered with `Echo: {record}`
//! through the encoder. The framing invariant is the one the decoder's
//! buffer discipline maintains: concatenating all yielded records, each
//! followed by the terminator, and then the buffered tail, reproduces every
//! byte consumed so far.

use vstd::prelude::*;
use vstd::utf8::{valid_utf8, decode_utf8, encode_utf8};

verus! {

/// The line terminator of the codec.
pub open spec fn nl() -> u8 {
    10u8
}

/// A complete record: no terminator occurs inside it.
pub open spec fn record_ok(l: Seq<u8>) -> bool {
    !l.contains(nl())
}

/// Every yielded record is terminator-free.
pub open spec fn records_ok(ls: Seq<Seq<u8>>) -> bool {
    forall|i: int| 0 <= i < ls.len() ==> record_ok(#[trigger] ls[i])
}

/// The byte stream that yields exactly the records `ls`: each record
/// followed by the terminator.
pub open spec fn joined(ls: Seq<Seq<u8>>) -> Seq<u8>
    decreases ls.len(),
{
    if ls.len() == 0 {
        Seq::empty()
    } else {
        ls[0] + seq![nl()] + joined(ls.drop_first())
    }
}

/// Index of the first terminator in `b`, or `b.len()` if there is none.
pub open spec fn first_nl(b: Seq<u8>) -> int
    decreases b.len(),
{
    if b.len() == 0 {
        0
    } else if b[0] == nl() {
        0
    } else {
        1 + first_nl(b.drop_first())
    }
}

/// What `first_nl` finds: the first terminator, if any.
pub proof fn lemma_first_nl(b: Seq<u8>)
    ensures
        0 <= first_nl(b) <= b.len(),
        b.contains(nl()) ==> first_nl(b) < b.len() && b[first_nl(b)] == nl(),
        !b.contains(nl()) ==> first_nl(b) == b.len(),
        forall|j: int| 0 <= j < first_nl(b) ==> b[j] != nl(),
    decreases b.len(),
{
    if b.len() == 0 {
    } else if b[0] == nl() {
        assert(b.contains(nl()));
    } else {
        lemma_first_nl(b.drop_first());
        if b.contains(nl()) {
            let i = choose|i: int| 0 <= i < b.len() && b[i] == nl();
            assert(b.drop_first()[i - 1] == nl());
            assert(b.drop_first().contains(nl()));
        }
        if b.drop_first().contains(nl()) {
            let i = choose|i: int| 0 <= i < b.drop_first().len() && b.drop_first()[i] == nl();
            assert(b[i + 1] == nl());
            assert(b.contains(nl()));
        }
        assert forall|j: int| 0 <= j < first_nl(b) implies b[j] != nl() by {
            if j > 0 {
                assert(b.drop_first()[j - 1] != nl());
            }
        }
    }
}

/// The complete records framed so far in a byte stream.
pub open spec fn complete_records(b: Seq<u8>) -> Seq<Seq<u8>>
    decreases b.len(),
    when true
    via complete_records_decreases
{
    if b.contains(nl()) {
        seq![b.take(first_nl(b))] + complete_records(b.skip(first_nl(b) + 1))
    } else {
        Seq::empty()
    }
}

#[via_fn]
proof fn complete_records_decreases(b: Seq<u8>) {
    lemma_first_nl(b);
}

/// The incomplete tail of a byte stream: what follows its last terminator.
pub open spec fn tail_after(b: Seq<u8>) -> Seq<u8>
    decreases b.len(),
    when true
    via tail_after_decreases
{
    if b.contains(nl()) {
        tail_after(b.skip(first_nl(b) + 1))
    } else {
        b
    }
}

#[via_fn]
proof fn tail_after_decreases(b: Seq<u8>) {
    lemma_first_nl(b);
}

/// The canonical split of a byte stream satisfies the framing invariant.
pub proof fn lemma_canonical_split(b: Seq<u8>)
    ensures
        joined(complete_records(b)) + tail_after(b) == b,
        records_ok(complete_records(b)),
        !tail_after(b).contains(nl()),
    decreases b.len(),
{
    lemma_first_nl(b);
    if b.contains(nl()) {
        let i = first_nl(b);
        let rest = b.skip(i + 1);
        lemma_canonical_split(rest);
        let ls = complete_records(b);
        assert(ls.drop_first() =~= complete_records(rest));
        assert(ls[0] == b.take(i));
        assert(b =~= b.take(i) + seq![nl()] + rest);
        assert(joined(ls) + tail_after(b) =~= b);
        assert forall|k: int| 0 <= k < ls.len() implies record_ok(#[trigger] ls[k]) by {
            if k == 0 {
                if b.take(i).contains(nl()) {
                    let j = choose|j: int| 0 <= j < b.take(i).len() && b.take(i)[j] == nl();
                    assert(b[j] == nl());
                }
            } else {
                assert(ls[k] == complete_records(rest)[k - 1]);
            }
        }
    }
}

/// The framing is a function of the bytes alone: any record/tail split that
/// satisfies the framing invariant is the canonical one.
pub proof fn lemma_split_unique(ls: Seq<Seq<u8>>, t: Seq<u8>)
    requires
        records_ok(ls),
        !t.contains(nl()),
    ensures
        complete_records(joined(ls) + t) == ls,
        tail_after(joined(ls) + t) == t,
    decreases ls.len(),
{
    let b = joined(ls) + t;
    lemma_first_nl(b);
    if ls.len() == 0 {
        assert(b =~= t);
        assert(complete_records(b) =~= ls);
    } else {
        let l0 = ls[0];
        assert(record_ok(l0));
        assert(b =~= l0 + seq![nl()] + (joined(ls.drop_first()) + t));
        // The first terminator of b is exactly at l0.len().
        assert(b[l0.len() as int] == nl());
        assert(forall|j: int| 0 <= j < l0.len() ==> b[j] == l0[j] && b[j] != nl());
        assert(b.contains(nl()));
        assert(first_nl(b) == l0.len()) by {
            if first_nl(b) < l0.len() {
                assert(b[first_nl(b)] == nl());
            } else if first_nl(b) > l0.len() {
                assert(forall|j: int| 0 <= j < first_nl(b) ==> b[j] != nl());
            }
        }
        assert(b.take(first_nl(b)) =~= l0);
        assert(b.skip(first_nl(b) + 1) =~= joined(ls.drop_first()) + t);
        lemma_split_unique(ls.drop_first(), t);
        assert(complete_records(b) =~= ls);
    }
}

/// The incremental newline-delimited decoder. `consumed` and `emitted` are
/// the ghost history of the byte stream: everything ever fed, and every
/// record ever yielded, in order.
pub struct LineDecoder {
    buf: Vec<u8>,
    consumed: Ghost<Seq<u8>>,
    emitted: Ghost<Seq<Seq<u8>>>,
}

impl LineDecoder {
    /// Bytes consumed from the transport so far.
    pub closed spec fn consumed(self) -> Seq<u8> {
        self.consumed@
    }

    /// Records yielded so far, in order, terminators stripped.
    pub closed spec fn emitted(self) -> Seq<Seq<u8>> {
        self.emitted@
    }

    /// The buffered tail: bytes after the last yielded record.
    pub closed spec fn buffered(self) -> Seq<u8> {
        self.buf@
    }

    /// The framing invariant: all yielded records, each closed by the
    /// terminator, followed by the buffered tail, reproduce the consumed
    /// byte stream; and no yielded record contains the terminator.
    pub open spec fn wf(self) -> bool {
        &&& joined(self.emitted()) + self.buffered() == self.consumed()
        &&& records_ok(self.emitted())
    }

    /// A decoder that has seen no bytes.
    pub fn new() -> (d: LineDecoder)
        ensures
            d.wf(),
            d.consumed() == Seq::<u8>::empty(),
            d.emitted() == Seq::<Seq<u8>>::empty(),
            d.buffered() == Seq::<u8>::empty(),
    {
        let d = LineDecoder {
            buf: Vec::new(),
            consumed: Ghost(Seq::empty()),
            emitted: Ghost(Seq::empty()),
        };
        proof {
            assert(joined(d.emitted()) + d.buffered() =~= d.consumed());
        }
        d
    }

    /// Consume one chunk from the transport, of any size and alignment.
    pub fn feed(&mut self, chunk: &[u8])
        requires
            old(self).buffered().len() + chunk@.len() <= usize::MAX,
        ensures
            final(self).consumed() == old(self).consumed() + chunk@,
            final(self).emitted() == old(self).emitted(),
            final(self).buffered() == old(self).buffered() + chunk@,
            old(self).wf() ==> final(self).wf(),
    {
        self.buf.extend_from_slice(chunk);
        proof {
            self.consumed@ = self.consumed@ + chunk@;
            assert(self.buf@ =~= old(self).buffered() + chunk@);
            if old(self).wf() {
                assert(joined(self.emitted()) + self.buffered() =~= self.consumed());
            }
        }
    }

    /// Yield the next complete record, if a terminator has arrived.
    pub fn poll_record(&mut self) -> (r: Option<Vec<u8>>)
        requires
            old(self).wf(),
        ensures
            final(self).wf(),
            final(self).consumed() == old(self).consumed(),
            r is Some <==> old(self).buffered().contains(nl()),
            r is None ==> *final(self) == *old(self),
            r matches Some(l) ==> {
                &&& l@ == old(self).buffered().take(first_nl(old(self).buffered()))
                &&& record_ok(l@)
                &&& final(self).buffered() == old(self).buffered().skip(
                    first_nl(old(self).buffered()) + 1,
                )
                &&& final(self).emitted() == old(self).emitted().push(l@)
            },
    {
        proof {
            lemma_first_nl(self.buf@);
        }
        match find_terminator(&self.buf) {
            None => {
                proof {
                    assert(!self.buf@.contains(nl()));
                }
                None
            },
            Some(i) => {
                proof {
                    assert(old(self).buffered()[i as int] == nl());
                    assert(old(self).buffered().contains(nl()));
                }
                let mut line = self.buf.split_off(i);
                line.remove(0);
                core::mem::swap(&mut self.buf, &mut line);
                proof {
                    self.emitted@ = self.emitted@.push(line@);
                    assert(line@ =~= old(self).buffered().take(first_nl(old(self).buffered())));
                    assert(self.buf@ =~= old(self).buffered().skip(
                        first_nl(old(self).buffered()) + 1,
                    ));
                    assert(record_ok(line@)) by {
                        if line@.contains(nl()) {
                            let j = choose|j: int| 0 <= j < line@.len() && line@[j] == nl();
                            assert(old(self).buffered()[j] == nl());
                        }
                    }
                    assert(joined(self.emitted()) + self.buffered() =~= self.consumed()) by {
                        lemma_joined_push(old(self).emitted(), line@);
                        assert(old(self).buffered() =~= line@ + seq![nl()] + self.buf@);
                    }
                }
                Some(line)
            },
        }
    }
}

/// `joined` distributes over appending one record.
proof fn lemma_joined_push(ls: Seq<Seq<u8>>, l: Seq<u8>)
    ensures
        joined(ls.push(l)) == joined(ls) + l + seq![nl()],
    decreases ls.len(),
{
    let lsp = ls.push(l);
    if ls.len() == 0 {
        assert(lsp[0] == l);
        assert(lsp.drop_first() =~= Seq::<Seq<u8>>::empty());
        assert(joined(lsp.drop_first()) == Seq::<u8>::empty());
        assert(joined(lsp) == lsp[0] + seq![nl()] + joined(lsp.drop_first()));
        assert(joined(lsp) =~= joined(ls) + l + seq![nl()]);
    } else {
        assert(lsp[0] == ls[0]);
        assert(lsp.drop_first() =~= ls.drop_first().push(l));
        lemma_joined_push(ls.drop_first(), l);
        assert(joined(lsp) =~= joined(ls) + l + seq![nl()]);
    }
}

/// Index of the first terminator in `v`, if any.
fn find_terminator(v: &Vec<u8>) -> (r: Option<usize>)
    ensures
        r matches Some(i) ==> i < v@.len() && v@[i as int] == nl() && forall|j: int|
            0 <= j < i ==> v@[j] != nl(),
        r is None ==> !v@.contains(nl()),
{
    let mut i: usize = 0;
    while i < v.len()
        invariant
            i <= v@.len(),
            forall|j: int| 0 <= j < i ==> v@[j] != nl(),
        decreases v@.len() - i,
    {
        if v[i] == 10u8 {
            return Some(i);
        }
        i = i + 1;
    }
    proof {
        if v@.contains(nl()) {
            let j = choose|j: int| 0 <= j < v@.len() && v@[j] == nl();
        }
    }
    None
}

/// Relies on `String::from_utf8`: it succeeds exactly on valid UTF-8 input
/// and returns the string whose bytes are that input.
#[verifier::external_body]
fn string_from_utf8(bytes: Vec<u8>) -> (r: Option<String>)
    ensures
        r is Some <==> valid_utf8(bytes@),
        r matches Some(s) ==> s@ == decode_utf8(bytes@),
{
    String::from_utf8(bytes).ok()
}

/// The reply of the echo handler to one decoded record.
pub open spec fn spec_echo_line(x: Seq<char>) -> Seq<char> {
    "Echo: "@ + x
}

/// Format the echo reply for one decoded record.
pub fn echo_line(line: &str) -> (r: String)
    ensures
        r@ == spec_echo_line(line@),
{
    let mut s = String::from_str("Echo: ");
    s.append(line);
    s
}

/// The bytes the server writes for one complete record, if it is valid
/// UTF-8: the encoded echo reply, closed by the terminator.
pub open spec fn spec_response(l: Seq<u8>) -> Seq<u8>
    recommends
        valid_utf8(l),
{
    encode_utf8(spec_echo_line(decode_utf8(l))) + seq![nl()]
}

/// Decode one record, and encode the echo reply. `None` is the frame decode
/// failure: the record was not valid UTF-8 and the connection must close.
pub fn respond_to_record(record: Vec<u8>) -> (r: Option<Vec<u8>>)
    ensures
        r is Some <==> valid_utf8(record@),
        r matches Some(out) ==> out@ == spec_response(record@),
{
    let ghost rec = record@;
    match string_from_utf8(record) {
        None => None,
        Some(line) => {
            let reply = echo_line(line.as_str());
            let mut out = reply.as_str().as_bytes_vec();
            out.push(10u8);
            Some(out)
        },
    }
}

/// How many leading records of `ls` are valid UTF-8.
pub open spec fn valid_prefix_len(ls: Seq<Seq<u8>>) -> int
    decreases ls.len(),
{
    if ls.len() == 0 || !valid_utf8(ls[0]) {
        0
    } else {
        1 + valid_prefix_len(ls.drop_first())
    }
}

/// What `valid_prefix_len` counts.
pub proof fn lemma_valid_prefix_len(ls: Seq<Seq<u8>>)
    ensures
        0 <= valid_prefix_len(ls) <= ls.len(),
        forall|j: int| 0 <= j < valid_prefix_len(ls) ==> valid_utf8(#[trigger] ls[j]),
        valid_prefix_len(ls) < ls.len() ==> !valid_utf8(ls[valid_prefix_len(ls)]),
    decreases ls.len(),
{
    if ls.len() == 0 || !valid_utf8(ls[0]) {
    } else {
        lemma_valid_prefix_len(ls.drop_first());
        assert forall|j: int| 0 <= j < valid_prefix_len(ls) implies valid_utf8(
            #[trigger] ls[j],
        ) by {
            if j > 0 {
                assert(valid_utf8(ls.drop_first()[j - 1]));
            }
        }
        if valid_prefix_len(ls) < ls.len() {
            assert(ls[valid_prefix_len(ls)] == ls.drop_first()[valid_prefix_len(ls) - 1]);
        }
    }
}

/// The concatenated replies to a run of records, as long as they decode.
pub open spec fn spec_responses(ls: Seq<Seq<u8>>) -> Seq<u8>
    decreases ls.len(),
{
    if ls.len() == 0 {
        Seq::empty()
    } else {
        spec_response(ls[0]) + spec_responses(ls.drop_first())
    }
}

/// `spec_responses` distributes over appending one record.
proof fn lemma_responses_push(ls: Seq<Seq<u8>>, l: Seq<u8>)
    ensures
        spec_responses(ls.push(l)) == spec_responses(ls) + spec_response(l),
    decreases ls.len(),
{
    let lsp = ls.push(l);
    if ls.len() == 0 {
        assert(lsp[0] == l);
        assert(lsp.drop_first() =~= Seq::<Seq<u8>>::empty());
        assert(spec_responses(lsp.drop_first()) == Seq::<u8>::empty());
        assert(spec_responses(lsp) =~= spec_responses(ls) + spec_response(l));
    } else {
        assert(lsp[0] == ls[0]);
        assert(lsp.drop_first() =~= ls.drop_first().push(l));
        lemma_responses_push(ls.drop_first(), l);
        assert(spec_responses(lsp) =~= spec_responses(ls) + spec_response(l));
    }
}

/// Why a framed connection left its read/reply loop.
#[derive(Clone, Copy, Debug, PartialEq, Eq, Structural)]
pub enum ConnectionEnd {
    /// The peer half-closed cleanly; close without logging.
    PeerClosed,
    /// A record failed to decode (invalid UTF-8); log and close.
    DecodeFailed,
    /// The transport failed while reading; log and close.
    ReadFailed,
    /// The transport failed while writing a reply; log and close.
    WriteFailed,
}

/// One step of the echo connection: consume one chunk, frame it, and build
/// the reply bytes for every record completed by this chunk, stopping at
/// the first record that is not valid UTF-8.
///
/// The decoder must be drained (no terminator pending in its buffer), which
/// every caller reestablishes by looping this step. The records completed
/// by this step are then exactly the complete records of the buffered tail
/// followed by the chunk.
#[verifier::rlimit(50)]
pub fn connection_step(d: &mut LineDecoder, chunk: &[u8]) -> (r: (Vec<u8>, Option<
    ConnectionEnd,
>))
    requires
        old(d).wf(),
        !old(d).buffered().contains(nl()),
        old(d).buffered().len() + chunk@.len() <= usize::MAX,
    ensures
        final(d).wf(),
        final(d).consumed() == old(d).consumed() + chunk@,
        ({
            let news = complete_records(old(d).buffered() + chunk@);
            let k = valid_prefix_len(news);
            &&& r.1 is None <==> k == news.len()
            &&& r.1 matches Some(e) ==> e == ConnectionEnd::DecodeFailed
            &&& r.0@ == spec_responses(news.take(k))
            &&& r.1 is None ==> {
                &&& final(d).emitted() == old(d).emitted() + news
                &&& final(d).buffered() == tail_after(old(d).buffered() + chunk@)
                &&& !final(d).buffered().contains(nl())
            }
        }),
{
    let ghost total = old(d).buffered() + chunk@;
    let ghost news = complete_records(total);
    d.feed(chunk);
    let mut out: Vec<u8> = Vec::new();
    let ghost mut k: int = 0;
    proof {
        lemma_canonical_split(total);
        lemma_valid_prefix_len(news);
        assert(news.take(0) =~= Seq::<Seq<u8>>::empty());
        assert(d.buffered() =~= total);
        assert(complete_records(d.buffered()) == news);
        assert(news.skip(0) =~= news);
        assert(tail_after(d.buffered()) == tail_after(total));
        assert(d.emitted() =~= old(d).emitted() + news.take(0));
        assert(out@ =~= spec_responses(news.take(0)));
    }
    loop
        invariant
            total == old(d).buffered() + chunk@,
            news == complete_records(total),
            d.wf(),
            d.consumed() == old(d).consumed() + chunk@,
            d.emitted() == old(d).emitted() + news.take(k),
            0 <= k <= news.len(),
            forall|j: int| 0 <= j < k ==> valid_utf8(#[trigger] news[j]),
            complete_records(d.buffered()) == news.skip(k),
            tail_after(d.buffered()) == tail_after(total),
            out@ == spec_responses(news.take(k)),
            records_ok(news),
        decreases news.len() - k,
    {
        let ghost pre_buf = d.buffered();
        match d.poll_record() {
            None => {
                proof {
                    assert(k == news.len()) by {
                        assert(complete_records(pre_buf) =~= Seq::<Seq<u8>>::empty());
                        assert(news.skip(k).len() == 0);
                    }
                    assert(news.take(k) =~= news);
                    assert(valid_prefix_len(news) == news.len()) by {
                        lemma_valid_prefix_len(news);
                        if valid_prefix_len(news) < news.len() {
                            assert(valid_utf8(news[valid_prefix_len(news)]));
                        }
                    }
                    assert(d.buffered() == tail_after(d.buffered()));
                }
                return (out, None);
            },
            Some(rec) => {
                proof {
                    // pre_buf framed as news.skip(k); its first record is rec.
                    assert(news.skip(k).len() > 0);
                    assert(rec@ == news.skip(k)[0]) by {
                        assert(complete_records(pre_buf) == seq![
                            pre_buf.take(first_nl(pre_buf)),
                        ] + complete_records(pre_buf.skip(first_nl(pre_buf) + 1)));
                        assert(news.skip(k)[0] == pre_buf.take(first_nl(pre_buf)));
                    }
                    assert(news.skip(k)[0] == news[k]);
                    assert(rec@ == news[k]);
                    assert(complete_records(d.buffered()) =~= news.skip(k + 1)) by {
                        assert(complete_records(pre_buf.skip(first_nl(pre_buf) + 1))
                            == complete_records(pre_buf).drop_first());
                        assert(complete_records(pre_buf).drop_first() =~= news.skip(k + 1));
                    }
                    assert(tail_after(d.buffered()) == tail_after(total)) by {
                        assert(tail_after(pre_buf) == tail_after(
                            pre_buf.skip(first_nl(pre_buf) + 1),
                        ));
                    }
                }
                match respond_to_record(rec) {
                    None => {
                        proof {
                            assert(!valid_utf8(news[k]));
                            assert(valid_prefix_len(news) == k) by {
                                lemma_valid_prefix_len(news);
                                if valid_prefix_len(news) > k {
                                    assert(valid_utf8(news[k]));
                                }
                                if valid_prefix_len(news) < k {
                                    assert(valid_utf8(news[valid_prefix_len(news)]));
                                }
                            }
                            assert(k < news.len());
                        }
                        return (out, Some(ConnectionEnd::DecodeFailed));
                    },
                    Some(resp) => {
                        out.extend_from_slice(resp.as_slice());
                        proof {
                            assert(out@ =~= spec_responses(news.take(k)) + spec_response(
                                news[k],
                            ));
                            assert(news.take(k + 1) =~= news.take(k).push(news[k]));
                            lemma_responses_push(news.take(k), news[k]);
                            assert(out@ =~= spec_responses(news.take(k + 1)));
                            assert(d.emitted() =~= old(d).emitted() + news.take(k + 1));
                            k = k + 1;
                        }
                    },
                }
            },
        }
    }
}

/// Law: the yielded records are a function of the full byte sequence alone.
/// Two decoders that consumed the same bytes — in however different chunks —
/// and have been drained agree on every yielded record and on the tail.
pub proof fn lemma_framing_independent_of_chunking(d1: LineDecoder, d2: LineDecoder)
    requires
        d1.wf(),
        d2.wf(),
        d1.consumed() == d2.consumed(),
        !d1.buffered().contains(nl()),
        !d2.buffered().contains(nl()),
    ensures
        d1.emitted() == d2.emitted(),
        d1.buffered() == d2.buffered(),
{
    lemma_split_unique(d1.emitted(), d1.buffered());
    lemma_split_unique(d2.emitted(), d2.buffered());
}

/// Law: the echo round trip. A request line `x` that is valid UTF-8 (any
/// `Seq<char>` is) and contains no terminator, sent as its encoding closed
/// by the terminator, frames as exactly one record, and the server's reply
/// bytes are exactly the encoding of `Echo: {x}` closed by the terminator.
pub proof fn lemma_echo_round_trip(x: Seq<char>)
    requires
        !x.contains('\n'),
    ensures
        complete_records(encode_utf8(x) + seq![nl()]) == seq![encode_utf8(x)],
        valid_utf8(encode_utf8(x)),
        decode_utf8(encode_utf8(x)) == x,
        spec_responses(complete_records(encode_utf8(x) + seq![nl()])) == encode_utf8(
            spec_echo_line(x),
        ) + seq![nl()],
        valid_prefix_len(complete_records(encode_utf8(x) + seq![nl()])) == 1,
{
    broadcast use vstd::utf8::encode_utf8_valid_utf8, vstd::utf8::encode_utf8_decode_utf8;

    lemma_encode_no_terminator(x);
    let e = encode_utf8(x);
    let one = seq![e];
    assert(one[0] == e);
    assert(one.drop_first() =~= Seq::<Seq<u8>>::empty());
    assert(joined(one.drop_first()) == Seq::<u8>::empty());
    assert(joined(one) =~= e + seq![nl()]);
    assert(records_ok(one));
    lemma_split_unique(one, Seq::empty());
    assert(joined(one) + Seq::<u8>::empty() =~= e + seq![nl()]);
    assert(complete_records(e + seq![nl()]) == one);
    assert(spec_responses(one.drop_first()) == Seq::<u8>::empty());
    assert(spec_responses(one) =~= spec_response(e));
    assert(valid_utf8(one[0]));
    assert(valid_prefix_len(one.drop_first()) == 0);
    assert(valid_prefix_len(one) == 1);
}

/// In UTF-8, the terminator byte appears exactly where the newline
/// character stands: a newline-free string encodes to newline-free bytes.
pub proof fn lemma_encode_no_terminator(x: Seq<char>)
    requires
        !x.contains('\n'),
    ensures
        !encode_utf8(x).contains(nl()),
    decreases x.len(),
{
    if x.len() > 0 {
        let c = x[0];
        let s = c as u32;
        vstd::utf8::char_is_scalar(c);
        assert(c != '\n');
        assert(s != 10) by {
            vstd::utf8::char_u32_cast(c, s);
            if s == 10 {
                assert((10u32 as char) == c);
                assert(('\n' as u32) == 10);
                vstd::utf8::char_u32_cast('\n', 10u32);
            }
        }
        assert(!vstd::utf8::encode_scalar(s).contains(nl())) by {
            lemma_scalar_bytes_not_terminator(s);
        }
        assert(!x.drop_first().contains('\n')) by {
            if x.drop_first().contains('\n') {
                let j = choose|j: int|
                    0 <= j < x.drop_first().len() && x.drop_first()[j] == '\n';
                assert(x[j + 1] == '\n');
            }
        }
        lemma_encode_no_terminator(x.drop_first());
        assert forall|i: int|
            0 <= i < encode_utf8(x).len() implies encode_utf8(x)[i] != nl() by {
            let es = vstd::utf8::encode_scalar(s);
            if i < es.len() {
                assert(encode_utf8(x)[i] == es[i]);
            } else {
                assert(encode_utf8(x)[i] == encode_utf8(x.drop_first())[i - es.len()]);
                assert(!encode_utf8(x.drop_first()).contains(nl()));
            }
        }
        if encode_utf8(x).contains(nl()) {
            let i = choose|i: int|
                0 <= i < encode_utf8(x).len() && encode_utf8(x)[i] == nl();
        }
    }
}

/// No byte of the UTF-8 encoding of a scalar other than the newline scalar
/// is the terminator: multi-byte encodings use only bytes at or above 0x80,
/// and a one-byte encoding is the scalar itself.
proof fn lemma_scalar_bytes_not_terminator(s: u32)
    requires
        s != 10,
    ensures
        !vstd::utf8::encode_scalar(s).contains(nl()),
{
    let es = vstd::utf8::encode_scalar(s);
    if vstd::utf8::has_width_1_encoding(s) {
        assert(((s & 0x7F) as u8) != 10u8) by (bit_vector)
            requires
                s <= 0x7F && s != 10,
        ;
        assert(es[0] != nl());
    } else {
        assert(forall|y: u8| (0x80u8 | y) != 10u8) by (bit_vector);
        assert(forall|y: u8| (0xC0u8 | y) != 10u8) by (bit_vector);
        assert(forall|y: u8| (0xE0u8 | y) != 10u8) by (bit_vector);
        assert(forall|y: u8| (0xF0u8 | y) != 10u8) by (bit_vector);
        if vstd::utf8::has_width_2_encoding(s) {
            assert(es =~= seq![
                vstd::utf8::leading_byte_width_2(s),
                vstd::utf8::last_continuation_byte(s),
            ]);
            assert(es[0] != nl() && es[1] != nl());
        } else if vstd::utf8::has_width_3_encoding(s) {
            assert(es =~= seq![
                vstd::utf8::leading_byte_width_3(s),
                vstd::utf8::second_last_continuation_byte(s),
                vstd::utf8::last_continuation_byte(s),
            ]);
            assert(es[0] != nl() && es[1] != nl() && es[2] != nl());
        } else {
            assert(es =~= seq![
                vstd::utf8::leading_byte_width_4(s),
                vstd::utf8::third_last_continuation_byte(s),
                vstd::utf8::second_last_continuation_byte(s),
                vstd::utf8::last_continuation_byte(s),
            ]);
            assert(es[0] != nl() && es[1] != nl() && es[2] != nl() && es[3] != nl());
        }
    }
    if es.contains(nl()) {
        let i = choose|i: int| 0 <= i < es.len() && es[i] == nl();
    }
}

} // verus!
