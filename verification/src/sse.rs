//! Incremental Server-Sent-Events framing.
//!
//! The framer consumes raw byte chunks at arbitrary boundaries and yields
//! one payload string per complete line. Bytes after the last newline stay
//! buffered until a later chunk or the end of the stream completes them, so
//! a line split across network reads is reassembled exactly. Line parsing
//! strips a `data: ` or `data:` prefix, discards blank lines, and hands
//! everything else through trimmed; the `[DONE]` sentinel therefore passes
//! verbatim.

use vstd::prelude::*;

use crate::json::{bytes_to_string_lossy, lossy_utf8};
use crate::text::{starts_with_spec, str_starts_with, str_trim, trim_spec};

verus! {

/// The newline byte that terminates a line.
pub open spec fn lf() -> u8 {
    10u8
}

/// The bytes after the last newline of `s`: the still-incomplete line.
pub open spec fn tail_line(s: Seq<u8>) -> Seq<u8>
    decreases s.len(),
{
    if s.len() == 0 {
        Seq::empty()
    } else if s.last() == lf() {
        Seq::empty()
    } else {
        tail_line(s.drop_last()).push(s.last())
    }
}

/// The complete lines of `s`: every maximal run of bytes ended by a
/// newline, without the newline itself.
pub open spec fn complete_lines(s: Seq<u8>) -> Seq<Seq<u8>>
    decreases s.len(),
{
    if s.len() == 0 {
        Seq::empty()
    } else if s.last() == lf() {
        complete_lines(s.drop_last()).push(tail_line(s.drop_last()))
    } else {
        complete_lines(s.drop_last())
    }
}

/// The payload a single line yields: `None` for a blank line, otherwise the
/// trimmed text with a leading `data: ` or `data:` prefix removed.
pub open spec fn parse_line_spec(line: Seq<char>) -> Option<Seq<char>> {
    let t = trim_spec(line);
    if t.len() == 0 {
        None
    } else if starts_with_spec(t, "data: "@) {
        Some(t.skip("data: "@.len() as int))
    } else if starts_with_spec(t, "data:"@) {
        Some(t.skip("data:"@.len() as int))
    } else {
        Some(t)
    }
}

/// The payload of a raw line: its bytes decoded lossily, then parsed.
pub open spec fn line_payload(line: Seq<u8>) -> Option<Seq<char>> {
    parse_line_spec(lossy_utf8(line))
}

/// The payloads of a sequence of lines, blank lines dropped.
pub open spec fn events_of_lines(lines: Seq<Seq<u8>>) -> Seq<Seq<char>>
    decreases lines.len(),
{
    if lines.len() == 0 {
        Seq::empty()
    } else {
        events_of_lines(lines.drop_last()) + match line_payload(lines.last()) {
            Some(p) => seq![p],
            None => Seq::empty(),
        }
    }
}

/// What flushing a final buffer yields: nothing when it is empty, else the
/// payload of the buffered text taken as one last line.
pub open spec fn final_events(rest: Seq<u8>) -> Seq<Seq<char>> {
    if rest.len() == 0 {
        Seq::empty()
    } else {
        match line_payload(rest) {
            Some(p) => seq![p],
            None => Seq::empty(),
        }
    }
}

/// Every payload the whole stream `s` yields, including the flush of the
/// bytes after the last newline.
pub open spec fn framer_events(s: Seq<u8>) -> Seq<Seq<char>> {
    events_of_lines(complete_lines(s)) + final_events(tail_line(s))
}

/// A byte sequence without newlines frames as a single pending line.
pub open spec fn no_lf(s: Seq<u8>) -> bool {
    forall|i: int| 0 <= i < s.len() ==> s[i] != lf()
}

pub proof fn lemma_tail_line_no_lf(s: Seq<u8>)
    ensures
        no_lf(tail_line(s)),
    decreases s.len(),
{
    if s.len() > 0 && s.last() != lf() {
        lemma_tail_line_no_lf(s.drop_last());
        let t = tail_line(s.drop_last());
        assert(forall|i: int|
            0 <= i < t.push(s.last()).len() ==> t.push(s.last())[i] == if i < t.len() {
                t[i]
            } else {
                s.last()
            });
    }
}

pub proof fn lemma_no_lf_identity(s: Seq<u8>)
    requires
        no_lf(s),
    ensures
        tail_line(s) =~= s,
        complete_lines(s) =~= Seq::<Seq<u8>>::empty(),
    decreases s.len(),
{
    if s.len() > 0 {
        assert(s.last() != lf());
        lemma_no_lf_identity(s.drop_last());
        assert(tail_line(s) =~= s.drop_last().push(s.last()));
        assert(s.drop_last().push(s.last()) =~= s);
    }
}

/// Processing a prefix first and its remainder later frames the same lines
/// as processing the whole stream at once.
pub proof fn lemma_lines_split(s: Seq<u8>, t: Seq<u8>)
    ensures
        complete_lines(s + t) =~= complete_lines(s) + complete_lines(tail_line(s) + t),
        tail_line(s + t) =~= tail_line(tail_line(s) + t),
    decreases t.len(),
{
    if t.len() == 0 {
        assert(s + t =~= s);
        lemma_tail_line_no_lf(s);
        lemma_no_lf_identity(tail_line(s));
        assert(tail_line(s) + t =~= tail_line(s));
    } else {
        let t0 = t.drop_last();
        let c = t.last();
        lemma_lines_split(s, t0);
        assert((s + t).drop_last() =~= s + t0);
        assert((s + t).last() == c);
        assert((tail_line(s) + t).drop_last() =~= tail_line(s) + t0);
        assert((tail_line(s) + t).last() == c);
        if c == lf() {
            assert(complete_lines(s + t) =~= complete_lines(s + t0).push(tail_line(s + t0)));
            assert(complete_lines(tail_line(s) + t) =~= complete_lines(tail_line(s) + t0).push(
                tail_line(tail_line(s) + t0),
            ));
        }
    }
}

pub proof fn lemma_events_of_lines_append(a: Seq<Seq<u8>>, b: Seq<Seq<u8>>)
    ensures
        events_of_lines(a + b) =~= events_of_lines(a) + events_of_lines(b),
    decreases b.len(),
{
    if b.len() == 0 {
        assert(a + b =~= a);
    } else {
        lemma_events_of_lines_append(a, b.drop_last());
        assert((a + b).drop_last() =~= a + b.drop_last());
        assert((a + b).last() == b.last());
    }
}

/// The byte stream a sequence of chunks concatenates to.
pub open spec fn concat_chunks(cs: Seq<Seq<u8>>) -> Seq<u8>
    decreases cs.len(),
{
    if cs.len() == 0 {
        Seq::empty()
    } else {
        concat_chunks(cs.drop_last()) + cs.last()
    }
}

/// The payloads emitted by a framer that starts with `buf` pending, is fed
/// the chunks of `cs` one by one, and is then flushed.
pub open spec fn run_events(buf: Seq<u8>, cs: Seq<Seq<u8>>) -> Seq<Seq<char>>
    decreases cs.len(),
{
    if cs.len() == 0 {
        final_events(buf)
    } else {
        events_of_lines(complete_lines(buf + cs[0])) + run_events(
            tail_line(buf + cs[0]),
            cs.skip(1),
        )
    }
}

proof fn lemma_run_events(buf: Seq<u8>, cs: Seq<Seq<u8>>)
    requires
        no_lf(buf),
    ensures
        run_events(buf, cs) =~= framer_events(buf + concat_chunks(cs)),
    decreases cs.len(),
{
    if cs.len() == 0 {
        lemma_no_lf_identity(buf);
        assert(buf + concat_chunks(cs) =~= buf);
        assert(events_of_lines(complete_lines(buf)) =~= Seq::<Seq<char>>::empty());
    } else {
        let s = buf + cs[0];
        let rest = cs.skip(1);
        lemma_tail_line_no_lf(s);
        lemma_run_events(tail_line(s), rest);
        // concat(cs) == cs[0] + concat(rest)
        lemma_concat_chunks_skip(cs);
        let t = concat_chunks(rest);
        lemma_lines_split(s, t);
        lemma_events_of_lines_append(complete_lines(s), complete_lines(tail_line(s) + t));
        assert(buf + concat_chunks(cs) =~= s + t);
        assert(framer_events(s + t) =~= events_of_lines(complete_lines(s)) + framer_events(
            tail_line(s) + t,
        ));
    }
}

proof fn lemma_concat_chunks_skip(cs: Seq<Seq<u8>>)
    requires
        cs.len() > 0,
    ensures
        concat_chunks(cs) =~= cs[0] + concat_chunks(cs.skip(1)),
    decreases cs.len(),
{
    if cs.len() == 1 {
        assert(cs.drop_last().len() == 0);
        assert(concat_chunks(cs.drop_last()) =~= Seq::<u8>::empty());
        assert(cs.last() == cs[0]);
        assert(Seq::<u8>::empty() + cs[0] =~= cs[0]);
        assert(cs.skip(1).len() == 0);
        assert(concat_chunks(cs.skip(1)) =~= Seq::<u8>::empty());
        assert(cs[0] + Seq::<u8>::empty() =~= cs[0]);
    } else {
        lemma_concat_chunks_skip(cs.drop_last());
        assert(cs.drop_last()[0] == cs[0]);
        assert(cs.skip(1).drop_last() =~= cs.drop_last().skip(1));
        assert(concat_chunks(cs) =~= concat_chunks(cs.drop_last()) + cs.last());
        assert(cs.skip(1).last() == cs.last());
    }
}

/// Chunk-boundary invariance: however a byte stream is cut into chunks,
/// feeding them one by one and flushing yields exactly the payloads of the
/// whole stream fed as one piece.
pub proof fn lemma_chunk_boundary_invariance(cs: Seq<Seq<u8>>)
    ensures
        run_events(Seq::empty(), cs) == framer_events(concat_chunks(cs)),
{
    lemma_run_events(Seq::empty(), cs);
    assert(Seq::empty() + concat_chunks(cs) =~= concat_chunks(cs));
}

/// A trimmed `data: [DONE]` line, in either prefix form, always yields the
/// sentinel payload `[DONE]` verbatim.
pub proof fn lemma_done_sentinel_verbatim(line: Seq<char>)
    requires
        trim_spec(line) == "data: [DONE]"@ || trim_spec(line) == "data:[DONE]"@,
    ensures
        parse_line_spec(line) == Some("[DONE]"@),
{
    reveal_strlit("data: [DONE]");
    reveal_strlit("data:[DONE]");
    reveal_strlit("data: ");
    reveal_strlit("data:");
    reveal_strlit("[DONE]");
    let t = trim_spec(line);
    if t == "data: [DONE]"@ {
        assert(t.len() == 12);
        assert(t.subrange(0, 6) =~= "data: "@);
        assert(starts_with_spec(t, "data: "@));
        assert(t.skip(6) =~= "[DONE]"@);
    } else {
        assert(t.len() == 11);
        assert(t.subrange(0, 6)[5] == '[');
        assert("data: "@[5] == ' ');
        assert(t.subrange(0, 6) != "data: "@);
        assert(!starts_with_spec(t, "data: "@));
        assert(t.subrange(0, 5) =~= "data:"@);
        assert(starts_with_spec(t, "data:"@));
        assert(t.skip(5) =~= "[DONE]"@);
    }
}

/// One `data:`-style line parsed to its payload: blank lines yield nothing;
/// a `data: ` or `data:` prefix is stripped from the trimmed text.
pub fn parse_sse_line(line: &str) -> (r: Option<String>)
    ensures
        match r {
            Some(p) => parse_line_spec(line@) == Some(p@),
            None => parse_line_spec(line@) is None,
        },
{
    let t = str_trim(line);
    let tlen = t.as_str().unicode_len();
    if tlen == 0 {
        return None;
    }
    if str_starts_with(t.as_str(), "data: ") {
        let plen = "data: ".unicode_len();
        let rest = t.as_str().substring_char(plen, tlen);
        proof {
            assert(rest@ =~= t@.skip("data: "@.len() as int));
        }
        return Some(rest.to_owned());
    }
    if str_starts_with(t.as_str(), "data:") {
        let plen = "data:".unicode_len();
        let rest = t.as_str().substring_char(plen, tlen);
        proof {
            assert(rest@ =~= t@.skip("data:"@.len() as int));
        }
        return Some(rest.to_owned());
    }
    Some(t)
}

/// The incremental framer: a buffer of the bytes after the last newline
/// seen so far.
pub struct SseFramer {
    buf: Vec<u8>,
}

impl View for SseFramer {
    type V = Seq<u8>;

    closed spec fn view(&self) -> Seq<u8> {
        self.buf@
    }
}

impl SseFramer {
    /// A framer with nothing pending.
    pub fn new() -> (r: SseFramer)
        ensures
            r@ == Seq::<u8>::empty(),
    {
        SseFramer { buf: Vec::new() }
    }

    /// Feed one chunk: every line the chunk completes is parsed and its
    /// payload emitted in order; the bytes after the last newline replace
    /// the pending buffer. The pending buffer never holds a newline, which
    /// [`SseFramer::new`] and the ensures here maintain.
    #[verifier::loop_isolation(false)]
    pub fn push_chunk(&mut self, chunk: &[u8]) -> (events: Vec<String>)
        requires
            no_lf(old(self)@),
        ensures
            final(self)@ == tail_line(old(self)@ + chunk@),
            no_lf(final(self)@),
            events.deep_view() == events_of_lines(complete_lines(old(self)@ + chunk@)),
    {
        let ghost s0 = self.buf@;
        let mut events: Vec<String> = Vec::new();
        proof {
            assert(s0 + chunk@.take(0) =~= s0);
            lemma_no_lf_identity(s0);
            assert(events.deep_view() =~= Seq::<Seq<char>>::empty());
        }
        let mut i: usize = 0;
        while i < chunk.len()
            invariant
                i <= chunk@.len(),
                self.buf@ == tail_line(s0 + chunk@.take(i as int)),
                events.deep_view() == events_of_lines(complete_lines(s0 + chunk@.take(i as int))),
            decreases chunk@.len() - i,
        {
            let ghost pre = s0 + chunk@.take(i as int);
            let ghost cur = s0 + chunk@.take(i + 1);
            proof {
                assert(cur =~= pre.push(chunk@[i as int]));
                assert(cur.drop_last() =~= pre);
                assert(cur.last() == chunk@[i as int]);
            }
            let c = chunk[i];
            if c == 10 {
                proof {
                    assert(complete_lines(cur) =~= complete_lines(pre).push(tail_line(pre)));
                    assert(tail_line(cur) =~= Seq::<u8>::empty());
                    assert(complete_lines(cur).drop_last() =~= complete_lines(pre));
                    assert(complete_lines(cur).last() == tail_line(pre));
                }
                let ghost ev0 = events.deep_view();
                let payload = parse_line_bytes(&self.buf);
                match payload {
                    Some(p) => {
                        events.push(p);
                        proof {
                            assert(events.deep_view() =~= ev0.push(p@));
                            assert(events.deep_view() =~= events_of_lines(complete_lines(cur)));
                        }
                    },
                    None => {
                        proof {
                            assert(events.deep_view() =~= events_of_lines(complete_lines(cur)));
                        }
                    },
                }
                self.buf.clear();
            } else {
                self.buf.push(c);
                proof {
                    assert(complete_lines(cur) =~= complete_lines(pre));
                    assert(tail_line(cur) =~= tail_line(pre).push(chunk@[i as int]));
                }
            }
            i += 1;
        }
        proof {
            assert(s0 + chunk@.take(chunk@.len() as int) =~= s0 + chunk@);
            lemma_tail_line_no_lf(s0 + chunk@);
        }
        events
    }

    /// End of stream: the pending buffer, if any, is parsed as one final
    /// line and the framer is left empty.
    pub fn finish(&mut self) -> (events: Vec<String>)
        ensures
            final(self)@ == Seq::<u8>::empty(),
            events.deep_view() == final_events(old(self)@),
    {
        let mut events: Vec<String> = Vec::new();
        if self.buf.len() > 0 {
            let payload = parse_line_bytes(&self.buf);
            match payload {
                Some(p) => {
                    events.push(p);
                    proof {
                        assert(events.deep_view() =~= final_events(self.buf@));
                    }
                },
                None => {
                    proof {
                        assert(events.deep_view() =~= final_events(self.buf@));
                    }
                },
            }
        }
        self.buf.clear();
        events
    }
}

/// A raw line decoded lossily and parsed.
fn parse_line_bytes(line: &Vec<u8>) -> (r: Option<String>)
    ensures
        match r {
            Some(p) => line_payload(line@) == Some(p@),
            None => line_payload(line@) is None,
        },
{
    let text = bytes_to_string_lossy(line.as_slice());
    parse_sse_line(text.as_str())
}

/// A line with one trailing carriage return removed, as `str::lines` does.
pub open spec fn strip_cr(line: Seq<u8>) -> Seq<u8> {
    if line.len() > 0 && line.last() == 13u8 {
        line.drop_last()
    } else {
        line
    }
}

/// Every line of a buffered body: the complete lines with their carriage
/// returns stripped, and the trailing segment if the body does not end in a
/// newline.
pub open spec fn body_lines(s: Seq<u8>) -> Seq<Seq<u8>> {
    complete_lines(s).map_values(|l: Seq<u8>| strip_cr(l)) + if tail_line(s).len() > 0 {
        seq![tail_line(s)]
    } else {
        Seq::empty()
    }
}

/// Split a buffered body into its lines.
#[verifier::loop_isolation(false)]
pub fn split_body_lines(body: &[u8]) -> (r: Vec<Vec<u8>>)
    ensures
        r.deep_view() == body_lines(body@),
{
    let mut lines: Vec<Vec<u8>> = Vec::new();
    let mut cur: Vec<u8> = Vec::new();
    let mut i: usize = 0;
    proof {
        assert(body@.take(0) =~= Seq::<u8>::empty());
        assert(lines.deep_view() =~~= complete_lines(body@.take(0)).map_values(
            |l: Seq<u8>| strip_cr(l),
        ));
    }
    while i < body.len()
        invariant
            i <= body@.len(),
            cur@ == tail_line(body@.take(i as int)),
            lines.deep_view() == complete_lines(body@.take(i as int)).map_values(
                |l: Seq<u8>| strip_cr(l),
            ),
        decreases body@.len() - i,
    {
        let ghost pre = body@.take(i as int);
        let ghost cur_pre = cur@;
        proof {
            assert(body@.take(i + 1) =~= pre.push(body@[i as int]));
            assert(pre.push(body@[i as int]).drop_last() =~= pre);
        }
        let c = body[i];
        if c == 10 {
            if cur.len() > 0 && cur[cur.len() - 1] == 13 {
                let _ = cur.pop();
            }
            proof {
                assert(cur@ =~= strip_cr(cur_pre));
            }
            let ghost lines_pre = lines.deep_view();
            lines.push(cur);
            cur = Vec::new();
            proof {
                assert(lines.deep_view() =~~= lines_pre.push(strip_cr(cur_pre)));
                assert(complete_lines(body@.take(i + 1)) =~= complete_lines(pre).push(
                    tail_line(pre),
                ));
                assert(complete_lines(pre).push(tail_line(pre)).map_values(
                    |l: Seq<u8>| strip_cr(l),
                ) =~= complete_lines(pre).map_values(|l: Seq<u8>| strip_cr(l)).push(
                    strip_cr(tail_line(pre)),
                ));
                assert(tail_line(body@.take(i + 1)) =~= Seq::<u8>::empty());
            }
        } else {
            cur.push(c);
            proof {
                assert(complete_lines(body@.take(i + 1)) =~= complete_lines(pre));
                assert(tail_line(body@.take(i + 1)) =~= tail_line(pre).push(body@[i as int]));
            }
        }
        i += 1;
    }
    proof {
        assert(body@.take(body@.len() as int) =~= body@);
    }
    if cur.len() > 0 {
        let ghost lines_pre = lines.deep_view();
        lines.push(cur);
        proof {
            assert(lines.deep_view() =~~= lines_pre.push(tail_line(body@)));
            assert(lines.deep_view() =~~= body_lines(body@));
        }
    } else {
        proof {
            assert(lines.deep_view() =~~= body_lines(body@));
        }
    }
    lines
}

/// Lines joined by a blank separator, as a re-emitted SSE body is.
pub open spec fn join_lines(ls: Seq<Seq<char>>) -> Seq<char>
    decreases ls.len(),
{
    if ls.len() == 0 {
        Seq::empty()
    } else if ls.len() == 1 {
        ls[0]
    } else {
        join_lines(ls.drop_last()) + "\n\n"@ + ls.last()
    }
}

} // verus!
