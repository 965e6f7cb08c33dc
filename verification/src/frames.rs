//! The incoming frame buffer.
//!
//! A streamed target response arrives as text in the event-stream wire
//! shape: frames separated by a blank line, each holding lines that begin
//! `data: `. Bytes may arrive split at arbitrary boundaries, so the
//! buffer keeps what is incomplete and hands out only the payloads of
//! complete frames, in order.

use vstd::prelude::*;
use crate::text::{chars_of, string_from_chars};

verus! {

/// The first position of a blank-line separator (two newlines in a row).
pub open spec fn spec_find_sep(s: Seq<char>) -> Option<int>
    decreases s.len(),
{
    if s.len() < 2 {
        None
    } else if s[0] == '\n' && s[1] == '\n' {
        Some(0)
    } else {
        match spec_find_sep(s.drop_first()) {
            Some(i) => Some(i + 1),
            None => None,
        }
    }
}

pub proof fn lemma_find_sep_spec(s: Seq<char>)
    ensures
        match spec_find_sep(s) {
            Some(i) => 0 <= i && i + 2 <= s.len() && s[i] == '\n' && s[i + 1] == '\n' && (forall|
                k: int,
            |
                0 <= k < i ==> !(#[trigger] s[k] == '\n' && s[k + 1] == '\n')),
            None => forall|k: int| 0 <= k && k + 2 <= s.len() ==> !(#[trigger] s[k] == '\n' && s[k
                + 1] == '\n'),
        },
    decreases s.len(),
{
    if s.len() < 2 {
    } else if s[0] == '\n' && s[1] == '\n' {
    } else {
        lemma_find_sep_spec(s.drop_first());
        let sub = s.drop_first();
        match spec_find_sep(s) {
            Some(i) => {
                assert(s[i] == sub[i - 1]);
                assert(s[i + 1] == sub[i]);
                assert forall|k: int|
                    0 <= k < i implies !(#[trigger] s[k] == '\n' && s[k + 1] == '\n') by {
                    if k > 0 {
                        assert(sub[k - 1] == s[k]);
                        assert(sub[k] == s[k + 1]);
                        assert(!(sub[k - 1] == '\n' && sub[k] == '\n'));
                    }
                }
            },
            None => {
                assert forall|k: int|
                    0 <= k && k + 2 <= s.len() implies !(#[trigger] s[k] == '\n' && s[k + 1]
                        == '\n') by {
                    if k > 0 {
                        assert(sub[k - 1] == s[k]);
                        assert(sub[k] == s[k + 1]);
                        assert(!(sub[k - 1] == '\n' && sub[k] == '\n'));
                    }
                }
            },
        }
    }
}

/// The first newline, if any.
pub open spec fn spec_find_nl(s: Seq<char>) -> Option<int>
    decreases s.len(),
{
    if s.len() == 0 {
        None
    } else if s[0] == '\n' {
        Some(0)
    } else {
        match spec_find_nl(s.drop_first()) {
            Some(i) => Some(i + 1),
            None => None,
        }
    }
}

pub proof fn lemma_find_nl_spec(s: Seq<char>)
    ensures
        match spec_find_nl(s) {
            Some(i) => 0 <= i < s.len() && s[i] == '\n' && (forall|k: int|
                0 <= k < i ==> s[k] != '\n'),
            None => forall|k: int| 0 <= k < s.len() ==> s[k] != '\n',
        },
    decreases s.len(),
{
    if s.len() == 0 {
    } else if s[0] == '\n' {
    } else {
        lemma_find_nl_spec(s.drop_first());
        let sub = s.drop_first();
        match spec_find_nl(s) {
            Some(i) => {
                assert(s[i] == sub[i - 1]);
                assert forall|k: int| 0 <= k < i implies #[trigger] s[k] != '\n' by {
                    if k > 0 {
                        assert(sub[k - 1] == s[k]);
                        assert(sub[k - 1] != '\n');
                    }
                }
            },
            None => {
                assert forall|k: int| 0 <= k < s.len() implies #[trigger] s[k] != '\n' by {
                    if k > 0 {
                        assert(sub[k - 1] == s[k]);
                        assert(sub[k - 1] != '\n');
                    }
                }
            },
        }
    }
}

/// A line with one trailing carriage return removed.
pub open spec fn spec_strip_cr(l: Seq<char>) -> Seq<char> {
    if l.len() > 0 && l.last() == '\r' {
        l.drop_last()
    } else {
        l
    }
}

/// The payload of one frame line: what follows `data: `, if the line
/// starts with that prefix once a trailing carriage return is removed.
pub open spec fn spec_line_payload(l: Seq<char>) -> Option<Seq<char>> {
    let t = spec_strip_cr(l);
    if t.len() >= 6 && t.take(6) == "data: "@ {
        Some(t.skip(6))
    } else {
        None
    }
}

pub open spec fn opt_payload_seq(o: Option<Seq<char>>) -> Seq<Seq<char>> {
    match o {
        Some(p) => seq![p],
        None => Seq::empty(),
    }
}

/// The payloads of one complete frame: its lines in order, each
/// contributing what follows its `data: ` prefix, other lines nothing.
pub open spec fn spec_seg_payloads(s: Seq<char>) -> Seq<Seq<char>>
    decreases s.len(),
{
    match spec_find_nl(s) {
        None => opt_payload_seq(spec_line_payload(s)),
        Some(i) => if 0 <= i && i + 1 <= s.len() {
            opt_payload_seq(spec_line_payload(s.take(i))) + spec_seg_payloads(s.skip(i + 1))
        } else {
            opt_payload_seq(spec_line_payload(s))
        },
    }
}

/// What a buffer yields: the payloads of every complete frame in order,
/// and the incomplete remainder that stays buffered.
pub open spec fn spec_extract(s: Seq<char>) -> (Seq<Seq<char>>, Seq<char>)
    decreases s.len(),
{
    match spec_find_sep(s) {
        None => (Seq::empty(), s),
        Some(i) => if 0 <= i && i + 2 <= s.len() {
            let rest = spec_extract(s.skip(i + 2));
            (spec_seg_payloads(s.take(i)) + rest.0, rest.1)
        } else {
            (Seq::empty(), s)
        },
    }
}

/// Finds the first blank-line separator, as [`spec_find_sep`] says.
fn find_sep(v: &Vec<char>) -> (r: Option<usize>)
    ensures
        match r {
            Some(i) => spec_find_sep(v@) == Some(i as int),
            None => spec_find_sep(v@) is None,
        },
{
    proof {
        lemma_find_sep_spec(v@);
    }
    if v.len() < 2 {
        return None;
    }
    for i in 0..v.len() - 1
        invariant
            v@.len() >= 2,
            forall|k: int| 0 <= k < i ==> !(#[trigger] v@[k] == '\n' && v@[k + 1] == '\n'),
    {
        if v[i] == '\n' && v[i + 1] == '\n' {
            proof {
                lemma_find_sep_spec(v@);
                if spec_find_sep(v@) is None {
                    assert(!(v@[i as int] == '\n' && v@[i + 1] == '\n'));
                }
                let j = spec_find_sep(v@)->0;
                if j < i {
                    assert(!(v@[j] == '\n' && v@[j + 1] == '\n'));
                }
                if j > i {
                    assert(!(v@[i as int] == '\n' && v@[i + 1] == '\n'));
                }
            }
            return Some(i);
        }
    }
    proof {
        lemma_find_sep_spec(v@);
        if spec_find_sep(v@) is Some {
            let j = spec_find_sep(v@)->0;
            assert(!(v@[j] == '\n' && v@[j + 1] == '\n'));
        }
    }
    None
}

/// Finds the first newline, as [`spec_find_nl`] says.
fn find_nl(v: &Vec<char>) -> (r: Option<usize>)
    ensures
        match r {
            Some(i) => spec_find_nl(v@) == Some(i as int),
            None => spec_find_nl(v@) is None,
        },
{
    for i in 0..v.len()
        invariant
            forall|k: int| 0 <= k < i ==> v@[k] != '\n',
    {
        if v[i] == '\n' {
            proof {
                lemma_find_nl_spec(v@);
                if spec_find_nl(v@) is None {
                    assert(v@[i as int] != '\n');
                }
                let j = spec_find_nl(v@)->0;
                if j < i {
                    assert(v@[j] != '\n');
                }
                if j > i {
                    assert(v@[i as int] != '\n');
                }
            }
            return Some(i);
        }
    }
    proof {
        lemma_find_nl_spec(v@);
        if spec_find_nl(v@) is Some {
            let j = spec_find_nl(v@)->0;
            assert(v@[j] != '\n');
        }
    }
    None
}

/// The payload of one line, as [`spec_line_payload`] says.
fn line_payload(line: &Vec<char>) -> (r: Option<String>)
    ensures
        match r {
            Some(p) => spec_line_payload(line@) == Some(p@),
            None => spec_line_payload(line@) is None,
        },
{
    let mut n: usize = line.len();
    if n > 0 && line[n - 1] == '\r' {
        n = n - 1;
    }
    let ghost t = spec_strip_cr(line@);
    proof {
        assert(t =~= line@.take(n as int));
    }
    if n < 6 {
        return None;
    }
    if !(line[0] == 'd' && line[1] == 'a' && line[2] == 't' && line[3] == 'a' && line[4] == ':'
        && line[5] == ' ') {
        proof {
            reveal_strlit("data: ");
            if t.take(6) == "data: "@ {
                assert(t.take(6)[0] == line@[0]);
                assert(t.take(6)[1] == line@[1]);
                assert(t.take(6)[2] == line@[2]);
                assert(t.take(6)[3] == line@[3]);
                assert(t.take(6)[4] == line@[4]);
                assert(t.take(6)[5] == line@[5]);
                assert(false);
            }
        }
        return None;
    }
    let mut out: Vec<char> = Vec::new();
    for i in 6..n
        invariant
            n <= line@.len(),
            t =~= line@.take(n as int),
            n >= 6,
            6 <= i <= n,
            out@ =~= t.skip(6).take(i - 6),
    {
        out.push(line[i]);
        proof {
            assert(out@ =~= t.skip(6).take(i + 1 - 6));
        }
    }
    proof {
        reveal_strlit("data: ");
        assert(t.take(6)[0] == line@[0]);
        assert(t.take(6)[1] == line@[1]);
        assert(t.take(6)[2] == line@[2]);
        assert(t.take(6)[3] == line@[3]);
        assert(t.take(6)[4] == line@[4]);
        assert(t.take(6)[5] == line@[5]);
        assert(t.take(6) =~= "data: "@);
        assert(out@ =~= t.skip(6));
    }
    Some(string_from_chars(&out))
}

/// Appends the payloads of one complete frame, as
/// [`spec_seg_payloads`] says.
fn seg_payloads(seg: Vec<char>, out: &mut Vec<String>)
    ensures
        final(out)@.map_values(|p: String| p@) == old(out)@.map_values(|p: String| p@)
            + spec_seg_payloads(seg@),
{
    let ghost s0 = seg@;
    let mut rest = seg;
    proof {
        assert(old(out)@.map_values(|p: String| p@) + spec_seg_payloads(rest@) =~= old(
            out,
        )@.map_values(|p: String| p@) + spec_seg_payloads(s0));
    }
    loop
        invariant
            s0 == seg@,
            out@.map_values(|p: String| p@) + spec_seg_payloads(rest@) =~= old(
                out,
            )@.map_values(|p: String| p@) + spec_seg_payloads(s0),
        decreases rest@.len(),
    {
        let ghost rv = rest@;
        match find_nl(&rest) {
            None => {
                let ghost ov = out@.map_values(|p: String| p@);
                match line_payload(&rest) {
                    Some(p) => {
                        out.push(p);
                        proof {
                            assert(out@.map_values(|p: String| p@) =~= ov.push(p@));
                            assert(spec_seg_payloads(rv) =~= seq![p@]);
                            assert(out@.map_values(|p: String| p@) =~= ov + spec_seg_payloads(
                                rv,
                            ));
                        }
                    },
                    None => {
                        proof {
                            assert(spec_seg_payloads(rv) =~= Seq::<Seq<char>>::empty());
                            assert(out@.map_values(|p: String| p@) =~= ov + spec_seg_payloads(
                                rv,
                            ));
                        }
                    },
                }
                proof {
                    assert(out@.map_values(|p: String| p@) =~= old(out)@.map_values(
                        |p: String| p@,
                    ) + spec_seg_payloads(s0));
                }
                return ;
            },
            Some(i) => {
                let rlen: usize = rest.len();
                proof {
                    lemma_find_nl_spec(rv);
                    assert(i < rv.len());
                    assert(rlen == rv.len());
                    assert(i < rlen);
                }
                let mut line: Vec<char> = Vec::new();
                let mut k: usize = 0;
                while k < i
                    invariant
                        k <= i,
                        i < rest@.len(),
                        rest@ == rv,
                        line@ =~= rv.take(i as int).take(k as int),
                    decreases i - k,
                {
                    line.push(rest[k]);
                    k = k + 1;
                    proof {
                        assert(line@ =~= rv.take(i as int).take(k as int));
                    }
                }
                proof {
                    assert(line@ =~= rv.take(i as int));
                }
                proof {
                    assert(i + 1 <= rest@.len());
                }
                let mut tail: Vec<char> = Vec::new();
                let mut k2: usize = i + 1;
                while k2 < rest.len()
                    invariant
                        i + 1 <= k2 <= rest@.len(),
                        rest@ == rv,
                        line@ =~= rv.take(i as int),
                        tail@ =~= rv.skip(i + 1).take(k2 - i - 1),
                    decreases rest@.len() - k2,
                {
                    tail.push(rest[k2]);
                    k2 = k2 + 1;
                    proof {
                        assert(tail@ =~= rv.skip(i + 1).take(k2 - i - 1));
                    }
                }
                proof {
                    assert(tail@ =~= rv.skip(i + 1));
                }
                let ghost ov = out@.map_values(|p: String| p@);
                match line_payload(&line) {
                    Some(p) => {
                        out.push(p);
                        proof {
                            assert(out@.map_values(|p: String| p@) =~= ov.push(p@));
                            assert(spec_seg_payloads(rv) =~= seq![p@] + spec_seg_payloads(
                                rv.skip(i + 1),
                            ));
                            assert(out@.map_values(|p: String| p@) + spec_seg_payloads(tail@)
                                =~= ov + spec_seg_payloads(rv));
                        }
                    },
                    None => {
                        proof {
                            assert(spec_seg_payloads(rv) =~= spec_seg_payloads(rv.skip(i + 1)));
                        }
                    },
                }
                rest = tail;
            },
        }
    }
}

/// Buffers incoming stream text and hands out the payloads of complete
/// frames.
pub struct FrameBuffer {
    buf: Vec<char>,
}

impl View for FrameBuffer {
    type V = Seq<char>;

    closed spec fn view(&self) -> Seq<char> {
        self.buf@
    }
}

impl FrameBuffer {
    /// An empty buffer.
    pub fn new() -> (r: FrameBuffer)
        ensures
            r@ == Seq::<char>::empty(),
    {
        FrameBuffer { buf: Vec::new() }
    }

    /// Feeds newly arrived text and returns the payloads of every frame
    /// it completes, in order, as [`spec_extract`] says of the buffered
    /// text followed by the new text; the incomplete remainder stays
    /// buffered.
    pub fn push_text(&mut self, text: &str) -> (r: Vec<String>)
        ensures
            final(self)@ == spec_extract(old(self)@ + text@).1,
            r@.map_values(|p: String| p@) == spec_extract(old(self)@ + text@).0,
    {
        let ghost s0 = old(self)@ + text@;
        let mut tc = chars_of(text);
        self.buf.append(&mut tc);
        proof {
            assert(self.buf@ =~= s0);
        }
        let mut out: Vec<String> = Vec::new();
        proof {
            assert(out@.map_values(|p: String| p@) + spec_extract(self.buf@).0 =~= spec_extract(
                s0,
            ).0);
            assert(spec_extract(self.buf@).1 == spec_extract(s0).1);
        }
        loop
            invariant
                s0 == old(self)@ + text@,
                out@.map_values(|p: String| p@) + spec_extract(self.buf@).0 =~= spec_extract(
                    s0,
                ).0,
                spec_extract(self.buf@).1 == spec_extract(s0).1,
            decreases self.buf@.len(),
        {
            let ghost bv = self.buf@;
            match find_sep(&self.buf) {
                None => {
                    proof {
                        assert(spec_extract(bv).0 =~= Seq::<Seq<char>>::empty());
                        assert(out@.map_values(|p: String| p@) =~= spec_extract(s0).0);
                        assert(spec_extract(bv).1 == bv);
                        assert(self@ == spec_extract(s0).1);
                    }
                    return out;
                },
                Some(i) => {
                    let blen: usize = self.buf.len();
                    proof {
                        lemma_find_sep_spec(bv);
                        assert(blen == bv.len());
                        assert(i + 2 <= blen);
                    }
                    let mut seg: Vec<char> = Vec::new();
                    let mut k: usize = 0;
                    while k < i
                        invariant
                            k <= i,
                            i + 2 <= self.buf@.len(),
                            self.buf@ == bv,
                            seg@ =~= bv.take(i as int).take(k as int),
                        decreases i - k,
                    {
                        seg.push(self.buf[k]);
                        k = k + 1;
                        proof {
                            assert(seg@ =~= bv.take(i as int).take(k as int));
                        }
                    }
                    proof {
                        assert(seg@ =~= bv.take(i as int));
                    }
                    let mut tail: Vec<char> = Vec::new();
                    let mut k2: usize = i + 2;
                    while k2 < self.buf.len()
                        invariant
                            i + 2 <= k2 <= self.buf@.len(),
                            self.buf@ == bv,
                            tail@ =~= bv.skip(i + 2).take(k2 - i - 2),
                        decreases self.buf@.len() - k2,
                    {
                        tail.push(self.buf[k2]);
                        k2 = k2 + 1;
                        proof {
                            assert(tail@ =~= bv.skip(i + 2).take(k2 - i - 2));
                        }
                    }
                    proof {
                        assert(tail@ =~= bv.skip(i + 2));
                    }
                    let ghost ov = out@.map_values(|p: String| p@);
                    seg_payloads(seg, &mut out);
                    self.buf = tail;
                    proof {
                        assert(out@.map_values(|p: String| p@) =~= ov + spec_seg_payloads(
                            bv.take(i as int),
                        ));
                        assert(spec_extract(bv).0 =~= spec_seg_payloads(bv.take(i as int))
                            + spec_extract(bv.skip(i + 2)).0);
                        assert(out@.map_values(|p: String| p@) + spec_extract(self.buf@).0
                            =~= spec_extract(s0).0);
                    }
                },
            }
        }
    }
}

/// Whether a trimmed payload is the terminal sentinel `[DONE]`.
pub open spec fn spec_is_ws(c: char) -> bool {
    c == ' ' || c == '\t' || c == '\r' || c == '\n'
}

/// A payload with ASCII whitespace removed at both ends.
pub open spec fn spec_trim(s: Seq<char>) -> Seq<char>
    decreases s.len(),
{
    if s.len() > 0 && spec_is_ws(s[0]) {
        spec_trim(s.drop_first())
    } else if s.len() > 0 && spec_is_ws(s.last()) {
        spec_trim(s.drop_last())
    } else {
        s
    }
}

fn is_ws(c: char) -> (r: bool)
    ensures
        r == spec_is_ws(c),
{
    c == ' ' || c == '\t' || c == '\r' || c == '\n'
}

/// Whether a payload, once trimmed of surrounding whitespace, is the
/// literal terminal sentinel `[DONE]`.
pub fn payload_is_done(p: &str) -> (r: bool)
    ensures
        r == (spec_trim(p@) == "[DONE]"@),
{
    let cs = chars_of(p);
    let mut lo: usize = 0;
    let mut hi: usize = cs.len();
    proof {
        assert(cs@.subrange(0, cs@.len() as int) =~= cs@);
    }
    loop
        invariant
            cs@ == p@,
            0 <= lo <= hi <= cs@.len(),
            spec_trim(p@) == spec_trim(cs@.subrange(lo as int, hi as int)),
        decreases hi - lo,
    {
        if lo < hi && is_ws(cs[lo]) {
            proof {
                assert(cs@.subrange(lo as int, hi as int).drop_first() =~= cs@.subrange(
                    lo + 1,
                    hi as int,
                ));
            }
            lo = lo + 1;
        } else if lo < hi && is_ws(cs[hi - 1]) {
            proof {
                assert(cs@.subrange(lo as int, hi as int).drop_last() =~= cs@.subrange(
                    lo as int,
                    hi - 1,
                ));
            }
            hi = hi - 1;
        } else {
            let ghost t = cs@.subrange(lo as int, hi as int);
            proof {
                if t.len() > 0 {
                    assert(t[0] == cs@[lo as int]);
                    assert(t.last() == cs@[hi - 1]);
                }
                assert(spec_trim(t) == t);
                reveal_strlit("[DONE]");
            }
            if hi - lo != 6 {
                proof {
                    assert(t.len() != 6);
                    assert(t != "[DONE]"@);
                }
                return false;
            }
            let r = cs[lo] == '[' && cs[lo + 1] == 'D' && cs[lo + 2] == 'O' && cs[lo + 3] == 'N'
                && cs[lo + 4] == 'E' && cs[lo + 5] == ']';
            proof {
                assert(t[0] == cs@[lo as int]);
                assert(t[1] == cs@[lo + 1]);
                assert(t[2] == cs@[lo + 2]);
                assert(t[3] == cs@[lo + 3]);
                assert(t[4] == cs@[lo + 4]);
                assert(t[5] == cs@[lo + 5]);
                if r {
                    assert(t =~= "[DONE]"@);
                } else {
                    if t == "[DONE]"@ {
                        assert(false);
                    }
                }
            }
            return r;
        }
    }
}

} // verus!
