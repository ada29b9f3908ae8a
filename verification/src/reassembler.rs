//! Byte-to-line reassembler.
//!
//! A `LineBuffer` accumulates decoded text across partial reads and yields
//! every completed line: text up to a line feed, surrounding whitespace
//! trimmed, empty lines dropped. The trailing unterminated text stays
//! buffered for the next feed.

use vstd::prelude::*;
use crate::parser::{chars_to_string, str_to_chars};

verus! {

/// The whitespace characters stripped from the ends of a completed line.
pub open spec fn is_space(c: char) -> bool {
    c == ' ' || c == '\t' || c == '\r' || c == '\n' || c == '\u{b}' || c == '\u{c}'
}

fn space_exec(c: char) -> (r: bool)
    ensures
        r == is_space(c),
{
    c == ' ' || c == '\t' || c == '\r' || c == '\n' || c == '\u{b}' || c == '\u{c}'
}

pub open spec fn trim_front(s: Seq<char>) -> Seq<char>
    decreases s.len(),
{
    if s.len() > 0 && is_space(s[0]) {
        trim_front(s.drop_first())
    } else {
        s
    }
}

pub open spec fn trim_back(s: Seq<char>) -> Seq<char>
    decreases s.len(),
{
    if s.len() > 0 && is_space(s.last()) {
        trim_back(s.drop_last())
    } else {
        s
    }
}

/// `s` with leading and trailing whitespace removed.
pub open spec fn trim_spec(s: Seq<char>) -> Seq<char> {
    trim_back(trim_front(s))
}

/// The lines emitted when the text `s` arrives while `b` is already
/// buffered: each line feed completes the text gathered so far, which is
/// emitted after trimming unless it trims to nothing.
pub open spec fn emitted(b: Seq<char>, s: Seq<char>) -> Seq<Seq<char>>
    decreases s.len(),
{
    if s.len() == 0 {
        Seq::empty()
    } else if s[0] == '\n' {
        let t = trim_spec(b);
        (if t.len() > 0 {
            seq![t]
        } else {
            Seq::<Seq<char>>::empty()
        }) + emitted(Seq::empty(), s.drop_first())
    } else {
        emitted(b.push(s[0]), s.drop_first())
    }
}

/// The text still buffered after `s` arrives while `b` is buffered: what
/// follows the last line feed.
pub open spec fn carry(b: Seq<char>, s: Seq<char>) -> Seq<char>
    decreases s.len(),
{
    if s.len() == 0 {
        b
    } else if s[0] == '\n' {
        carry(Seq::empty(), s.drop_first())
    } else {
        carry(b.push(s[0]), s.drop_first())
    }
}

/// Law: reassembly is chunk-size independent. Feeding `s1` and then `s2`
/// emits the same lines, in the same order, and leaves the same buffered
/// text, as feeding `s1 + s2` at once.
pub proof fn lemma_chunked_feed(b: Seq<char>, s1: Seq<char>, s2: Seq<char>)
    ensures
        emitted(b, s1 + s2) == emitted(b, s1) + emitted(carry(b, s1), s2),
        carry(b, s1 + s2) == carry(carry(b, s1), s2),
    decreases s1.len(),
{
    if s1.len() == 0 {
        assert(s1 + s2 =~= s2);
        assert(emitted(b, s1) + emitted(b, s2) =~= emitted(b, s2));
    } else {
        let c = s1[0];
        assert((s1 + s2).drop_first() =~= s1.drop_first() + s2);
        if c == '\n' {
            lemma_chunked_feed(Seq::empty(), s1.drop_first(), s2);
            let t = trim_spec(b);
            let head: Seq<Seq<char>> = if t.len() > 0 {
                seq![t]
            } else {
                Seq::<Seq<char>>::empty()
            };
            assert((head + emitted(Seq::empty(), s1.drop_first())) + emitted(
                carry(Seq::empty(), s1.drop_first()),
                s2,
            ) =~= head + (emitted(Seq::empty(), s1.drop_first()) + emitted(
                carry(Seq::empty(), s1.drop_first()),
                s2,
            )));
        } else {
            lemma_chunked_feed(b.push(c), s1.drop_first(), s2);
        }
    }
}

/// The concatenation of a sequence of chunks.
pub open spec fn concat_all(chunks: Seq<Seq<char>>) -> Seq<char>
    decreases chunks.len(),
{
    if chunks.len() == 0 {
        Seq::empty()
    } else {
        chunks[0] + concat_all(chunks.drop_first())
    }
}

/// The lines emitted when the chunks arrive one after the other.
pub open spec fn emitted_all(b: Seq<char>, chunks: Seq<Seq<char>>) -> Seq<Seq<char>>
    decreases chunks.len(),
{
    if chunks.len() == 0 {
        Seq::empty()
    } else {
        emitted(b, chunks[0]) + emitted_all(carry(b, chunks[0]), chunks.drop_first())
    }
}

/// The text buffered after the chunks arrive one after the other.
pub open spec fn carry_all(b: Seq<char>, chunks: Seq<Seq<char>>) -> Seq<char>
    decreases chunks.len(),
{
    if chunks.len() == 0 {
        b
    } else {
        carry_all(carry(b, chunks[0]), chunks.drop_first())
    }
}

/// Law: however a text is cut into chunks, feeding the chunks one by one
/// emits exactly the lines of the whole text, in order, and buffers the same
/// remainder.
pub proof fn lemma_chunking_independent(b: Seq<char>, chunks: Seq<Seq<char>>)
    ensures
        emitted_all(b, chunks) == emitted(b, concat_all(chunks)),
        carry_all(b, chunks) == carry(b, concat_all(chunks)),
    decreases chunks.len(),
{
    if chunks.len() == 0 {
        assert(emitted(b, Seq::<char>::empty()) =~= Seq::<Seq<char>>::empty());
    } else {
        let c0 = chunks[0];
        let rest = chunks.drop_first();
        lemma_chunking_independent(carry(b, c0), rest);
        lemma_chunked_feed(b, c0, concat_all(rest));
    }
}

proof fn lemma_trim_front_skip(s: Seq<char>, a: int)
    requires
        0 <= a <= s.len(),
        forall|k: int| 0 <= k < a ==> is_space(s[k]),
        a < s.len() ==> !is_space(s[a]),
    ensures
        trim_front(s) == s.skip(a),
    decreases a,
{
    if a == 0 {
        assert(s.skip(0) =~= s);
    } else {
        let s1 = s.drop_first();
        assert(forall|k: int| 0 <= k < a - 1 ==> is_space(s1[k]));
        lemma_trim_front_skip(s1, a - 1);
        assert(s1.skip(a - 1) =~= s.skip(a));
    }
}

proof fn lemma_trim_back_take(s: Seq<char>, e: int)
    requires
        0 <= e <= s.len(),
        forall|k: int| e <= k < s.len() ==> is_space(s[k]),
        e > 0 ==> !is_space(s[e - 1]),
    ensures
        trim_back(s) == s.take(e),
    decreases s.len(),
{
    if e == s.len() {
        assert(s.take(e) =~= s);
        if s.len() > 0 {
            assert(!is_space(s.last()));
        }
    } else {
        let s1 = s.drop_last();
        assert(is_space(s.last()));
        lemma_trim_back_take(s1, e);
        assert(s1.take(e) =~= s.take(e));
    }
}

proof fn lemma_step_one(b: Seq<char>, c: char)
    ensures
        c == '\n' ==> emitted(b, seq![c]) == (if trim_spec(b).len() > 0 {
            seq![trim_spec(b)]
        } else {
            Seq::<Seq<char>>::empty()
        }),
        c == '\n' ==> carry(b, seq![c]) == Seq::<char>::empty(),
        c != '\n' ==> emitted(b, seq![c]) == Seq::<Seq<char>>::empty(),
        c != '\n' ==> carry(b, seq![c]) == b.push(c),
{
    let one = seq![c];
    assert(one.drop_first() =~= Seq::<char>::empty());
    assert(one[0] == c);
    if c == '\n' {
        assert(emitted(Seq::<char>::empty(), one.drop_first()) == Seq::<Seq<char>>::empty());
        assert(carry(Seq::<char>::empty(), one.drop_first()) == Seq::<char>::empty());
        assert(emitted(b, one) =~= (if trim_spec(b).len() > 0 {
            seq![trim_spec(b)]
        } else {
            Seq::<Seq<char>>::empty()
        }));
    } else {
        assert(emitted(b.push(c), one.drop_first()) == Seq::<Seq<char>>::empty());
        assert(carry(b.push(c), one.drop_first()) == b.push(c));
        assert(emitted(b, one) =~= Seq::<Seq<char>>::empty());
    }
}

fn trim_chars(v: &Vec<char>) -> (r: Vec<char>)
    ensures
        r@ == trim_spec(v@),
{
    let mut a: usize = 0;
    while a < v.len() && space_exec(v[a])
        invariant
            a <= v.len(),
            forall|k: int| 0 <= k < a ==> is_space(v@[k]),
        decreases v.len() - a,
    {
        a += 1;
    }
    let mut e: usize = v.len();
    while e > a && space_exec(v[e - 1])
        invariant
            a <= e <= v.len(),
            forall|k: int| e <= k < v.len() ==> is_space(v@[k]),
        decreases e,
    {
        e -= 1;
    }
    proof {
        lemma_trim_front_skip(v@, a as int);
        let t = v@.skip(a as int);
        assert(forall|k: int| e - a <= k < t.len() ==> is_space(t[k]));
        lemma_trim_back_take(t, e - a);
        assert(t.take(e - a) =~= v@.subrange(a as int, e as int));
    }
    let mut out: Vec<char> = Vec::new();
    let mut p = a;
    while p < e
        invariant
            a <= p <= e <= v.len(),
            out@ == v@.subrange(a as int, p as int),
        decreases e - p,
    {
        proof {
            assert(v@.subrange(a as int, p + 1 as int) =~= v@.subrange(a as int, p as int).push(
                v@[p as int],
            ));
        }
        out.push(v[p]);
        p += 1;
    }
    out
}

/// The accumulating buffer of the listener: the text of the one pending,
/// not yet terminated line.
pub struct LineBuffer {
    buf: Vec<char>,
}

impl LineBuffer {
    /// The pending unterminated text.
    pub closed spec fn pending(self) -> Seq<char> {
        self.buf@
    }

    /// Invariant: the pending text never holds a completed line, that is,
    /// no line feed.
    pub open spec fn wf(self) -> bool {
        forall|i: int| 0 <= i < self.pending().len() ==> self.pending()[i] != '\n'
    }

    pub fn new() -> (r: LineBuffer)
        ensures
            r.pending() == Seq::<char>::empty(),
            r.wf(),
    {
        LineBuffer { buf: Vec::new() }
    }

    /// Drop the pending text.
    pub fn clear(&mut self)
        ensures
            final(self).pending() == Seq::<char>::empty(),
            final(self).wf(),
    {
        self.buf.clear();
    }

    /// Append `text` and yield every line it completes, trimmed, empty
    /// lines dropped; the trailing partial line stays pending.
    pub fn feed(&mut self, text: &str) -> (lines: Vec<String>)
        requires
            old(self).wf(),
        ensures
            lines@.map_values(|l: String| l@) == emitted(old(self).pending(), text@),
            final(self).pending() == carry(old(self).pending(), text@),
            final(self).wf(),
    {
        let cs = str_to_chars(text);
        let ghost b0 = self.buf@;
        let mut lines: Vec<String> = Vec::new();
        let mut i: usize = 0;
        proof {
            assert(cs@.take(0) =~= Seq::<char>::empty());
            assert(emitted(b0, Seq::<char>::empty()) =~= Seq::<Seq<char>>::empty());
            assert(lines@.map_values(|l: String| l@) =~= Seq::<Seq<char>>::empty());
            assert forall|k: int| 0 <= k < self.buf@.len() implies self.buf@[k] != '\n' by {
                assert(old(self).pending()[k] != '\n');
            }
        }
        while i < cs.len()
            invariant
                i <= cs.len(),
                cs@ == text@,
                lines@.map_values(|l: String| l@) == emitted(b0, cs@.take(i as int)),
                self.buf@ == carry(b0, cs@.take(i as int)),
                forall|k: int| 0 <= k < self.buf@.len() ==> self.buf@[k] != '\n',
            decreases cs.len() - i,
        {
            let c = cs[i];
            proof {
                lemma_chunked_feed(b0, cs@.take(i as int), seq![c]);
                assert(cs@.take(i as int) + seq![c] =~= cs@.take(i + 1 as int));
                lemma_step_one(self.buf@, c);
            }
            if c == '\n' {
                let t = trim_chars(&self.buf);
                if t.len() > 0 {
                    let ghost pre = lines@;
                    lines.push(chars_to_string(&t));
                    proof {
                        assert(lines@.map_values(|l: String| l@) =~= pre.map_values(
                            |l: String| l@,
                        ).push(t@));
                        assert(pre.map_values(|l: String| l@).push(t@) =~= pre.map_values(
                            |l: String| l@,
                        ) + seq![t@]);
                    }
                } else {
                    proof {
                        assert(lines@.map_values(|l: String| l@) + Seq::<Seq<char>>::empty()
                            =~= lines@.map_values(|l: String| l@));
                    }
                }
                self.buf.clear();
            } else {
                self.buf.push(c);
                proof {
                    assert(lines@.map_values(|l: String| l@) + Seq::<Seq<char>>::empty()
                        =~= lines@.map_values(|l: String| l@));
                }
            }
            i += 1;
        }
        proof {
            assert(cs@.take(cs@.len() as int) =~= cs@);
            let ghost fin = *self;
            assert forall|k: int| 0 <= k < fin.pending().len() implies fin.pending()[k] != '\n' by {
                assert(self.buf@[k] != '\n');
            }
        }
        lines
    }
}

} // verus!
