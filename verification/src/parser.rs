//! Line parser for the caller-ID wire protocol.
//!
//! A line is a caller-ID record when a `NMBR=` or `NUMBER=` marker (matched
//! case-insensitively) is followed by a run of at least ten ASCII digits, or,
//! failing both markers, when the line as a whole carries between ten and
//! fifteen digit characters.

use vstd::prelude::*;

verus! {

pub open spec fn is_digit(c: char) -> bool {
    '0' <= c && c <= '9'
}

fn digit_exec(c: char) -> (r: bool)
    ensures
        r == is_digit(c),
{
    '0' <= c && c <= '9'
}

/// A character of the scanned line matches a marker character when it is the
/// same character, or its lowercase form (markers are spelt with uppercase
/// ASCII letters and `=`).
pub open spec fn eq_marker_char(a: char, b: char) -> bool {
    a == b || ('A' <= b && b <= 'Z' && a as u32 == b as u32 + 32)
}

fn eq_marker_char_exec(a: char, b: char) -> (r: bool)
    ensures
        r == eq_marker_char(a, b),
{
    a == b || ('A' <= b && b <= 'Z' && a as u32 == b as u32 + 32)
}

pub open spec fn marker_nmbr() -> Seq<char> {
    seq!['N', 'M', 'B', 'R', '=']
}

pub open spec fn marker_number() -> Seq<char> {
    seq!['N', 'U', 'M', 'B', 'E', 'R', '=']
}

/// The marker `m` occurs at position `i` of `s`, up to ASCII case.
pub open spec fn marker_at(s: Seq<char>, m: Seq<char>, i: int) -> bool {
    &&& 0 <= i
    &&& i + m.len() <= s.len()
    &&& forall|j: int| 0 <= j < m.len() ==> eq_marker_char(s[i + j], m[j])
}

/// Position of the first occurrence of `m` in `s` at or after `from`.
pub open spec fn find_marker_from(s: Seq<char>, m: Seq<char>, from: int) -> Option<int>
    decreases s.len() - from,
{
    if from < 0 || from + m.len() > s.len() {
        Option::None
    } else if marker_at(s, m, from) {
        Option::Some(from)
    } else {
        find_marker_from(s, m, from + 1)
    }
}

/// The maximal run of digit characters of `s` starting at `from`.
pub open spec fn digit_run(s: Seq<char>, from: int) -> Seq<char>
    decreases s.len() - from,
{
    if 0 <= from < s.len() && is_digit(s[from]) {
        seq![s[from]] + digit_run(s, from + 1)
    } else {
        Seq::empty()
    }
}

/// All digit characters of `s`, in order.
pub open spec fn digits_of(s: Seq<char>) -> Seq<char> {
    s.filter(|c: char| is_digit(c))
}

/// What a marker branch yields: the digit run after the first occurrence of
/// the marker, provided that run has at least ten digits.
pub open spec fn marker_run(s: Seq<char>, m: Seq<char>) -> Option<Seq<char>> {
    match find_marker_from(s, m, 0) {
        Option::Some(i) => {
            let d = digit_run(s, i + m.len());
            if d.len() >= 10 {
                Option::Some(d)
            } else {
                Option::None
            }
        },
        Option::None => Option::None,
    }
}

/// The phone number a line parses to: the `NMBR=` branch first, then the
/// `NUMBER=` branch, then the all-digits fallback capped at fifteen digits.
pub open spec fn parse_spec(s: Seq<char>) -> Option<Seq<char>> {
    if marker_run(s, marker_nmbr()) is Some {
        marker_run(s, marker_nmbr())
    } else if marker_run(s, marker_number()) is Some {
        marker_run(s, marker_number())
    } else if 10 <= digits_of(s).len() <= 15 {
        Option::Some(digits_of(s))
    } else {
        Option::None
    }
}

proof fn lemma_find_marker_some(s: Seq<char>, m: Seq<char>, from: int, i: int)
    requires
        find_marker_from(s, m, from) == Option::Some(i),
    ensures
        from <= i,
        marker_at(s, m, i),
    decreases s.len() - from,
{
    if from < 0 || from + m.len() > s.len() {
    } else if marker_at(s, m, from) {
    } else {
        lemma_find_marker_some(s, m, from + 1, i);
    }
}

proof fn lemma_find_marker_none(s: Seq<char>, m: Seq<char>, from: int)
    requires
        forall|i: int| from <= i ==> !marker_at(s, m, i),
    ensures
        find_marker_from(s, m, from) is None,
    decreases s.len() - from,
{
    if from < 0 || from + m.len() > s.len() {
    } else {
        lemma_find_marker_none(s, m, from + 1);
    }
}

/// Collect the characters of `s` into a vector.
pub(crate) fn str_to_chars(s: &str) -> (r: Vec<char>)
    ensures
        r@ == s@,
{
    let n = s.unicode_len();
    let mut out: Vec<char> = Vec::new();
    let mut i: usize = 0;
    while i < n
        invariant
            n == s@.len(),
            i <= n,
            out@ == s@.take(i as int),
        decreases n - i,
    {
        out.push(s.get_char(i));
        proof {
            assert(s@.take(i + 1 as int) =~= s@.take(i as int).push(s@[i as int]));
        }
        i += 1;
    }
    proof {
        assert(s@.take(n as int) =~= s@);
    }
    out
}

/// Turn the collected digit characters back into a `String`.
///
/// Relies on `String`'s `FromIterator<char>` impl: collecting yields exactly
/// the iterated characters, in order.
#[verifier::external_body]
pub(crate) fn chars_to_string(v: &Vec<char>) -> (r: String)
    ensures
        r@ == v@,
{
    v.iter().collect()
}

fn marker_match_at(cs: &Vec<char>, m: &Vec<char>, i: usize) -> (r: bool)
    requires
        i + m.len() <= cs.len(),
    ensures
        r == marker_at(cs@, m@, i as int),
{
    let mut j: usize = 0;
    while j < m.len()
        invariant
            j <= m.len(),
            i + m.len() <= cs.len(),
            forall|k: int| 0 <= k < j ==> eq_marker_char(cs@[i + k], m@[k]),
        decreases m.len() - j,
    {
        if !eq_marker_char_exec(cs[i + j], m[j]) {
            assert(!marker_at(cs@, m@, i as int));
            return false;
        }
        j += 1;
    }
    true
}

fn find_marker(cs: &Vec<char>, m: &Vec<char>) -> (r: Option<usize>)
    ensures
        match r {
            Option::Some(i) => find_marker_from(cs@, m@, 0) == Option::Some(i as int),
            Option::None => find_marker_from(cs@, m@, 0) is None,
        },
{
    if m.len() > cs.len() {
        return Option::None;
    }
    let bound = cs.len() - m.len();
    let mut i: usize = 0;
    while i <= bound
        invariant
            bound == cs.len() - m.len(),
            m.len() <= cs.len(),
            i <= bound + 1,
            find_marker_from(cs@, m@, 0) == find_marker_from(cs@, m@, i as int),
        decreases bound + 1 - i,
    {
        if marker_match_at(cs, m, i) {
            return Option::Some(i);
        }
        i += 1;
    }
    Option::None
}

fn collect_run(cs: &Vec<char>, from: usize) -> (r: Vec<char>)
    requires
        from <= cs.len(),
    ensures
        r@ == digit_run(cs@, from as int),
{
    let mut out: Vec<char> = Vec::new();
    let mut p = from;
    while p < cs.len() && digit_exec(cs[p])
        invariant
            from <= p <= cs.len(),
            digit_run(cs@, from as int) == out@ + digit_run(cs@, p as int),
        decreases cs.len() - p,
    {
        proof {
            assert((out@ + seq![cs@[p as int]]) + digit_run(cs@, p + 1 as int) =~= out@ + (
            seq![cs@[p as int]] + digit_run(cs@, p + 1 as int)));
        }
        out.push(cs[p]);
        p += 1;
    }
    proof {
        assert(digit_run(cs@, p as int) =~= Seq::<char>::empty());
        assert(out@ + Seq::<char>::empty() =~= out@);
    }
    out
}

fn collect_digits(cs: &Vec<char>) -> (r: Vec<char>)
    ensures
        r@ == digits_of(cs@),
{
    let mut out: Vec<char> = Vec::new();
    let mut p: usize = 0;
    proof {
        reveal(Seq::filter);
        assert(cs@.take(0) =~= Seq::<char>::empty());
    }
    while p < cs.len()
        invariant
            p <= cs.len(),
            out@ == digits_of(cs@.take(p as int)),
        decreases cs.len() - p,
    {
        proof {
            reveal(Seq::filter);
            let t = cs@.take(p + 1 as int);
            assert(t.drop_last() =~= cs@.take(p as int));
            assert(t.last() == cs@[p as int]);
            if is_digit(cs@[p as int]) {
                assert(digits_of(t) == digits_of(cs@.take(p as int)).push(cs@[p as int]));
            } else {
                assert(digits_of(t) == digits_of(cs@.take(p as int)));
            }
        }
        if digit_exec(cs[p]) {
            out.push(cs[p]);
        }
        p += 1;
    }
    proof {
        assert(cs@.take(cs@.len() as int) =~= cs@);
    }
    out
}

fn nmbr_chars() -> (r: Vec<char>)
    ensures
        r@ == marker_nmbr(),
{
    let mut m: Vec<char> = Vec::new();
    m.push('N');
    m.push('M');
    m.push('B');
    m.push('R');
    m.push('=');
    proof {
        assert(m@ =~= marker_nmbr());
    }
    m
}

fn number_chars() -> (r: Vec<char>)
    ensures
        r@ == marker_number(),
{
    let mut m: Vec<char> = Vec::new();
    m.push('N');
    m.push('U');
    m.push('M');
    m.push('B');
    m.push('E');
    m.push('R');
    m.push('=');
    proof {
        assert(m@ =~= marker_number());
    }
    m
}

fn parse_chars(cs: &Vec<char>) -> (r: Option<Vec<char>>)
    ensures
        match r {
            Option::Some(d) => parse_spec(cs@) == Option::Some(d@),
            Option::None => parse_spec(cs@) is None,
        },
{
    // Observing the length teaches the verifier that it fits in usize,
    // which the marker-offset additions below need.
    let _len_fits = cs.len();
    let nmbr = nmbr_chars();
    match find_marker(cs, &nmbr) {
        Option::Some(i) => {
            proof {
                lemma_find_marker_some(cs@, marker_nmbr(), 0, i as int);
                assert(i + marker_nmbr().len() <= cs@.len());
            }
            let d = collect_run(cs, i + nmbr.len());
            if d.len() >= 10 {
                return Option::Some(d);
            }
        },
        Option::None => {},
    }
    assert(marker_run(cs@, marker_nmbr()) is None);
    let number = number_chars();
    match find_marker(cs, &number) {
        Option::Some(i) => {
            proof {
                lemma_find_marker_some(cs@, marker_number(), 0, i as int);
                assert(i + marker_number().len() <= cs@.len());
            }
            let d = collect_run(cs, i + number.len());
            if d.len() >= 10 {
                return Option::Some(d);
            }
        },
        Option::None => {},
    }
    assert(marker_run(cs@, marker_number()) is None);
    let all = collect_digits(cs);
    if 10 <= all.len() && all.len() <= 15 {
        Option::Some(all)
    } else {
        Option::None
    }
}

/// Parse one line of device output; the result is the phone number of a
/// caller-ID record, per `parse_spec`.
pub fn parse_caller_id(data: &str) -> (r: Option<String>)
    ensures
        match r {
            Option::Some(num) => parse_spec(data@) == Option::Some(num@),
            Option::None => parse_spec(data@) is None,
        },
{
    let cs = str_to_chars(data);
    match parse_chars(&cs) {
        Option::Some(d) => Option::Some(chars_to_string(&d)),
        Option::None => Option::None,
    }
}

/// Law: when the first case-insensitive occurrence of `NMBR=` in a line is
/// followed by a maximal digit run of at least ten digits, the line parses to
/// exactly that run.
pub proof fn lemma_marker_digits_returned(s: Seq<char>, i: int)
    requires
        find_marker_from(s, marker_nmbr(), 0) == Option::Some(i),
        digit_run(s, i + marker_nmbr().len()).len() >= 10,
    ensures
        parse_spec(s) == Option::Some(digit_run(s, i + marker_nmbr().len())),
{
}

/// Law: a line in which neither marker occurs parses to the concatenation of
/// all its digit characters exactly when their count lies in [10, 15], and to
/// nothing otherwise.
pub proof fn lemma_fallback(s: Seq<char>)
    requires
        forall|i: int| !marker_at(s, marker_nmbr(), i),
        forall|i: int| !marker_at(s, marker_number(), i),
    ensures
        10 <= digits_of(s).len() <= 15 ==> parse_spec(s) == Option::Some(digits_of(s)),
        !(10 <= digits_of(s).len() <= 15) ==> parse_spec(s) is None,
{
    lemma_find_marker_none(s, marker_nmbr(), 0);
    lemma_find_marker_none(s, marker_number(), 0);
}

} // verus!
