//! Character-sequence helpers for the configuration syntax: classification
//! of name and whitespace characters, splitting on a separator, trimming,
//! and joining, each with a specification-level definition and a verified
//! executable counterpart.

use vstd::prelude::*;
use vstd::std_specs::iter::IteratorSpec;

verus! {

/// A character allowed in a process name: a letter, a digit or an
/// underscore.
pub open spec fn is_name_char(c: char) -> bool {
    (('A' as u32) <= (c as u32) && (c as u32) <= ('Z' as u32)) || (('a' as u32) <= (c as u32) && (
    c as u32) <= ('z' as u32)) || (('0' as u32) <= (c as u32) && (c as u32) <= ('9' as u32)) || c
        == '_'
}

/// A whitespace character as trimmed around the command portion of a
/// configuration line: the characters with Unicode's White_Space
/// property, as `str::trim` strips them.
pub open spec fn is_line_ws(c: char) -> bool {
    c == ' ' || c == '\t' || c == '\n' || c == '\u{b}' || c == '\u{c}' || c == '\r' || c == '\u{85}'
        || c == '\u{a0}' || c == '\u{1680}' || (('\u{2000}' as u32) <= (c as u32) && (c as u32)
        <= ('\u{200a}' as u32)) || c == '\u{2028}' || c == '\u{2029}' || c == '\u{202f}' || c
        == '\u{205f}' || c == '\u{3000}'
}

/// The pieces of `s` between occurrences of `sep`, in order. Splitting
/// always yields at least one piece; an empty input yields one empty piece.
pub open spec fn split_char(s: Seq<char>, sep: char) -> Seq<Seq<char>>
    decreases s.len(),
{
    if s.len() == 0 {
        seq![Seq::<char>::empty()]
    } else if s[0] == sep {
        seq![Seq::<char>::empty()] + split_char(s.drop_first(), sep)
    } else {
        let rest = split_char(s.drop_first(), sep);
        seq![seq![s[0]] + rest[0]] + rest.drop_first()
    }
}

/// The pieces joined back together with one `sep` between neighbours.
pub open spec fn join_char(parts: Seq<Seq<char>>, sep: char) -> Seq<char>
    decreases parts.len(),
{
    if parts.len() == 0 {
        Seq::<char>::empty()
    } else if parts.len() == 1 {
        parts[0]
    } else {
        parts[0] + seq![sep] + join_char(parts.drop_first(), sep)
    }
}

/// `s` without its leading whitespace.
pub open spec fn trim_start(s: Seq<char>) -> Seq<char>
    decreases s.len(),
{
    if s.len() > 0 && is_line_ws(s[0]) {
        trim_start(s.drop_first())
    } else {
        s
    }
}

/// `s` without its trailing whitespace.
pub open spec fn trim_end(s: Seq<char>) -> Seq<char>
    decreases s.len(),
{
    if s.len() > 0 && is_line_ws(s.last()) {
        trim_end(s.drop_last())
    } else {
        s
    }
}

/// `s` without leading and trailing whitespace.
pub open spec fn trim_ws(s: Seq<char>) -> Seq<char> {
    trim_end(trim_start(s))
}

/// Splitting yields at least one piece.
pub proof fn lemma_split_char_len(s: Seq<char>, sep: char)
    ensures
        split_char(s, sep).len() >= 1,
    decreases s.len(),
{
    if s.len() > 0 {
        lemma_split_char_len(s.drop_first(), sep);
    }
}

/// Splitting a sequence free of the separator yields that sequence alone.
pub proof fn lemma_split_char_no_sep(s: Seq<char>, sep: char)
    requires
        forall|i: int| 0 <= i < s.len() ==> s[i] != sep,
    ensures
        split_char(s, sep) == seq![s],
    decreases s.len(),
{
    if s.len() == 0 {
        assert(split_char(s, sep) =~~= seq![s]);
    } else {
        lemma_split_char_no_sep(s.drop_first(), sep);
        assert(split_char(s, sep) =~~= seq![s]);
    }
}

/// Splitting at the first separator: the prefix before it is the first
/// piece, and the rest of the pieces are those of the suffix after it.
pub proof fn lemma_split_char_first_sep(s: Seq<char>, sep: char, p: int)
    requires
        0 <= p < s.len(),
        s[p] == sep,
        forall|i: int| 0 <= i < p ==> s[i] != sep,
    ensures
        split_char(s, sep) == seq![s.subrange(0, p)] + split_char(s.skip(p + 1), sep),
    decreases p,
{
    if p == 0 {
        assert(s.subrange(0, 0) =~= Seq::<char>::empty());
        assert(s.skip(1) =~= s.drop_first());
        assert(split_char(s, sep) =~~= seq![s.subrange(0, 0)] + split_char(s.skip(1), sep));
    } else {
        let t = s.drop_first();
        assert(t[p - 1] == sep);
        assert(forall|i: int| 0 <= i < p - 1 ==> t[i] != sep);
        lemma_split_char_first_sep(t, sep, p - 1);
        lemma_split_char_len(t.skip(p), sep);
        assert(t.subrange(0, p - 1) =~= s.subrange(1, p));
        assert(t.skip(p) =~= s.skip(p + 1));
        assert(seq![s[0]] + s.subrange(1, p) =~= s.subrange(0, p));
        assert(split_char(s, sep) =~~= seq![s.subrange(0, p)] + split_char(s.skip(p + 1), sep));
    }
}

/// Law: joining the pieces of a split with the separator it was split on
/// rebuilds the split sequence exactly.
pub proof fn lemma_join_split(s: Seq<char>, sep: char)
    ensures
        join_char(split_char(s, sep), sep) == s,
    decreases s.len(),
{
    if s.len() == 0 {
    } else if s[0] == sep {
        lemma_join_split(s.drop_first(), sep);
        lemma_split_char_len(s.drop_first(), sep);
        let parts = seq![Seq::<char>::empty()] + split_char(s.drop_first(), sep);
        assert(parts.drop_first() =~~= split_char(s.drop_first(), sep));
        assert(join_char(parts, sep) =~= s);
    } else {
        lemma_join_split(s.drop_first(), sep);
        let r = split_char(s.drop_first(), sep);
        lemma_split_char_len(s.drop_first(), sep);
        let parts = seq![seq![s[0]] + r[0]] + r.drop_first();
        if r.len() == 1 {
            assert(parts.len() == 1);
            assert(join_char(r, sep) == r[0]);
            assert(r[0] == s.drop_first());
            assert(join_char(parts, sep) == parts[0]);
            assert(parts[0] =~= seq![s[0]] + s.drop_first());
            assert(seq![s[0]] + s.drop_first() =~= s);
        } else {
            assert(parts.drop_first() =~~= r.drop_first());
            assert(join_char(r, sep) == r[0] + seq![sep] + join_char(r.drop_first(), sep));
            assert(parts.len() >= 2);
            assert(join_char(parts, sep) == parts[0] + seq![sep] + join_char(
                parts.drop_first(),
                sep,
            ));
            assert(parts[0] =~= seq![s[0]] + r[0]);
            assert(join_char(parts, sep) =~= seq![s[0]] + (r[0] + seq![sep] + join_char(
                r.drop_first(),
                sep,
            )));
            assert(seq![s[0]] + s.drop_first() =~= s);
            assert(join_char(parts, sep) =~= s);
        }
    }
}

/// Appending one more piece appends a separator and that piece to the join.
pub proof fn lemma_join_push(parts: Seq<Seq<char>>, x: Seq<char>, sep: char)
    requires
        parts.len() >= 1,
    ensures
        join_char(parts.push(x), sep) == join_char(parts, sep) + seq![sep] + x,
    decreases parts.len(),
{
    if parts.len() == 1 {
        let p = parts.push(x);
        assert(p.drop_first() =~~= seq![x]);
        assert(join_char(p.drop_first(), sep) == x);
        assert(p[0] == parts[0]);
        assert(join_char(p, sep) == parts[0] + seq![sep] + x);
    } else {
        lemma_join_push(parts.drop_first(), x, sep);
        let p = parts.push(x);
        assert(p.drop_first() =~~= parts.drop_first().push(x));
        assert(join_char(p, sep) == p[0] + seq![sep] + join_char(p.drop_first(), sep));
        assert(join_char(parts, sep) + seq![sep] + x =~= p[0] + seq![sep] + (join_char(
            parts.drop_first(),
            sep,
        ) + seq![sep] + x));
        assert(join_char(p, sep) =~= join_char(parts, sep) + seq![sep] + x);
    }
}

/// Dropping the leading whitespace is the same as skipping up to the first
/// index that holds none.
pub proof fn lemma_trim_start_skip(s: Seq<char>, j: int)
    requires
        0 <= j <= s.len(),
        forall|i: int| 0 <= i < j ==> is_line_ws(s[i]),
        j == s.len() || !is_line_ws(s[j]),
    ensures
        trim_start(s) == s.skip(j),
    decreases j,
{
    if j == 0 {
        assert(s.skip(0) =~= s);
    } else {
        let t = s.drop_first();
        assert(forall|i: int| 0 <= i < j - 1 ==> is_line_ws(t[i]));
        lemma_trim_start_skip(t, j - 1);
        assert(t.skip(j - 1) =~= s.skip(j));
    }
}

/// Dropping the trailing whitespace is the same as keeping up to the last
/// index that holds none.
pub proof fn lemma_trim_end_take(s: Seq<char>, j: int)
    requires
        0 <= j <= s.len(),
        forall|i: int| j <= i < s.len() ==> is_line_ws(s[i]),
        j == 0 || !is_line_ws(s[j - 1]),
    ensures
        trim_end(s) == s.take(j),
    decreases s.len(),
{
    if j == s.len() {
        assert(s.take(j) =~= s);
        if s.len() > 0 {
            assert(!is_line_ws(s.last()));
        }
    } else {
        assert(is_line_ws(s.last()));
        let t = s.drop_last();
        assert(forall|i: int| j <= i < t.len() ==> is_line_ws(t[i]));
        lemma_trim_end_take(t, j);
        assert(t.take(j) =~= s.take(j));
    }
}

/// Whether `c` may stand in a process name.
pub fn name_char(c: char) -> (b: bool)
    ensures
        b == is_name_char(c),
{
    let u = c as u32;
    (65 <= u && u <= 90) || (97 <= u && u <= 122) || (48 <= u && u <= 57) || c == '_'
}

/// Whether `c` is whitespace for the purposes of trimming.
pub fn ws_char(c: char) -> (b: bool)
    ensures
        b == is_line_ws(c),
{
    let u = c as u32;
    c == ' ' || c == '\t' || c == '\n' || c == '\u{b}' || c == '\u{c}' || c == '\r' || c == '\u{85}'
        || c == '\u{a0}' || c == '\u{1680}' || (0x2000 <= u && u <= 0x200a) || c == '\u{2028}' || c
        == '\u{2029}' || c == '\u{202f}' || c == '\u{205f}' || c == '\u{3000}'
}

/// A copy of `v[from..to]`.
pub fn subvec(v: &Vec<char>, from: usize, to: usize) -> (r: Vec<char>)
    requires
        from <= to <= v@.len(),
    ensures
        r@ == v@.subrange(from as int, to as int),
{
    let mut r: Vec<char> = Vec::new();
    let mut i: usize = from;
    while i < to
        invariant
            from <= i <= to <= v@.len(),
            r@ == v@.subrange(from as int, i as int),
        decreases to - i,
    {
        r.push(v[i]);
        assert(v@.subrange(from as int, i + 1) =~= v@.subrange(from as int, i as int).push(
            v@[i as int],
        ));
        i = i + 1;
    }
    r
}

/// Splits `v` at every occurrence of `sep`.
pub fn split_vec(v: &Vec<char>, sep: char) -> (r: Vec<Vec<char>>)
    ensures
        r.deep_view() == split_char(v@, sep),
        r@.len() >= 1,
{
    let mut parts: Vec<Vec<char>> = Vec::new();
    let mut start: usize = 0;
    let mut i: usize = 0;
    proof {
        assert(v@.skip(0) =~= v@);
    }
    while i < v.len()
        invariant
            start <= i <= v@.len(),
            forall|k: int| start <= k < i ==> v@[k] != sep,
            split_char(v@, sep) == parts.deep_view() + split_char(v@.skip(start as int), sep),
        decreases v@.len() - i,
    {
        if v[i] == sep {
            let piece = subvec(v, start, i);
            let ghost prev = parts.deep_view();
            proof {
                let tail = v@.skip(start as int);
                assert(tail[i - start] == sep);
                assert(forall|k: int| 0 <= k < i - start ==> tail[k] != sep);
                lemma_split_char_first_sep(tail, sep, i - start);
                assert(tail.subrange(0, i - start) =~= v@.subrange(start as int, i as int));
                assert(tail.skip(i - start + 1) =~= v@.skip(i + 1));
            }
            parts.push(piece);
            proof {
                assert(parts.deep_view() =~~= prev.push(piece@));
                assert(prev.push(piece@) + split_char(v@.skip(i + 1), sep) =~~= prev + (seq![
                    piece@,
                ] + split_char(v@.skip(i + 1), sep)));
            }
            start = i + 1;
        }
        i = i + 1;
    }
    let piece = subvec(v, start, v.len());
    let ghost prev = parts.deep_view();
    proof {
        let tail = v@.skip(start as int);
        assert(forall|k: int| 0 <= k < tail.len() ==> tail[k] != sep);
        lemma_split_char_no_sep(tail, sep);
        assert(tail =~= v@.subrange(start as int, v@.len() as int));
    }
    parts.push(piece);
    proof {
        assert(parts.deep_view() =~~= prev.push(piece@));
        assert(prev.push(piece@) =~~= prev + seq![piece@]);
        assert(parts.deep_view() =~~= split_char(v@, sep));
        lemma_split_char_len(v@, sep);
    }
    parts
}

/// All characters of `s`, in order.
pub(crate) fn chars_vec(s: &str) -> (r: Vec<char>)
    ensures
        r@ == s@,
{
    broadcast use vstd::string::next_postcondition, vstd::string::axiom_spec_iter;

    let mut it = s.chars();
    let mut r: Vec<char> = Vec::new();
    proof {
        assert(r@ + it.remaining() =~= s@);
    }
    loop
        invariant
            it.obeys_prophetic_iter_laws(),
            it.decrease() is Some,
            r@ + it.remaining() == s@,
        decreases it.decrease()->0,
    {
        let ghost prev = r@;
        let ghost prev_rem = it.remaining();
        match it.next() {
            Some(c) => {
                r.push(c);
                proof {
                    assert(r@ + it.remaining() =~= prev + prev_rem);
                }
            },
            None => {
                proof {
                    assert(r@ =~= s@);
                }
                return r;
            },
        }
    }
}

/// Relies on `String::from_iter`: the collected string holds exactly the
/// characters handed to it, in order.
#[verifier::external_body]
pub(crate) fn string_from_chars(v: &Vec<char>) -> (r: String)
    ensures
        r@ == v@,
{
    v.iter().collect()
}

/// `v` without leading and trailing whitespace.
pub fn trim_vec(v: &Vec<char>) -> (r: Vec<char>)
    ensures
        r@ == trim_ws(v@),
{
    let mut a: usize = 0;
    while a < v.len() && ws_char(v[a])
        invariant
            0 <= a <= v@.len(),
            forall|i: int| 0 <= i < a ==> is_line_ws(v@[i]),
        decreases v@.len() - a,
    {
        a = a + 1;
    }
    proof {
        lemma_trim_start_skip(v@, a as int);
    }
    let mut b: usize = v.len();
    while b > a && ws_char(v[b - 1])
        invariant
            a <= b <= v@.len(),
            forall|i: int| b <= i < v@.len() ==> is_line_ws(v@[i]),
        decreases b,
    {
        b = b - 1;
    }
    proof {
        let t = v@.skip(a as int);
        assert(forall|i: int| b - a <= i < t.len() ==> is_line_ws(t[i]));
        if b > a {
            assert(!is_line_ws(t[b - a - 1]));
        }
        lemma_trim_end_take(t, b - a);
        assert(t.take(b - a) =~= v@.subrange(a as int, b as int));
    }
    subvec(v, a, b)
}

} // verus!
