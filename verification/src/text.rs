//! Small verified helpers on strings, seen as sequences of characters.

use vstd::prelude::*;
use vstd::string::*;

verus! {

/// The characters that Unicode gives the property `White_Space`.
pub open spec fn is_whitespace(c: char) -> bool {
    ||| '\u{9}' <= c <= '\u{d}'
    ||| c == ' '
    ||| c == '\u{85}'
    ||| c == '\u{a0}'
    ||| c == '\u{1680}'
    ||| '\u{2000}' <= c <= '\u{200a}'
    ||| c == '\u{2028}'
    ||| c == '\u{2029}'
    ||| c == '\u{202f}'
    ||| c == '\u{205f}'
    ||| c == '\u{3000}'
}

/// A text is blank when it holds nothing but whitespace; the empty text is blank.
pub open spec fn is_blank(s: Seq<char>) -> bool {
    forall|i: int| 0 <= i < s.len() ==> is_whitespace(#[trigger] s[i])
}

/// `a` comes before `b` in the order of a dictionary whose alphabet is the
/// Unicode code points: at the first place where they differ `a` holds the
/// smaller character, or `a` ends there and `b` goes on.
pub open spec fn lex_lt(a: Seq<char>, b: Seq<char>) -> bool {
    exists|k: int| #[trigger] precedes_at(a, b, k)
}

/// `a` and `b` agree on their first `k` characters, and at `k` the order is
/// decided in favour of `a`.
pub open spec fn precedes_at(a: Seq<char>, b: Seq<char>, k: int) -> bool {
    &&& 0 <= k <= a.len()
    &&& k < b.len()
    &&& a.take(k) == b.take(k)
    &&& (k < a.len() ==> a[k] < b[k])
}

/// A sequence of texts in strictly ascending dictionary order.
pub open spec fn strictly_sorted(names: Seq<Seq<char>>) -> bool {
    forall|i: int, j: int| 0 <= i < j < names.len() ==> lex_lt(#[trigger] names[i], #[trigger] names[j])
}

/// Two texts that agree before `k` and differ at `k` (or where one ends at `k`)
/// can only be ordered at `k`.
proof fn lemma_decided_at(a: Seq<char>, b: Seq<char>, k: int, j: int)
    requires
        0 <= k <= a.len(),
        k <= b.len(),
        a.take(k) == b.take(k),
        k < a.len() && k < b.len() ==> a[k] != b[k],
        precedes_at(a, b, j),
    ensures
        j == k,
{
    if j < k {
        assert(a.take(k)[j] == a[j]);
    } else if j > k {
        assert(a.take(j)[k] == b.take(j)[k]);
    }
}

pub proof fn lemma_lex_lt_irreflexive(a: Seq<char>)
    ensures
        !lex_lt(a, a),
{
}

pub proof fn lemma_lex_lt_transitive(a: Seq<char>, b: Seq<char>, c: Seq<char>)
    requires
        lex_lt(a, b),
        lex_lt(b, c),
    ensures
        lex_lt(a, c),
{
    let k = choose|k: int| #[trigger] precedes_at(a, b, k);
    let j = choose|j: int| #[trigger] precedes_at(b, c, j);
    let m = if k <= j { k } else { j };
    let ta = a.take(m);
    let tc = c.take(m);
    assert(ta =~= tc);
    if k < j {
        assert(b.take(j)[k] == c.take(j)[k]);
    } else if j < k {
        assert(a.take(k)[j] == b.take(k)[j]);
    }
    assert(precedes_at(a, c, m));
}

/// Of two different texts one comes before the other.
pub proof fn lemma_lex_lt_total(a: Seq<char>, b: Seq<char>)
    ensures
        a == b || lex_lt(a, b) || lex_lt(b, a),
{
    let k = common_prefix(a, b);
    lemma_common_prefix(a, b);
    if k == a.len() && k == b.len() {
        assert(a.take(k) == a);
    } else if k == a.len() {
    } else if k == b.len() {
        assert(precedes_at(b, a, k));
    } else if a[k] < b[k] {
        assert(precedes_at(a, b, k));
    } else {
        assert(b.take(k) == a.take(k));
    }
}

/// The number of leading characters that `a` and `b` share.
spec fn common_prefix(a: Seq<char>, b: Seq<char>) -> int
    decreases a.len(),
{
    if a.len() > 0 && b.len() > 0 && a[0] == b[0] {
        1 + common_prefix(a.drop_first(), b.drop_first())
    } else {
        0
    }
}

proof fn lemma_common_prefix(a: Seq<char>, b: Seq<char>)
    ensures
        0 <= common_prefix(a, b) <= a.len(),
        common_prefix(a, b) <= b.len(),
        a.take(common_prefix(a, b)) == b.take(common_prefix(a, b)),
        common_prefix(a, b) < a.len() && common_prefix(a, b) < b.len() ==> a[common_prefix(a, b)]
            != b[common_prefix(a, b)],
    decreases a.len(),
{
    if a.len() > 0 && b.len() > 0 && a[0] == b[0] {
        let a1 = a.drop_first();
        let b1 = b.drop_first();
        lemma_common_prefix(a1, b1);
        let k = common_prefix(a1, b1);
        let ta = a.take(k + 1);
        let tb = b.take(k + 1);
        assert(ta =~= tb) by {
            assert forall|i: int| 0 <= i < ta.len() implies #[trigger] ta[i] == tb[i] by {
                if i > 0 {
                    assert(a1.take(k)[i - 1] == b1.take(k)[i - 1]);
                }
            }
        }
    }
}

/// The characters of `s`, one by one.
pub fn chars_of(s: &str) -> (v: Vec<char>)
    ensures
        v@ == s@,
{
    broadcast use vstd::string::group_string_axioms;

    let mut v: Vec<char> = Vec::new();
    for c in it: s.chars()
        invariant
            v@ == it.seq().take(it.index() as int),
            it.seq() == s@,
    {
        v.push(c);
    }
    v
}

/// Whether two texts hold the same characters.
pub fn str_eq(a: &str, b: &str) -> (same: bool)
    ensures
        same == (a@ == b@),
{
    let x = a.to_owned();
    let y = b.to_owned();
    x == y
}

/// Whether `a` comes before `b` in dictionary order.
pub fn str_lt(a: &str, b: &str) -> (before: bool)
    ensures
        before == lex_lt(a@, b@),
{
    let x = chars_of(a);
    let y = chars_of(b);
    let mut i: usize = 0;
    while i < x.len() && i < y.len() && x[i] == y[i]
        invariant
            i <= x.len(),
            i <= y.len(),
            x@.take(i as int) == y@.take(i as int),
        decreases x.len() - i,
    {
        i = i + 1;
    }
    let before = i < y.len() && (i == x.len() || x[i] < y[i]);
    proof {
        if before {
            assert(precedes_at(x@, y@, i as int));
        } else if lex_lt(x@, y@) {
            let j = choose|j: int| #[trigger] precedes_at(x@, y@, j);
            lemma_decided_at(x@, y@, i as int, j);
        }
    }
    before
}

/// Whether `c` is a whitespace character.
pub fn char_is_whitespace(c: char) -> (w: bool)
    ensures
        w == is_whitespace(c),
{
    ('\u{9}' <= c && c <= '\u{d}') || c == ' ' || c == '\u{85}' || c == '\u{a0}' || c
        == '\u{1680}' || ('\u{2000}' <= c && c <= '\u{200a}') || c == '\u{2028}' || c
        == '\u{2029}' || c == '\u{202f}' || c == '\u{205f}' || c == '\u{3000}'
}

/// The part of `s` from character `from` up to, not including, character `to`.
pub(crate) fn substring(s: &str, from: usize, to: usize) -> (part: String)
    requires
        from <= to <= s@.len(),
    ensures
        part@ == s@.subrange(from as int, to as int),
{
    String::from_str(s.substring_char(from, to))
}

/// Whether `s` begins with the characters of `prefix`.
pub open spec fn has_prefix(s: Seq<char>, prefix: Seq<char>) -> bool {
    prefix.len() <= s.len() && s.take(prefix.len() as int) == prefix
}

/// Whether the characters of `s` from `at` on begin with `prefix`.
pub(crate) fn starts_with_at(s: &Vec<char>, at: usize, prefix: &Vec<char>) -> (b: bool)
    requires
        at <= s.len(),
    ensures
        b == has_prefix(s@.skip(at as int), prefix@),
{
    let ghost rest = s@.skip(at as int);
    if prefix.len() > s.len() - at {
        return false;
    }
    let mut i: usize = 0;
    while i < prefix.len()
        invariant
            at <= s.len(),
            prefix.len() <= s.len() - at,
            i <= prefix.len(),
            rest == s@.skip(at as int),
            rest.take(i as int) == prefix@.take(i as int),
        decreases prefix.len() - i,
    {
        if s[at + i] != prefix[i] {
            return false;
        }
        i = i + 1;
    }
    assert(prefix@.take(i as int) == prefix@);
    true
}

/// The text of an optional string.
pub open spec fn opt_text(value: Option<String>) -> Option<Seq<char>> {
    match value {
        Some(text) => Some(text@),
        None => None,
    }
}

/// Whether `s` ends with the characters of `suffix`.
pub open spec fn has_suffix(s: Seq<char>, suffix: Seq<char>) -> bool {
    suffix.len() <= s.len() && s.skip(s.len() - suffix.len()) == suffix
}

/// Whether `s` ends with the characters of `suffix`.
pub fn ends_with(s: &str, suffix: &str) -> (b: bool)
    ensures
        b == has_suffix(s@, suffix@),
{
    let text = chars_of(s);
    let end = chars_of(suffix);
    if end.len() > text.len() {
        return false;
    }
    let at = text.len() - end.len();
    let b = starts_with_at(&text, at, &end);
    assert(text@.skip(at as int).take(end@.len() as int) =~= text@.skip(at as int));
    b
}

/// The texts of a list of strings, in order.
pub open spec fn texts(list: Seq<String>) -> Seq<Seq<char>> {
    Seq::new(list.len(), |i: int| list[i]@)
}

/// Copies a list of strings.
pub fn clone_texts(list: &Vec<String>) -> (copy: Vec<String>)
    ensures
        texts(copy@) == texts(list@),
{
    let mut copy: Vec<String> = Vec::new();
    let mut i: usize = 0;
    while i < list.len()
        invariant
            i <= list.len(),
            copy@.len() == i,
            forall|j: int| 0 <= j < i ==> #[trigger] copy@[j]@ == list@[j]@,
        decreases list.len() - i,
    {
        copy.push(list[i].clone());
        i = i + 1;
    }
    copy
}

/// The pieces of `text` between the separators `sep`. A text without a
/// separator has one piece, and so has the empty text.
pub open spec fn split(text: Seq<char>, sep: char) -> Seq<Seq<char>>
    decreases text.len(),
{
    if text.len() == 0 {
        seq![Seq::empty()]
    } else if text.last() == sep {
        split(text.drop_last(), sep).push(Seq::empty())
    } else {
        let before = split(text.drop_last(), sep);
        before.drop_last().push(before.last().push(text.last()))
    }
}

/// Which pieces of a text to keep.
pub enum Keep {
    /// All but the empty ones.
    Filled,
    /// All but the empty ones and those that are a single dot.
    ButDot,
    /// All but the empty ones and those that are one dot or two.
    ButDots,
}

pub open spec fn is_kept(piece: Seq<char>, keep: Keep) -> bool {
    &&& piece.len() > 0
    &&& (keep is Filled || piece != seq!['.'])
    &&& (keep is ButDots ==> piece != seq!['.', '.'])
}

/// The pieces of `text` between the separators `sep` that `keep` asks for, in
/// order.
pub open spec fn split_kept(text: Seq<char>, sep: char, keep: Keep) -> Seq<Seq<char>> {
    split(text, sep).filter(|piece: Seq<char>| is_kept(piece, keep))
}

proof fn lemma_split_nonempty(text: Seq<char>, sep: char)
    ensures
        split(text, sep).len() > 0,
    decreases text.len(),
{
    if text.len() > 0 {
        lemma_split_nonempty(text.drop_last(), sep);
    }
}

proof fn lemma_filter_push(list: Seq<Seq<char>>, last: Seq<char>, keep: Keep)
    ensures
        list.push(last).filter(|piece: Seq<char>| is_kept(piece, keep)) == if is_kept(last, keep) {
            list.filter(|piece: Seq<char>| is_kept(piece, keep)).push(last)
        } else {
            list.filter(|piece: Seq<char>| is_kept(piece, keep))
        },
{
    reveal(Seq::filter);
    assert(list.push(last).drop_last() =~= list);
}

/// Reading one more character of a text either opens a new piece or
/// lengthens the last one.
proof fn lemma_split_step(t: Seq<char>, sep: char, i: int)
    requires
        0 <= i < t.len(),
    ensures
        split(t.take(i), sep).len() > 0,
        t[i] == sep ==> split(t.take(i + 1), sep) == split(t.take(i), sep).push(Seq::empty()),
        t[i] != sep ==> split(t.take(i + 1), sep) == split(t.take(i), sep).drop_last().push(
            split(t.take(i), sep).last().push(t[i]),
        ),
{
    lemma_split_nonempty(t.take(i), sep);
    assert(t.take(i + 1).drop_last() =~= t.take(i));
}

/// Whether the characters of `text` from `start` up to `end` are a piece to
/// keep.
fn piece_is_kept(text: &Vec<char>, start: usize, end: usize, keep: &Keep) -> (kept: bool)
    requires
        start <= end <= text.len(),
    ensures
        kept == is_kept(text@.subrange(start as int, end as int), *keep),
{
    let ghost piece = text@.subrange(start as int, end as int);
    let len = end - start;
    assert(seq!['.'].len() == 1);
    assert(seq!['.', '.'].len() == 2);
    if len == 0 {
        false
    } else if len == 1 {
        assert(piece[0] == text@[start as int]);
        assert(text@[start as int] == '.' ==> piece =~= seq!['.']);
        match keep {
            Keep::Filled => true,
            _ => text[start] != '.',
        }
    } else if len == 2 {
        assert(text@[start as int] == '.' && text@[start + 1] == '.' ==> piece =~= seq!['.', '.']);
        match keep {
            Keep::ButDots => !(text[start] == '.' && text[start + 1] == '.'),
            _ => true,
        }
    } else {
        true
    }
}

/// The pieces of `text` between the separators `sep` that `keep` asks for, in
/// order.
pub fn split_kept_of(text: &str, sep: char, keep: Keep) -> (found: Vec<String>)
    ensures
        texts(found@) == split_kept(text@, sep, keep),
{
    let chars = chars_of(text);
    let ghost t = chars@;
    let ghost wanted = |piece: Seq<char>| is_kept(piece, keep);
    let mut found: Vec<String> = Vec::new();
    let mut start: usize = 0;
    let mut i: usize = 0;
    proof {
        reveal(Seq::filter);
    }
    while i < chars.len()
        invariant
            t == chars@,
            t == text@,
            wanted == (|piece: Seq<char>| is_kept(piece, keep)),
            start <= i <= chars.len(),
            split(t.take(i as int), sep).len() > 0,
            split(t.take(i as int), sep).last() == t.subrange(start as int, i as int),
            texts(found@) == split(t.take(i as int), sep).drop_last().filter(wanted),
        decreases chars.len() - i,
    {
        let ghost before = split(t.take(i as int), sep);
        let ghost piece = t.subrange(start as int, i as int);
        proof {
            lemma_split_step(t, sep, i as int);
        }
        if chars[i] == sep {
            let kept = piece_is_kept(&chars, start, i, &keep);
            proof {
                assert(before =~= before.drop_last().push(piece));
                lemma_filter_push(before.drop_last(), piece, keep);
            }
            if kept {
                let found_piece = substring(text, start, i);
                found.push(found_piece);
            }
            proof {
                assert(split(t.take(i + 1), sep).drop_last() =~= before);
            }
            start = i + 1;
        } else {
            proof {
                assert(split(t.take(i + 1), sep).drop_last() =~= before.drop_last());
            }
        }
        i = i + 1;
    }
    let ghost all = split(t, sep);
    let ghost piece = t.subrange(start as int, i as int);
    let kept = piece_is_kept(&chars, start, i, &keep);
    proof {
        assert(t.take(i as int) =~= t);
        lemma_filter_push(all.drop_last(), piece, keep);
    }
    if kept {
        let found_piece = substring(text, start, i);
        found.push(found_piece);
    }
    found
}

} // verus!
