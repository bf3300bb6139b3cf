//! How much two names resemble each other.
//!
//! The resemblance of two texts is the share of characters that need no edit:
//! one minus their edit distance over the length of the longer one, a number
//! between nought and one. It is kept as a fraction, and fractions are compared
//! by cross-multiplication.

use vstd::prelude::*;
use vstd::string::*;

verus! {

pub open spec fn min3(x: nat, y: nat, z: nat) -> nat {
    if x <= y && x <= z {
        x
    } else if y <= z {
        y
    } else {
        z
    }
}

/// The least number of single-character insertions, deletions and
/// substitutions that turn `a` into `b`.
///
/// The last character of `a` is deleted, or the last of `b` inserted, or the
/// one put in the place of the other, which costs nothing where they are the
/// same; the cheapest of the three counts.
pub open spec fn edit_distance(a: Seq<char>, b: Seq<char>) -> nat
    decreases a.len() + b.len(),
{
    if a.len() == 0 {
        b.len()
    } else if b.len() == 0 {
        a.len()
    } else {
        let replace: nat = if a.last() == b.last() {
            0
        } else {
            1
        };
        min3(
            edit_distance(a.drop_last(), b) + 1,
            edit_distance(a, b.drop_last()) + 1,
            edit_distance(a.drop_last(), b.drop_last()) + replace,
        )
    }
}

/// The length of the longer of two texts.
pub open spec fn longer_len(a: Seq<char>, b: Seq<char>) -> nat {
    if a.len() >= b.len() {
        a.len()
    } else {
        b.len()
    }
}

/// A fraction `part / whole`, with `whole` above nought.
pub struct Ratio {
    pub part: int,
    pub whole: int,
}

impl Ratio {
    pub open spec fn exceeds_half(self) -> bool {
        2 * self.part > self.whole
    }

    pub open spec fn less_than(self, other: Ratio) -> bool {
        self.part * other.whole < other.part * self.whole
    }

    pub open spec fn at_most(self, other: Ratio) -> bool {
        self.part * other.whole <= other.part * self.whole
    }
}

/// The resemblance of `a` and `b`. Two empty texts resemble each other fully.
pub open spec fn similarity(a: Seq<char>, b: Seq<char>) -> Ratio {
    if longer_len(a, b) == 0 {
        Ratio { part: 1, whole: 1 }
    } else {
        Ratio { part: longer_len(a, b) - edit_distance(a, b), whole: longer_len(a, b) as int }
    }
}

/// No more edits are needed than the longer text has characters.
pub proof fn lemma_edit_distance_bound(a: Seq<char>, b: Seq<char>)
    ensures
        edit_distance(a, b) <= longer_len(a, b),
    decreases a.len() + b.len(),
{
    if a.len() > 0 && b.len() > 0 {
        lemma_edit_distance_bound(a.drop_last(), b.drop_last());
    }
}

/// A text needs no edit to become itself.
pub proof fn lemma_edit_distance_same(a: Seq<char>)
    ensures
        edit_distance(a, a) == 0,
    decreases a.len(),
{
    if a.len() > 0 {
        lemma_edit_distance_same(a.drop_last());
    }
}

/// The resemblance of two texts lies between nought and one, and that of a
/// text with itself is one.
pub proof fn lemma_similarity_range(a: Seq<char>, b: Seq<char>)
    ensures
        similarity(a, b).whole > 0,
        0 <= similarity(a, b).part <= similarity(a, b).whole,
        similarity(a, a).part == similarity(a, a).whole,
{
    lemma_edit_distance_bound(a, b);
    lemma_edit_distance_same(a);
}

/// The edit distance of two texts, as `strsim::levenshtein` computes it. That
/// function fills the table of the distances between the beginnings of its two
/// arguments, character by character, by the rule that `edit_distance` states,
/// and returns the table's last entry.
#[verifier::external_body]
pub(crate) fn levenshtein(a: &str, b: &str) -> (distance: usize)
    ensures
        distance == edit_distance(a@, b@),
{
    strsim::levenshtein(a, b)
}

/// The resemblance of two texts as a pair of machine numbers: the characters
/// that need no edit, and the length of the longer text.
#[derive(Clone, Copy)]
pub struct Score {
    pub part: u64,
    pub whole: u64,
}

impl View for Score {
    type V = Ratio;

    open spec fn view(&self) -> Ratio {
        Ratio { part: self.part as int, whole: self.whole as int }
    }
}

impl Score {
    /// The resemblance of `a` and `b`.
    pub fn of(a: &str, b: &str) -> (score: Score)
        ensures
            score@ == similarity(a@, b@),
    {
        let a_len = a.unicode_len();
        let b_len = b.unicode_len();
        let longer = if a_len >= b_len {
            a_len
        } else {
            b_len
        };
        if longer == 0 {
            return Score { part: 1, whole: 1 };
        }
        let distance = levenshtein(a, b);
        proof {
            lemma_edit_distance_bound(a@, b@);
        }
        Score { part: (longer - distance) as u64, whole: longer as u64 }
    }

    /// Whether the resemblance is above one half.
    pub fn exceeds_half(&self) -> (above: bool)
        ensures
            above == self@.exceeds_half(),
    {
        2 * (self.part as u128) > self.whole as u128
    }

    /// Whether this resemblance is smaller than `other`.
    pub fn less_than(&self, other: &Score) -> (less: bool)
        ensures
            less == self@.less_than(other@),
    {
        let left = widen_product(self.part, other.whole);
        let right = widen_product(other.part, self.whole);
        left < right
    }
}

/// The product of two numbers, which always fits in twice their width.
fn widen_product(x: u64, y: u64) -> (product: u128)
    ensures
        product == x * y,
{
    assert(x * y <= 0xffff_ffff_ffff_ffff * 0xffff_ffff_ffff_ffff) by (nonlinear_arith)
        requires
            0 <= x <= 0xffff_ffff_ffff_ffff,
            0 <= y <= 0xffff_ffff_ffff_ffff,
    ;
    (x as u128) * (y as u128)
}

} // verus!
