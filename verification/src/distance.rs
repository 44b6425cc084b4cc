//! Edit distance between character sequences and the search for the window
//! of a paragraph that is closest to a quotation.

use vstd::prelude::*;

verus! {

/// `b` is `a` after the edit at `i`: the character `c` put in there, the
/// character there taken out, or the character there replaced by `c`.
pub open spec fn is_edit(a: Seq<char>, b: Seq<char>, i: int, c: char) -> bool {
    ||| (0 <= i <= a.len() && b == a.insert(i, c))
    ||| (0 <= i < a.len() && b == a.remove(i))
    ||| (0 <= i < a.len() && b == a.update(i, c))
}

/// `b` is `a` after one insertion, deletion or substitution of a single
/// character.
pub open spec fn one_edit(a: Seq<char>, b: Seq<char>) -> bool {
    exists|i: int, c: char| #[trigger] is_edit(a, b, i, c)
}

/// `a` can be turned into `b` by `n` edits, one after the other.
pub open spec fn editable_in(a: Seq<char>, b: Seq<char>, n: nat) -> bool
    decreases n,
{
    if n == 0 {
        a == b
    } else {
        exists|m: Seq<char>| #[trigger] one_edit(a, m) && editable_in(m, b, (n - 1) as nat)
    }
}

/// `n` edits turn `a` into `b`, and no fewer do.
pub open spec fn is_least_edits(a: Seq<char>, b: Seq<char>, n: nat) -> bool {
    editable_in(a, b, n) && forall|m: nat| m < n ==> !editable_in(a, b, m)
}

/// Levenshtein distance: the least number of single-character insertions,
/// deletions and substitutions that turn `a` into `b`.
pub open spec fn edit_distance(a: Seq<char>, b: Seq<char>) -> nat {
    choose|n: nat| is_least_edits(a, b, n)
}

/// From its first `k` characters, `b` is reached by inserting the others.
pub proof fn insertions_reach(b: Seq<char>, k: int)
    requires
        0 <= k <= b.len(),
    ensures
        editable_in(b.take(k), b, (b.len() - k) as nat),
    decreases b.len() - k,
{
    if k < b.len() {
        insertions_reach(b, k + 1);
        let next = b.take(k + 1);
        assert(b.take(k).insert(k, b[k]) =~= next);
        assert(is_edit(b.take(k), next, k, b[k]));
        assert(one_edit(b.take(k), next));
        let n = (b.len() - k) as nat;
        assert(editable_in(next, b, (n - 1) as nat));
        assert(editable_in(b.take(k), b, n));
    } else {
        assert(b.take(k) =~= b);
    }
}

/// From the first `k` characters of `a`, `b` is reached by deleting them
/// and inserting the characters of `b`.
pub proof fn deletions_and_insertions_reach(a: Seq<char>, b: Seq<char>, k: int)
    requires
        0 <= k <= a.len(),
    ensures
        editable_in(a.take(k), b, (k + b.len()) as nat),
    decreases k,
{
    if k > 0 {
        deletions_and_insertions_reach(a, b, k - 1);
        let next = a.take(k - 1);
        assert(a.take(k).remove(k - 1) =~= next);
        assert(is_edit(a.take(k), next, k - 1, 'x'));
        assert(one_edit(a.take(k), next));
        let n = (k + b.len()) as nat;
        assert(editable_in(next, b, (n - 1) as nat));
        assert(editable_in(a.take(k), b, n));
    } else {
        insertions_reach(b, 0);
        assert(a.take(0) =~= b.take(0));
    }
}

/// Where some number of edits will do, a least number will.
pub proof fn least_edits_exist(a: Seq<char>, b: Seq<char>, n: nat)
    requires
        editable_in(a, b, n),
    ensures
        exists|m: nat| m <= n && #[trigger] is_least_edits(a, b, m),
    decreases n,
{
    if exists|j: nat| j < n && editable_in(a, b, j) {
        let j = choose|j: nat| j < n && editable_in(a, b, j);
        least_edits_exist(a, b, j);
        let m = choose|m: nat| m <= j && #[trigger] is_least_edits(a, b, m);
        assert(m <= n && is_least_edits(a, b, m));
    } else {
        assert(is_least_edits(a, b, n));
    }
}

/// The distance is a number of edits that will do, no smaller number
/// will, and it is at most the two lengths together.
pub proof fn edit_distance_is_least(a: Seq<char>, b: Seq<char>)
    ensures
        is_least_edits(a, b, edit_distance(a, b)),
        edit_distance(a, b) <= a.len() + b.len(),
{
    deletions_and_insertions_reach(a, b, a.len() as int);
    assert(a.take(a.len() as int) =~= a);
    least_edits_exist(a, b, a.len() + b.len());
    let m = choose|m: nat| m <= a.len() + b.len() && #[trigger] is_least_edits(a, b, m);
    assert(is_least_edits(a, b, m));
    let d = edit_distance(a, b);
    assert(is_least_edits(a, b, d));
    if d > a.len() + b.len() {
        assert(!editable_in(a, b, m));
    }
}

/// A sequence is at distance zero from itself.
pub proof fn edit_distance_of_equal(s: Seq<char>)
    ensures
        edit_distance(s, s) == 0,
{
    edit_distance_is_least(s, s);
    assert(editable_in(s, s, 0));
}

/// Only equal sequences are at distance zero.
pub proof fn edit_distance_zero_means_equal(a: Seq<char>, b: Seq<char>)
    requires
        edit_distance(a, b) == 0,
    ensures
        a == b,
{
    edit_distance_is_least(a, b);
}

/// Computes the Levenshtein distance between two strings, character by
/// character, by calling `strsim::levenshtein`.  That the outside routine
/// returns the least number of single-character insertions, deletions and
/// substitutions that turn `a` into `b`, which is [`edit_distance`], is
/// taken on trust.
#[verifier::external_body]
pub(crate) fn levenshtein(a: &str, b: &str) -> (d: usize)
    ensures
        d == edit_distance(a@, b@),
{
    strsim::levenshtein(a, b)
}

/// The `len` characters of `paragraph` that begin at `at`.
pub open spec fn window(paragraph: Seq<char>, at: int, len: int) -> Seq<char> {
    paragraph.subrange(at, at + len)
}

/// Distance between the quotation and the window of its length at `at`.
pub open spec fn window_distance(paragraph: Seq<char>, quotation: Seq<char>, at: int) -> nat {
    edit_distance(window(paragraph, at, quotation.len() as int), quotation)
}

/// Last offset at which a window of the quotation's length still fits.
pub open spec fn last_window(paragraph: Seq<char>, quotation: Seq<char>) -> int {
    paragraph.len() - quotation.len()
}

/// `at` is the leftmost among the windows closest to the quotation.
pub open spec fn is_best_window(paragraph: Seq<char>, quotation: Seq<char>, at: int) -> bool {
    &&& 0 <= at <= last_window(paragraph, quotation)
    &&& forall|j: int|
        0 <= j <= last_window(paragraph, quotation) ==> window_distance(paragraph, quotation, at)
            <= #[trigger] window_distance(paragraph, quotation, j)
    &&& forall|j: int|
        0 <= j < at ==> window_distance(paragraph, quotation, at) < #[trigger] window_distance(
            paragraph,
            quotation,
            j,
        )
}

/// The leftmost closest window among the offsets `0..=upto`.
pub open spec fn best_window_upto(paragraph: Seq<char>, quotation: Seq<char>, upto: int) -> int
    decreases upto,
{
    if upto <= 0 {
        0
    } else {
        let before = best_window_upto(paragraph, quotation, upto - 1);
        if window_distance(paragraph, quotation, upto) < window_distance(
            paragraph,
            quotation,
            before,
        ) {
            upto
        } else {
            before
        }
    }
}

/// Offset of the leftmost window closest to the quotation.
pub open spec fn best_window(paragraph: Seq<char>, quotation: Seq<char>) -> int {
    best_window_upto(paragraph, quotation, last_window(paragraph, quotation))
}

/// Among the first offsets the chosen window is the closest, and the
/// leftmost of the closest.
pub proof fn best_window_upto_is_leftmost_least(
    paragraph: Seq<char>,
    quotation: Seq<char>,
    upto: int,
)
    requires
        0 <= upto,
    ensures
        0 <= best_window_upto(paragraph, quotation, upto) <= upto,
        forall|j: int|
            0 <= j <= upto ==> window_distance(
                paragraph,
                quotation,
                best_window_upto(paragraph, quotation, upto),
            ) <= #[trigger] window_distance(paragraph, quotation, j),
        forall|j: int|
            0 <= j < best_window_upto(paragraph, quotation, upto) ==> window_distance(
                paragraph,
                quotation,
                best_window_upto(paragraph, quotation, upto),
            ) < #[trigger] window_distance(paragraph, quotation, j),
    decreases upto,
{
    if upto > 0 {
        best_window_upto_is_leftmost_least(paragraph, quotation, upto - 1);
    }
}

/// [`best_window`] is the one offset that [`is_best_window`] describes.
pub proof fn best_window_is_unique(paragraph: Seq<char>, quotation: Seq<char>, at: int)
    requires
        quotation.len() <= paragraph.len(),
    ensures
        is_best_window(paragraph, quotation, best_window(paragraph, quotation)),
        is_best_window(paragraph, quotation, at) ==> at == best_window(paragraph, quotation),
{
    best_window_upto_is_leftmost_least(paragraph, quotation, last_window(paragraph, quotation));
    let best = best_window(paragraph, quotation);
    if is_best_window(paragraph, quotation, at) {
        if at < best {
            assert(window_distance(paragraph, quotation, best) < window_distance(
                paragraph,
                quotation,
                at,
            ));
            assert(window_distance(paragraph, quotation, at) <= window_distance(
                paragraph,
                quotation,
                best,
            ));
        } else if best < at {
            assert(window_distance(paragraph, quotation, at) < window_distance(
                paragraph,
                quotation,
                best,
            ));
            assert(window_distance(paragraph, quotation, best) <= window_distance(
                paragraph,
                quotation,
                at,
            ));
        }
    }
}

/// A quotation that occurs verbatim in its paragraph is found at its first
/// occurrence, at distance zero, whatever near matches the paragraph holds
/// elsewhere.
pub proof fn verbatim_quotation_is_found(paragraph: Seq<char>, quotation: Seq<char>, at: int)
    requires
        0 <= at <= last_window(paragraph, quotation),
        window(paragraph, at, quotation.len() as int) == quotation,
        forall|j: int|
            0 <= j < at ==> #[trigger] window(paragraph, j, quotation.len() as int) != quotation,
    ensures
        best_window(paragraph, quotation) == at,
        window_distance(paragraph, quotation, at) == 0,
{
    edit_distance_of_equal(quotation);
    assert forall|j: int| 0 <= j < at implies 0 < #[trigger] window_distance(
        paragraph,
        quotation,
        j,
    ) by {
        if window_distance(paragraph, quotation, j) == 0 {
            edit_distance_zero_means_equal(window(paragraph, j, quotation.len() as int), quotation);
        }
    }
    assert(is_best_window(paragraph, quotation, at));
    best_window_is_unique(paragraph, quotation, at);
}

/// Search `paragraph` for the window closest to `quotation`; returns its
/// offset and its distance.  The scan stops at the first exact match.
pub fn find_best_window(paragraph: &str, quotation: &str) -> (found: (usize, usize))
    requires
        quotation@.len() <= paragraph@.len(),
    ensures
        found.0 == best_window(paragraph@, quotation@),
        found.1 == window_distance(paragraph@, quotation@, found.0 as int),
        found.0 + quotation@.len() <= paragraph@.len(),
{
    let len = quotation.unicode_len();
    let total = paragraph.unicode_len();
    let last = total - len;
    let mut best_start: usize = 0;
    let mut least = levenshtein(paragraph.substring_char(0, len), quotation);
    let mut i: usize = 0;
    proof {
        best_window_upto_is_leftmost_least(paragraph@, quotation@, last as int);
    }
    while i < last && least != 0
        invariant
            i <= last,
            len == quotation@.len(),
            total == paragraph@.len(),
            last == total - len,
            best_start == best_window_upto(paragraph@, quotation@, i as int),
            least == window_distance(paragraph@, quotation@, best_start as int),
            best_start <= i,
        decreases last - i,
    {
        i += 1;
        let d = levenshtein(paragraph.substring_char(i, i + len), quotation);
        if d < least {
            least = d;
            best_start = i;
        }
    }
    proof {
        if i < last {
            zero_window_stays_best(paragraph@, quotation@, i as int, last as int);
        }
    }
    (best_start, least)
}

/// Once a window at distance zero is the best so far, no later window
/// replaces it.
pub proof fn zero_window_stays_best(
    paragraph: Seq<char>,
    quotation: Seq<char>,
    seen: int,
    upto: int,
)
    requires
        0 <= seen <= upto,
        window_distance(
            paragraph,
            quotation,
            best_window_upto(paragraph, quotation, seen),
        ) == 0,
    ensures
        best_window_upto(paragraph, quotation, upto) == best_window_upto(
            paragraph,
            quotation,
            seen,
        ),
    decreases upto - seen,
{
    if seen < upto {
        zero_window_stays_best(paragraph, quotation, seen, upto - 1);
    }
}

} // verus!
