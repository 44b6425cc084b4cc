//! Reading order of report entries: by paragraph, then by where they
//! begin.

use vstd::prelude::*;
use crate::report::{output_views, FormattedLintOutput, FormattedLintOutputView};
use crate::text::{chars_of, parse_number, parse_usize};

verus! {

/// The number that a paragraph key stands for; zero for a key that is no
/// number.
pub open spec fn key_number(key: Seq<char>) -> nat {
    match parse_usize(key) {
        Some(n) => n as nat,
        None => 0,
    }
}

/// Whether `a` may stand before `b` in a report: its paragraph comes
/// first, or they share a paragraph and `a` begins no later.
pub open spec fn reads_before(a: FormattedLintOutputView, b: FormattedLintOutputView) -> bool {
    key_number(a.paragraph_key) < key_number(b.paragraph_key) || (key_number(a.paragraph_key)
        == key_number(b.paragraph_key) && a.start <= b.start)
}

/// Each entry may stand before the next one.
pub open spec fn reading_ordered(entries: Seq<FormattedLintOutputView>) -> bool {
    forall|i: int, j: int|
        0 <= i < j < entries.len() ==> reads_before(#[trigger] entries[i], #[trigger] entries[j])
}

/// Where `entry` goes into entries that are in reading order: behind the
/// last one that may stand before it.
pub open spec fn insertion_point(
    entries: Seq<FormattedLintOutputView>,
    entry: FormattedLintOutputView,
) -> int
    decreases entries.len(),
{
    if entries.len() > 0 && !reads_before(entries.last(), entry) {
        insertion_point(entries.drop_last(), entry)
    } else {
        entries.len() as int
    }
}

/// The entries in reading order; entries that tie keep their given order.
pub open spec fn in_reading_order(entries: Seq<FormattedLintOutputView>) -> Seq<
    FormattedLintOutputView,
>
    decreases entries.len(),
{
    if entries.len() == 0 {
        Seq::empty()
    } else {
        let before = in_reading_order(entries.drop_last());
        before.insert(insertion_point(before, entries.last()), entries.last())
    }
}

/// Where an entry goes: everything from there on must stand behind it,
/// and what is just before it may stand before it.
pub proof fn insertion_point_splits(
    entries: Seq<FormattedLintOutputView>,
    entry: FormattedLintOutputView,
)
    ensures
        0 <= insertion_point(entries, entry) <= entries.len(),
        forall|k: int|
            insertion_point(entries, entry) <= k < entries.len() ==> !reads_before(
                #[trigger] entries[k],
                entry,
            ),
        insertion_point(entries, entry) > 0 ==> reads_before(
            entries[insertion_point(entries, entry) - 1],
            entry,
        ),
    decreases entries.len(),
{
    if entries.len() > 0 && !reads_before(entries.last(), entry) {
        insertion_point_splits(entries.drop_last(), entry);
        let p = insertion_point(entries, entry);
        assert forall|k: int| p <= k < entries.len() implies !reads_before(
            #[trigger] entries[k],
            entry,
        ) by {
            if k < entries.len() - 1 {
                assert(entries.drop_last()[k] == entries[k]);
            }
        }
        if p > 0 {
            assert(entries.drop_last()[p - 1] == entries[p - 1]);
        }
    }
}

/// Putting an entry at its insertion point keeps reading order.
pub proof fn insertion_keeps_order(
    entries: Seq<FormattedLintOutputView>,
    entry: FormattedLintOutputView,
)
    requires
        reading_ordered(entries),
    ensures
        reading_ordered(entries.insert(insertion_point(entries, entry), entry)),
{
    insertion_point_splits(entries, entry);
    let p = insertion_point(entries, entry);
    let after = entries.insert(p, entry);
    assert forall|i: int, j: int| 0 <= i < j < after.len() implies reads_before(
        #[trigger] after[i],
        #[trigger] after[j],
    ) by {
        if j < p {
            assert(after[i] == entries[i] && after[j] == entries[j]);
        } else if j == p {
            assert(after[i] == entries[i]);
            assert(reads_before(entries[p - 1], entry));
            if i < p - 1 {
                assert(reads_before(entries[i], entries[p - 1]));
            }
        } else if i < p {
            assert(after[i] == entries[i] && after[j] == entries[j - 1]);
        } else if i == p {
            assert(after[j] == entries[j - 1]);
            assert(!reads_before(entries[j - 1], entry));
        } else {
            assert(after[i] == entries[i - 1] && after[j] == entries[j - 1]);
        }
    }
}

/// Entries put in reading order are in reading order, and they are the
/// entries that were given: none is lost and none is added.
pub proof fn reading_order_is_ordered(entries: Seq<FormattedLintOutputView>)
    ensures
        reading_ordered(in_reading_order(entries)),
        in_reading_order(entries).len() == entries.len(),
        forall|entry: FormattedLintOutputView|
            in_reading_order(entries).contains(entry) == entries.contains(entry),
    decreases entries.len(),
{
    if entries.len() > 0 {
        let rest = entries.drop_last();
        reading_order_is_ordered(rest);
        let before = in_reading_order(rest);
        insertion_keeps_order(before, entries.last());
        insertion_point_splits(before, entries.last());
        let p = insertion_point(before, entries.last());
        let now = before.insert(p, entries.last());
        assert forall|entry: FormattedLintOutputView| now.contains(entry) == entries.contains(
            entry,
        ) by {
            if now.contains(entry) {
                let k = choose|k: int| 0 <= k < now.len() && now[k] == entry;
                if k == p {
                    assert(entries[entries.len() - 1] == entry);
                } else {
                    let b = if k < p {
                        k
                    } else {
                        k - 1
                    };
                    assert(before[b] == entry);
                    assert(before.contains(entry));
                    assert(in_reading_order(rest).contains(entry) == rest.contains(entry));
                    assert(rest.contains(entry));
                    let r = choose|r: int| 0 <= r < rest.len() && rest[r] == entry;
                    assert(entries[r] == entry);
                }
            }
            if entries.contains(entry) {
                let k = choose|k: int| 0 <= k < entries.len() && entries[k] == entry;
                if k == entries.len() - 1 {
                    assert(now[p] == entry);
                } else {
                    assert(rest[k] == entry);
                    assert(rest.contains(entry));
                    assert(in_reading_order(rest).contains(entry) == rest.contains(entry));
                    assert(before.contains(entry));
                    let b = choose|b: int| 0 <= b < before.len() && before[b] == entry;
                    if b < p {
                        assert(now[b] == entry);
                    } else {
                        assert(now[b + 1] == entry);
                    }
                }
            }
        }
    } else {
        assert forall|entry: FormattedLintOutputView|
            in_reading_order(entries).contains(entry) == entries.contains(entry) by {}
    }
}

/// Putting entries in reading order rearranges them: each is there as
/// often as it was given.
pub proof fn reading_order_is_a_rearrangement(entries: Seq<FormattedLintOutputView>)
    ensures
        in_reading_order(entries).to_multiset() == entries.to_multiset(),
    decreases entries.len(),
{
    broadcast use vstd::seq_lib::group_to_multiset_ensures;

    if entries.len() == 0 {
        assert(in_reading_order(entries) =~= entries);
    } else {
        let rest = entries.drop_last();
        reading_order_is_a_rearrangement(rest);
        reading_order_is_ordered(rest);
        let before = in_reading_order(rest);
        insertion_point_splits(before, entries.last());
        assert(rest.push(entries.last()) =~= entries);
        assert(entries.to_multiset() =~= rest.to_multiset().insert(entries.last()));
        assert(before.insert(insertion_point(before, entries.last()), entries.last()).to_multiset()
            =~= before.to_multiset().insert(entries.last()));
    }
}

/// Whether two entries lie in the same paragraph and share a character.
pub open spec fn entries_overlap(a: FormattedLintOutputView, b: FormattedLintOutputView) -> bool {
    a.paragraph_key == b.paragraph_key && a.start < b.end && a.end > b.start
}

/// No two of the entries overlap.
pub open spec fn entries_disjoint(entries: Seq<FormattedLintOutputView>) -> bool {
    forall|i: int, j: int|
        0 <= i < entries.len() && 0 <= j < entries.len() && i != j ==> !entries_overlap(
            #[trigger] entries[i],
            #[trigger] entries[j],
        )
}

/// Putting entries in reading order keeps them from overlapping.
pub proof fn reading_order_keeps_disjoint(entries: Seq<FormattedLintOutputView>)
    requires
        entries_disjoint(entries),
    ensures
        entries_disjoint(in_reading_order(entries)),
    decreases entries.len(),
{
    if entries.len() > 0 {
        let rest = entries.drop_last();
        let last = entries.last();
        assert(entries_disjoint(rest)) by {
            assert forall|i: int, j: int|
                0 <= i < rest.len() && 0 <= j < rest.len() && i != j implies !entries_overlap(
                #[trigger] rest[i],
                #[trigger] rest[j],
            ) by {
                assert(rest[i] == entries[i] && rest[j] == entries[j]);
            }
        }
        reading_order_keeps_disjoint(rest);
        reading_order_is_ordered(rest);
        let before = in_reading_order(rest);
        insertion_point_splits(before, last);
        let p = insertion_point(before, last);
        let now = before.insert(p, last);
        assert forall|i: int| 0 <= i < before.len() implies !entries_overlap(
            #[trigger] before[i],
            last,
        ) && !entries_overlap(last, before[i]) by {
            assert(before.contains(before[i]));
            assert(in_reading_order(rest).contains(before[i]) == rest.contains(before[i]));
            let r = choose|r: int| 0 <= r < rest.len() && rest[r] == before[i];
            assert(entries[r] == before[i]);
            assert(entries[entries.len() - 1] == last);
        }
        assert forall|i: int, j: int|
            0 <= i < now.len() && 0 <= j < now.len() && i != j implies !entries_overlap(
            #[trigger] now[i],
            #[trigger] now[j],
        ) by {
            let a = if i < p {
                i
            } else {
                i - 1
            };
            let b = if j < p {
                j
            } else {
                j - 1
            };
            if i == p {
                assert(now[j] == before[b]);
            } else if j == p {
                assert(now[i] == before[a]);
            } else {
                assert(now[i] == before[a] && now[j] == before[b]);
            }
        }
    }
}

/// What a report is ordered by: the number of the paragraph, then the
/// start within it.
pub fn reading_key(entry: &FormattedLintOutput) -> (key: (usize, usize))
    ensures
        key.0 == key_number(entry@.paragraph_key),
        key.1 == entry.start,
{
    let chars = chars_of(entry.paragraph_key.as_str());
    match parse_number(chars.as_slice()) {
        Some(number) => (number, entry.start),
        None => (0, entry.start),
    }
}

/// Put an entry where it belongs among entries in reading order.  `keys`
/// holds, for each entry, what it is ordered by.
fn insert_in_reading_order(
    entries: &mut Vec<FormattedLintOutput>,
    keys: &mut Vec<(usize, usize)>,
    entry: FormattedLintOutput,
)
    requires
        old(keys)@.len() == old(entries)@.len(),
        forall|i: int|
            0 <= i < old(entries)@.len() ==> (#[trigger] old(keys)@[i]).0 == key_number(
                old(entries)@[i]@.paragraph_key,
            ) && old(keys)@[i].1 == old(entries)@[i].start,
    ensures
        output_views(final(entries)@) == output_views(old(entries)@).insert(
            insertion_point(output_views(old(entries)@), entry@),
            entry@,
        ),
        final(keys)@.len() == final(entries)@.len(),
        forall|i: int|
            0 <= i < final(entries)@.len() ==> (#[trigger] final(keys)@[i]).0 == key_number(
                final(entries)@[i]@.paragraph_key,
            ) && final(keys)@[i].1 == final(entries)@[i].start,
{
    let key = reading_key(&entry);
    let ghost views = output_views(entries@);
    let mut p: usize = entries.len();
    assert(views.take(p as int) == views);
    while p > 0 && !(keys[p - 1].0 < key.0 || (keys[p - 1].0 == key.0 && keys[p - 1].1 <= key.1))
        invariant
            p <= entries@.len(),
            keys@.len() == entries@.len(),
            views == output_views(entries@),
            key.0 == key_number(entry@.paragraph_key),
            key.1 == entry.start,
            forall|i: int|
                0 <= i < entries@.len() ==> (#[trigger] keys@[i]).0 == key_number(
                    entries@[i]@.paragraph_key,
                ) && keys@[i].1 == entries@[i].start,
            insertion_point(views.take(p as int), entry@) == insertion_point(views, entry@),
        decreases p,
    {
        proof {
            assert(views.take(p as int).last() == views[p - 1]);
            assert(views.take(p as int).drop_last() == views.take(p - 1));
        }
        p -= 1;
    }
    proof {
        if p > 0 {
            assert(views.take(p as int).last() == views[p - 1]);
            assert(reads_before(views[p - 1], entry@));
        }
        assert(insertion_point(views.take(p as int), entry@) == p);
    }
    let ghost given = entries@;
    entries.insert(p, entry);
    keys.insert(p, key);
    assert(output_views(entries@) =~= views.insert(p as int, entry@)) by {
        assert forall|i: int| 0 <= i < entries@.len() implies output_views(entries@)[i]
            == views.insert(p as int, entry@)[i] by {
            if i < p {
                assert(entries@[i] == given[i]);
            } else if i > p {
                assert(entries@[i] == given[i - 1]);
            }
        }
    }
}

/// Put report entries in reading order: by the number of their paragraph,
/// then by where they begin; entries that tie keep their given order.
pub fn sort_in_reading_order(entries: Vec<FormattedLintOutput>) -> (sorted: Vec<
    FormattedLintOutput,
>)
    ensures
        output_views(sorted@) == in_reading_order(output_views(entries@)),
        reading_ordered(output_views(sorted@)),
        output_views(sorted@).to_multiset() == output_views(entries@).to_multiset(),
{
    let ghost given = entries@;
    let ghost views = output_views(entries@);
    let mut sorted: Vec<FormattedLintOutput> = Vec::new();
    let mut keys: Vec<(usize, usize)> = Vec::new();
    assert(output_views(sorted@) =~= Seq::<FormattedLintOutputView>::empty());
    for entry in it: entries
        invariant
            it.seq() == given,
            views == output_views(given),
            keys@.len() == sorted@.len(),
            forall|k: int|
                0 <= k < sorted@.len() ==> (#[trigger] keys@[k]).0 == key_number(
                    sorted@[k]@.paragraph_key,
                ) && keys@[k].1 == sorted@[k].start,
            output_views(sorted@) == in_reading_order(views.take(it.index() as int)),
    {
        proof {
            let k = it.index() as int;
            assert(views.take(k + 1).drop_last() == views.take(k));
            assert(views.take(k + 1).last() == entry@);
        }
        insert_in_reading_order(&mut sorted, &mut keys, entry);
    }
    proof {
        assert(views.take(given.len() as int) == views);
        reading_order_is_ordered(views);
        reading_order_is_a_rearrangement(views);
    }
    sorted
}

} // verus!
