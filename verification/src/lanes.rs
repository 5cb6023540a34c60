//! The tasks on display, in the order of their lanes: an insertion-ordered
//! map from a task's label to the time it has run, and the refresh that
//! brings it up to date with what the engine reports.
//!
//! The order of the lanes is the order in which the tasks came on display:
//! a task that stays keeps its place among those that stay, and a task that
//! is new comes after all of them.

use indexmap::IndexMap;
use vstd::prelude::*;

use crate::order::{
    lemma_position, lemma_position_is, lemma_position_parts, lemma_position_unique, position,
};
use crate::text::{lemma_table_names, names_of, same_text, table_of};

verus! {

/// `indexmap::IndexMap`. Nothing inside it is visible here: what a map
/// holds goes by `lane_entries`.
#[verifier::external_type_specification]
#[verifier::external_body]
#[verifier::reject_recursive_types(K)]
#[verifier::reject_recursive_types(V)]
#[verifier::reject_recursive_types(S)]
pub struct ExIndexMap<K, V, S>(IndexMap<K, V, S>);

/// What a map of tasks holds: each task's label and the milliseconds it
/// has run, or `None` while it waits, in the map's order.
pub uninterp spec fn lane_entries(map: IndexMap<String, Option<u128>>) -> Seq<
    (Seq<char>, Option<u128>),
>;

/// The labels of a list of tasks.
pub open spec fn keys_of(entries: Seq<(Seq<char>, Option<u128>)>) -> Seq<Seq<char>> {
    entries.map_values(|e: (Seq<char>, Option<u128>)| e.0)
}

/// A list of tasks after `key` was inserted with `value`: where the list
/// had the key, in its place, else at the end.
pub open spec fn inserted(
    entries: Seq<(Seq<char>, Option<u128>)>,
    key: Seq<char>,
    value: Option<u128>,
) -> Seq<(Seq<char>, Option<u128>)> {
    let at = position(keys_of(entries), key);
    if at < entries.len() {
        entries.update(at, (key, value))
    } else {
        entries.push((key, value))
    }
}

/// A list of tasks after `key` was removed: the tasks after it move up by
/// one place, in their order.
pub open spec fn shift_removed(entries: Seq<(Seq<char>, Option<u128>)>, key: Seq<char>) -> Seq<
    (Seq<char>, Option<u128>),
> {
    let at = position(keys_of(entries), key);
    if at < entries.len() {
        entries.remove(at)
    } else {
        entries
    }
}

/// The display after every task of `poll` was inserted, in order.
pub open spec fn merged(
    display: Seq<(Seq<char>, Option<u128>)>,
    poll: Seq<(Seq<char>, Option<u128>)>,
) -> Seq<(Seq<char>, Option<u128>)>
    decreases poll.len(),
{
    if poll.len() == 0 {
        display
    } else {
        inserted(merged(display, poll.drop_last()), poll.last().0, poll.last().1)
    }
}

/// The tasks of `entries` that `poll` has, in the order of `entries`.
pub open spec fn kept(
    entries: Seq<(Seq<char>, Option<u128>)>,
    poll: Seq<(Seq<char>, Option<u128>)>,
) -> Seq<(Seq<char>, Option<u128>)>
    decreases entries.len(),
{
    if entries.len() == 0 {
        entries
    } else if keys_of(poll).contains(entries.last().0) {
        kept(entries.drop_last(), poll).push(entries.last())
    } else {
        kept(entries.drop_last(), poll)
    }
}

/// The labels of `labels` that occur in `reported`, in the order of
/// `labels`.
pub open spec fn labels_kept(labels: Seq<Seq<char>>, reported: Seq<Seq<char>>) -> Seq<Seq<char>>
    decreases labels.len(),
{
    if labels.len() == 0 {
        labels
    } else if reported.contains(labels.last()) {
        labels_kept(labels.drop_last(), reported).push(labels.last())
    } else {
        labels_kept(labels.drop_last(), reported)
    }
}

/// The labels of `reported` that do not occur in `have`, each once, in the
/// order in which `reported` first has them.
pub open spec fn labels_new(have: Seq<Seq<char>>, reported: Seq<Seq<char>>) -> Seq<Seq<char>>
    decreases reported.len(),
{
    if reported.len() == 0 {
        reported
    } else {
        let before = labels_new(have, reported.drop_last());
        if have.contains(reported.last()) || before.contains(reported.last()) {
            before
        } else {
            before.push(reported.last())
        }
    }
}

/// Whether `a` is due to stand before `b` after a refresh: among the tasks
/// on display the one that stands first, a task on display before a new
/// one, and among the new ones the one that the report has first.
pub open spec fn stands_before(
    have: Seq<Seq<char>>,
    reported: Seq<Seq<char>>,
    a: Seq<char>,
    b: Seq<char>,
) -> bool {
    if have.contains(a) {
        !have.contains(b) || position(have, a) < position(have, b)
    } else {
        !have.contains(b) && position(reported, a) < position(reported, b)
    }
}

/// The display after one refresh: the tasks of `poll` merged in, and of
/// the result those that `poll` has, in their order.
pub open spec fn refreshed(
    display: Seq<(Seq<char>, Option<u128>)>,
    poll: Seq<(Seq<char>, Option<u128>)>,
) -> Seq<(Seq<char>, Option<u128>)> {
    kept(merged(display, poll), poll)
}

/// `IndexMap::new`: a map that holds nothing.
#[verifier::external_body]
pub(crate) fn lanes_new() -> (map: IndexMap<String, Option<u128>>)
    ensures
        lane_entries(map) == Seq::<(Seq<char>, Option<u128>)>::empty(),
{
    IndexMap::new()
}

/// `IndexMap::insert`: where the map has the key, the key keeps its place
/// and gets the new value; else the pair goes to the end.
#[verifier::external_body]
pub(crate) fn lanes_insert(
    map: &mut IndexMap<String, Option<u128>>,
    key: String,
    value: Option<u128>,
)
    ensures
        lane_entries(*final(map)) == inserted(lane_entries(*old(map)), key@, value),
{
    map.insert(key, value);
}

/// `IndexMap::shift_remove`: where the map has the key, its pair leaves and
/// the pairs after it move up, in their order; else the map stays as it is.
#[verifier::external_body]
pub(crate) fn lanes_shift_remove(map: &mut IndexMap<String, Option<u128>>, key: &str)
    ensures
        lane_entries(*final(map)) == shift_removed(lane_entries(*old(map)), key@),
{
    map.shift_remove(key);
}

/// A copy of the map's pairs in the map's order, by `IndexMap`'s `clone`
/// and `into_iter`.
#[verifier::external_body]
pub(crate) fn lanes_snapshot(map: &IndexMap<String, Option<u128>>) -> (pairs: Vec<
    (String, Option<u128>),
>)
    ensures
        names_of(pairs@) == lane_entries(*map),
{
    map.clone().into_iter().collect()
}

/// Whether `poll` reports a task labelled `task`.
pub fn reported(poll: &Vec<(String, Option<u128>)>, task: &str) -> (found: bool)
    ensures
        found == keys_of(names_of(poll@)).contains(task@),
{
    let mut i: usize = 0;
    while i < poll.len()
        invariant
            i <= poll.len(),
            forall|j: int| 0 <= j < i ==> keys_of(names_of(poll@))[j] != task@,
        decreases poll.len() - i,
    {
        if same_text(poll[i].0.as_str(), task) {
            assert(keys_of(names_of(poll@))[i as int] == task@);
            return true;
        }
        i += 1;
    }
    false
}

/// Brings the tasks on display up to date with `heavy_hitters`, the
/// engine's report of its busiest work.
///
/// Every reported task is inserted: one on display already keeps its lane
/// and takes the reported time, a new one comes last. Then every task that
/// the report lacks is removed, and the tasks after it move up.
pub fn refresh(
    tasks_to_display: &mut IndexMap<String, Option<u128>>,
    heavy_hitters: &Vec<(String, Option<u128>)>,
)
    requires
        keys_of(lane_entries(*old(tasks_to_display))).no_duplicates(),
    ensures
        lane_entries(*final(tasks_to_display)) == refreshed(
            lane_entries(*old(tasks_to_display)),
            names_of(heavy_hitters@),
        ),
        keys_of(lane_entries(*final(tasks_to_display))).no_duplicates(),
{
    let ghost display = lane_entries(*tasks_to_display);
    let ghost poll = names_of(heavy_hitters@);
    let mut i: usize = 0;
    while i < heavy_hitters.len()
        invariant
            i <= heavy_hitters.len(),
            poll == names_of(heavy_hitters@),
            lane_entries(*tasks_to_display) == merged(display, poll.take(i as int)),
        decreases heavy_hitters.len() - i,
    {
        assert(poll.take(i + 1).drop_last() =~= poll.take(i as int));
        lanes_insert(tasks_to_display, heavy_hitters[i].0.clone(), heavy_hitters[i].1);
        i += 1;
    }
    assert(poll.take(i as int) =~= poll);
    let seen = lanes_snapshot(tasks_to_display);
    let ghost all = merged(display, poll);
    proof {
        lemma_merged(display, poll);
        lemma_refreshed(display, poll);
        assert(kept(all.take(0), poll) + all.skip(0) =~= all);
    }
    let mut j: usize = 0;
    while j < seen.len()
        invariant
            j <= seen.len(),
            poll == names_of(heavy_hitters@),
            all == names_of(seen@),
            keys_of(all).no_duplicates(),
            lane_entries(*tasks_to_display) == kept(all.take(j as int), poll) + all.skip(j as int),
        decreases seen.len() - j,
    {
        let ghost before = kept(all.take(j as int), poll);
        proof {
            assert(all.take(j + 1).drop_last() =~= all.take(j as int));
            assert(all.take(j + 1).last() == all[j as int]);
        }
        if !reported(heavy_hitters, seen[j].0.as_str()) {
            proof {
                lemma_kept_entries(all.take(j as int), poll);
                let entries = before + all.skip(j as int);
                assert(entries[before.len() as int] == all[j as int]);
                assert forall|k: int| 0 <= k < before.len() implies keys_of(entries)[k]
                    != all[j as int].0 by {
                    assert(all.take(j as int).contains(before[k]));
                    let from = choose|from: int|
                        0 <= from < j && all.take(j as int)[from] == before[k];
                    assert(keys_of(all)[from] == before[k].0);
                    assert(keys_of(all)[j as int] == all[j as int].0);
                }
                lemma_position_is(keys_of(entries), all[j as int].0, before.len() as int);
                assert(entries.remove(before.len() as int) =~= before + all.skip(j + 1));
            }
            lanes_shift_remove(tasks_to_display, seen[j].0.as_str());
        } else {
            assert(before.push(all[j as int]) + all.skip(j + 1) =~= before + all.skip(j as int));
        }
        j += 1;
    }
    assert(kept(all.take(j as int), poll) + all.skip(j as int) =~= kept(all, poll)) by {
        assert(all.take(j as int) =~= all);
    }
}

/// The time shown for each task on display, by label.
pub open spec fn times_of(entries: Seq<(Seq<char>, Option<u128>)>) -> Map<
    Seq<char>,
    Option<u128>,
> {
    Map::new(
        |key: Seq<char>| keys_of(entries).contains(key),
        |key: Seq<char>| entries[position(keys_of(entries), key)].1,
    )
}

/// Inserting keeps the labels distinct and every task in its lane, and
/// sets the time of the inserted task alone.
pub proof fn lemma_inserted(
    entries: Seq<(Seq<char>, Option<u128>)>,
    key: Seq<char>,
    value: Option<u128>,
)
    requires
        keys_of(entries).no_duplicates(),
    ensures
        keys_of(inserted(entries, key, value)).no_duplicates(),
        times_of(inserted(entries, key, value)) == times_of(entries).insert(key, value),
        forall|other: Seq<char>| #[trigger]
            keys_of(entries).contains(other) ==> position(
                keys_of(inserted(entries, key, value)),
                other,
            ) == position(keys_of(entries), other),
{
    let keys = keys_of(entries);
    let after = inserted(entries, key, value);
    let at = position(keys, key);
    lemma_position(keys, key);
    if at < entries.len() {
        assert(keys_of(after) =~= keys);
    } else {
        assert(keys_of(after) =~= keys.push(key));
        assert forall|other: Seq<char>| #[trigger] keys.contains(other) implies position(
            keys_of(after),
            other,
        ) == position(keys, other) by {
            lemma_position(keys, other);
            lemma_position_is(keys_of(after), other, position(keys, other));
        }
        lemma_position_is(keys_of(after), key, at);
        assert forall|other: Seq<char>| keys.contains(other) implies keys_of(after).contains(
            other,
        ) by {
            let i = choose|i: int| 0 <= i < keys.len() && keys[i] == other;
            assert(keys_of(after)[i] == other);
        }
    }
    assert forall|other: Seq<char>|
        times_of(entries).insert(key, value).contains_key(other) implies #[trigger] times_of(
        after,
    )[other] == times_of(entries).insert(key, value)[other] by {
        if other != key {
            lemma_position(keys, other);
        }
    }
}

/// Merging a report keeps the labels distinct and every task that was on
/// display in its lane, and sets the times as the report gives them.
pub proof fn lemma_merged(
    display: Seq<(Seq<char>, Option<u128>)>,
    poll: Seq<(Seq<char>, Option<u128>)>,
)
    requires
        keys_of(display).no_duplicates(),
    ensures
        keys_of(merged(display, poll)).no_duplicates(),
        times_of(merged(display, poll)) == times_of(display).union_prefer_right(table_of(poll)),
        forall|key: Seq<char>| #[trigger]
            keys_of(display).contains(key) ==> position(keys_of(merged(display, poll)), key)
                == position(keys_of(display), key),
    decreases poll.len(),
{
    if poll.len() > 0 {
        let before = merged(display, poll.drop_last());
        lemma_merged(display, poll.drop_last());
        lemma_inserted(before, poll.last().0, poll.last().1);
        assert forall|key: Seq<char>| #[trigger] keys_of(display).contains(key) implies keys_of(
            before,
        ).contains(key) by {
            assert(times_of(before).contains_key(key));
        }
    }
}

/// The labels of a merged display: those that were on display, in their
/// order, then the new ones in the order in which the report first has
/// them.
pub proof fn lemma_merged_labels(
    display: Seq<(Seq<char>, Option<u128>)>,
    poll: Seq<(Seq<char>, Option<u128>)>,
)
    ensures
        keys_of(merged(display, poll)) == keys_of(display) + labels_new(
            keys_of(display),
            keys_of(poll),
        ),
    decreases poll.len(),
{
    if poll.len() > 0 {
        let rest = poll.drop_last();
        let before = merged(display, rest);
        let key = poll.last().0;
        lemma_merged_labels(display, rest);
        lemma_position(keys_of(before), key);
        assert(keys_of(poll).drop_last() =~= keys_of(rest));
        assert(keys_of(poll).last() == key);
        let have = keys_of(display);
        let fresh = labels_new(have, keys_of(rest));
        assert(keys_of(before).contains(key) <==> have.contains(key) || fresh.contains(key)) by {
            if keys_of(before).contains(key) {
                let i = choose|i: int| 0 <= i < keys_of(before).len() && keys_of(before)[i] == key;
                if i < have.len() {
                    assert(have[i] == key);
                } else {
                    assert(fresh[i - have.len()] == key);
                }
            }
            if have.contains(key) {
                let i = choose|i: int| 0 <= i < have.len() && have[i] == key;
                assert(keys_of(before)[i] == key);
            }
            if fresh.contains(key) {
                let i = choose|i: int| 0 <= i < fresh.len() && fresh[i] == key;
                assert(keys_of(before)[have.len() + i] == key);
            }
        }
        let after = merged(display, poll);
        if keys_of(before).contains(key) {
            assert(keys_of(after) =~= keys_of(before));
            assert(labels_new(have, keys_of(poll)) == fresh);
        } else {
            assert(keys_of(after) =~= keys_of(before).push(key));
            assert(labels_new(have, keys_of(poll)) == fresh.push(key));
            assert(keys_of(after) =~= have + fresh.push(key));
        }
    } else {
        assert(keys_of(display) + labels_new(keys_of(display), keys_of(poll)) =~= keys_of(
            display,
        ));
    }
}

/// What is kept is part of the list, in the report, and all of the list
/// that the report has.
pub proof fn lemma_kept_entries(
    entries: Seq<(Seq<char>, Option<u128>)>,
    poll: Seq<(Seq<char>, Option<u128>)>,
)
    ensures
        kept(entries, poll).len() <= entries.len(),
        forall|i: int|
            0 <= i < kept(entries, poll).len() ==> entries.contains(
                #[trigger] kept(entries, poll)[i],
            ) && keys_of(poll).contains(kept(entries, poll)[i].0),
        forall|i: int|
            0 <= i < entries.len() && keys_of(poll).contains(entries[i].0) ==> kept(
                entries,
                poll,
            ).contains(#[trigger] entries[i]),
        keys_of(kept(entries, poll)) == labels_kept(keys_of(entries), keys_of(poll)),
    decreases entries.len(),
{
    if entries.len() > 0 {
        let rest = entries.drop_last();
        let last = entries.last();
        let some = kept(entries, poll);
        lemma_kept_entries(rest, poll);
        assert(keys_of(entries).drop_last() =~= keys_of(rest));
        assert(keys_of(entries).last() == last.0);
        assert forall|i: int| 0 <= i < some.len() implies entries.contains(#[trigger] some[i])
            && keys_of(poll).contains(some[i].0) by {
            if i < kept(rest, poll).len() {
                let from = choose|from: int| 0 <= from < rest.len() && rest[from] == kept(
                    rest,
                    poll,
                )[i];
                assert(entries[from] == some[i]);
            } else {
                assert(entries[entries.len() - 1] == some[i]);
            }
        }
        assert forall|i: int|
            0 <= i < entries.len() && keys_of(poll).contains(entries[i].0) implies some.contains(
            #[trigger] entries[i],
        ) by {
            if i < rest.len() {
                assert(kept(rest, poll).contains(rest[i]));
                let at = choose|at: int| 0 <= at < kept(rest, poll).len() && kept(rest, poll)[at]
                    == rest[i];
                assert(some[at] == entries[i]);
            } else {
                assert(some[some.len() - 1] == entries[i]);
            }
        }
        assert(keys_of(some) =~= labels_kept(keys_of(entries), keys_of(poll)));
    } else {
        assert(keys_of(kept(entries, poll)) =~= labels_kept(keys_of(entries), keys_of(poll)));
    }
}

/// Of distinct labels those that are kept are distinct, they are the
/// labels that the report has, and none stands later than it stood.
pub proof fn lemma_labels_kept(labels: Seq<Seq<char>>, reported: Seq<Seq<char>>)
    requires
        labels.no_duplicates(),
    ensures
        labels_kept(labels, reported).no_duplicates(),
        labels_kept(labels, reported).len() <= labels.len(),
        forall|key: Seq<char>|
            labels_kept(labels, reported).contains(key) <==> labels.contains(key)
                && reported.contains(key),
        forall|key: Seq<char>| #[trigger]
            labels_kept(labels, reported).contains(key) ==> position(
                labels_kept(labels, reported),
                key,
            ) <= position(labels, key),
        forall|a: Seq<char>, b: Seq<char>|
            #![trigger position(labels_kept(labels, reported), a), position(labels_kept(labels, reported), b)]
            labels_kept(labels, reported).contains(a) && labels_kept(labels, reported).contains(b)
                && position(labels, a) < position(labels, b) ==> position(
                labels_kept(labels, reported),
                a,
            ) < position(labels_kept(labels, reported), b),
    decreases labels.len(),
{
    if labels.len() > 0 {
        let rest = labels.drop_last();
        let last = labels.last();
        let some = labels_kept(labels, reported);
        let before = labels_kept(rest, reported);
        lemma_labels_kept(rest, reported);
        assert(!rest.contains(last)) by {
            if rest.contains(last) {
                let i = choose|i: int| 0 <= i < rest.len() && rest[i] == last;
                assert(labels[i] == labels[labels.len() - 1]);
            }
        }
        assert forall|key: Seq<char>| labels.contains(key) <==> rest.contains(key) || key
            == last by {
            if labels.contains(key) {
                let i = choose|i: int| 0 <= i < labels.len() && labels[i] == key;
                if i < rest.len() {
                    assert(rest[i] == key);
                }
            }
            if rest.contains(key) {
                let i = choose|i: int| 0 <= i < rest.len() && rest[i] == key;
                assert(labels[i] == key);
            }
            assert(labels[labels.len() - 1] == last);
        }
        assert forall|key: Seq<char>| some.contains(key) <==> before.contains(key) || (key == last
            && reported.contains(last)) by {
            if some.contains(key) {
                let i = choose|i: int| 0 <= i < some.len() && some[i] == key;
                if i < before.len() {
                    assert(before[i] == key);
                }
            }
            if before.contains(key) {
                let i = choose|i: int| 0 <= i < before.len() && before[i] == key;
                assert(some[i] == key);
            }
            if reported.contains(last) {
                assert(some[some.len() - 1] == last);
            }
        }
        assert forall|key: Seq<char>| #[trigger] some.contains(key) implies position(some, key)
            <= position(labels, key) by {
            lemma_position(some, key);
            lemma_position(rest, key);
            lemma_position(before, key);
            if before.contains(key) {
                lemma_position_is(labels, key, position(rest, key));
            } else {
                lemma_position_is(labels, key, labels.len() - 1);
            }
        }
        assert(labels =~= rest + seq![last]);
        assert forall|a: Seq<char>, b: Seq<char>|
            #![trigger position(some, a), position(some, b)]
            some.contains(a) && some.contains(b) && position(labels, a) < position(
                labels,
                b,
            ) implies position(some, a) < position(some, b) by {
            lemma_position_parts(rest, seq![last], a);
            lemma_position_parts(rest, seq![last], b);
            lemma_position(before, a);
            lemma_position(rest, b);
            if reported.contains(last) {
                assert(some =~= before + seq![last]);
                lemma_position_parts(before, seq![last], a);
                lemma_position_parts(before, seq![last], b);
            }
        }
    }
}

/// Keeping goes through a list part by part, and keeps all of a part that
/// the report has throughout.
pub proof fn lemma_labels_kept_parts(
    first: Seq<Seq<char>>,
    second: Seq<Seq<char>>,
    reported: Seq<Seq<char>>,
)
    ensures
        labels_kept(first + second, reported) == labels_kept(first, reported) + labels_kept(
            second,
            reported,
        ),
        (forall|i: int| 0 <= i < second.len() ==> reported.contains(second[i])) ==> labels_kept(
            second,
            reported,
        ) == second,
    decreases second.len(),
{
    if second.len() > 0 {
        lemma_labels_kept_parts(first, second.drop_last(), reported);
        assert((first + second).drop_last() =~= first + second.drop_last());
        assert((first + second).last() == second.last());
        assert(labels_kept(first + second, reported) =~= labels_kept(first, reported)
            + labels_kept(second, reported));
        if forall|i: int| 0 <= i < second.len() ==> reported.contains(second[i]) {
            assert forall|i: int| 0 <= i < second.drop_last().len() implies reported.contains(
                second.drop_last()[i],
            ) by {
                assert(second.drop_last()[i] == second[i]);
            }
            assert(reported.contains(second[second.len() - 1]));
            assert(labels_kept(second, reported) =~= second);
        }
    } else {
        assert(first + second =~= first);
        assert(labels_kept(first, reported) + labels_kept(second, reported) =~= labels_kept(
            first,
            reported,
        ));
    }
}

/// The new labels are the labels of the report that were not there,
/// each once, and they stand in the order in which the report first has
/// them.
pub proof fn lemma_labels_new(have: Seq<Seq<char>>, reported: Seq<Seq<char>>)
    ensures
        labels_new(have, reported).no_duplicates(),
        forall|key: Seq<char>|
            labels_new(have, reported).contains(key) <==> reported.contains(key) && !have.contains(
                key,
            ),
        forall|i: int|
            0 <= i < labels_new(have, reported).len() ==> reported.contains(
                #[trigger] labels_new(have, reported)[i],
            ),
        forall|a: Seq<char>, b: Seq<char>|
            #![trigger position(labels_new(have, reported), a), position(labels_new(have, reported), b)]
            labels_new(have, reported).contains(a) && labels_new(have, reported).contains(b)
                && position(reported, a) < position(reported, b) ==> position(
                labels_new(have, reported),
                a,
            ) < position(labels_new(have, reported), b),
    decreases reported.len(),
{
    if reported.len() > 0 {
        let rest = reported.drop_last();
        let last = reported.last();
        let fresh = labels_new(have, reported);
        let before = labels_new(have, rest);
        lemma_labels_new(have, rest);
        assert(reported =~= rest + seq![last]);
        assert(seq![last][0] == last);
        assert forall|key: Seq<char>| fresh.contains(key) <==> reported.contains(key)
            && !have.contains(key) by {
            lemma_position_parts(rest, seq![last], key);
            if fresh != before {
                assert(fresh =~= before + seq![last]);
                lemma_position_parts(before, seq![last], key);
            }
        }
        assert forall|i: int| 0 <= i < fresh.len() implies reported.contains(
            #[trigger] fresh[i],
        ) by {
            assert(fresh.contains(fresh[i]));
        }
        assert(fresh.no_duplicates()) by {
            if fresh != before {
                assert forall|i: int, j: int|
                    0 <= i < fresh.len() && 0 <= j < fresh.len() && i != j implies fresh[i]
                    != fresh[j] by {
                    if i < before.len() {
                        assert(before.contains(before[i]));
                    }
                    if j < before.len() {
                        assert(before.contains(before[j]));
                    }
                }
            }
        }
        assert forall|a: Seq<char>, b: Seq<char>|
            #![trigger position(fresh, a), position(fresh, b)]
            fresh.contains(a) && fresh.contains(b) && position(reported, a) < position(
                reported,
                b,
            ) implies position(fresh, a) < position(fresh, b) by {
            lemma_position_parts(rest, seq![last], a);
            lemma_position_parts(rest, seq![last], b);
            lemma_position(before, a);
            lemma_position(rest, b);
            if fresh != before {
                assert(fresh =~= before + seq![last]);
                lemma_position_parts(before, seq![last], a);
                lemma_position_parts(before, seq![last], b);
            }
        }
    }
}

/// After a refresh the display holds the reported tasks and no others,
/// each once and with the time last reported for it, and it has no more
/// lanes than the report has entries. The tasks that stayed stand first,
/// in the order in which they stood, and none of them in a later lane than
/// before; the new ones follow, in the order in which the report first has
/// them.
pub proof fn lemma_refreshed(
    display: Seq<(Seq<char>, Option<u128>)>,
    poll: Seq<(Seq<char>, Option<u128>)>,
)
    requires
        keys_of(display).no_duplicates(),
    ensures
        keys_of(refreshed(display, poll)).no_duplicates(),
        times_of(refreshed(display, poll)) == table_of(poll),
        forall|key: Seq<char>|
            keys_of(refreshed(display, poll)).contains(key) <==> keys_of(poll).contains(key),
        refreshed(display, poll).len() <= poll.len(),
        keys_of(refreshed(display, poll)) == labels_kept(keys_of(display), keys_of(poll))
            + labels_new(keys_of(display), keys_of(poll)),
        forall|key: Seq<char>| #[trigger]
            keys_of(display).contains(key) && keys_of(poll).contains(key) ==> position(
                keys_of(refreshed(display, poll)),
                key,
            ) <= position(keys_of(display), key),
        forall|a: Seq<char>, b: Seq<char>|
            #![trigger position(keys_of(refreshed(display, poll)), a), position(keys_of(refreshed(display, poll)), b)]
            keys_of(poll).contains(a) && keys_of(poll).contains(b) && stands_before(
                keys_of(display),
                keys_of(poll),
                a,
                b,
            ) ==> position(keys_of(refreshed(display, poll)), a) < position(
                keys_of(refreshed(display, poll)),
                b,
            ),
{
    let all = merged(display, poll);
    let after = refreshed(display, poll);
    let have = keys_of(display);
    let fresh = labels_new(have, keys_of(poll));
    lemma_labels_kept(have, keys_of(poll));
    assert forall|a: Seq<char>, b: Seq<char>|
        #![trigger position(keys_of(after), a), position(keys_of(after), b)]
        keys_of(poll).contains(a) && keys_of(poll).contains(b) && stands_before(
            have,
            keys_of(poll),
            a,
            b,
        ) implies position(labels_kept(have, keys_of(poll)) + fresh, a) < position(
        labels_kept(have, keys_of(poll)) + fresh,
        b,
    ) by {
        let stay = labels_kept(have, keys_of(poll));
        lemma_labels_new(have, keys_of(poll));
        lemma_position_parts(stay, fresh, a);
        lemma_position_parts(stay, fresh, b);
        lemma_position(stay, a);
        lemma_position(fresh, b);
    }
    lemma_merged(display, poll);
    lemma_merged_labels(display, poll);
    lemma_kept_entries(all, poll);
    lemma_labels_kept(keys_of(all), keys_of(poll));
    lemma_labels_new(have, keys_of(poll));
    lemma_labels_kept_parts(have, fresh, keys_of(poll));
    assert forall|key: Seq<char>| table_of(poll).contains_key(key) <==> keys_of(poll).contains(
        key,
    ) by {
        lemma_table_names(poll, key);
        if table_of(poll).contains_key(key) {
            let i = choose|i: int| 0 <= i < poll.len() && (#[trigger] poll[i]).0 == key;
            assert(keys_of(poll)[i] == key);
        }
    }
    assert forall|key: Seq<char>| keys_of(after).contains(key) <==> keys_of(poll).contains(
        key,
    ) by {
        assert(times_of(all).contains_key(key) <==> keys_of(all).contains(key));
    }
    assert forall|key: Seq<char>| keys_of(after).contains(key) implies #[trigger] times_of(
        after,
    )[key] == table_of(poll)[key] by {
        let at = position(keys_of(after), key);
        lemma_position(keys_of(after), key);
        assert(all.contains(after[at]));
        let from = choose|from: int| 0 <= from < all.len() && all[from] == after[at];
        assert(keys_of(all)[from] == key);
        lemma_position_unique(keys_of(all), from);
        assert(times_of(all)[key] == all[from].1);
    }
    assert(times_of(after) =~= table_of(poll));
    assert forall|key: Seq<char>| #[trigger]
        keys_of(display).contains(key) && keys_of(poll).contains(key) implies position(
        keys_of(after),
        key,
    ) <= position(keys_of(display), key) by {
        assert(keys_of(after).contains(key));
    }
    assert(after.len() <= poll.len()) by {
        broadcast use vstd::seq_lib::seq_to_set_is_finite;

        keys_of(after).unique_seq_to_set();
        keys_of(poll).lemma_cardinality_of_set();
        assert(keys_of(after).to_set().subset_of(keys_of(poll).to_set()));
        vstd::set_lib::lemma_len_subset(keys_of(after).to_set(), keys_of(poll).to_set());
    }
}

/// While the report has every task on display, every task keeps its lane:
/// the tasks that are new come after them.
pub proof fn lemma_refreshed_keeps_lanes(
    display: Seq<(Seq<char>, Option<u128>)>,
    poll: Seq<(Seq<char>, Option<u128>)>,
)
    requires
        keys_of(display).no_duplicates(),
        forall|key: Seq<char>| keys_of(display).contains(key) ==> keys_of(poll).contains(key),
    ensures
        refreshed(display, poll).len() >= display.len(),
        forall|lane: int|
            0 <= lane < display.len() ==> (#[trigger] refreshed(display, poll)[lane]).0
                == display[lane].0,
{
    let after = refreshed(display, poll);
    let have = keys_of(display);
    lemma_refreshed(display, poll);
    assert forall|i: int| 0 <= i < have.len() implies keys_of(poll).contains(have[i]) by {
        assert(have.contains(have[i]));
    }
    lemma_labels_kept_parts(Seq::empty(), have, keys_of(poll));
    assert(keys_of(after).len() >= have.len());
    assert forall|lane: int| 0 <= lane < display.len() implies (#[trigger] after[lane]).0
        == display[lane].0 by {
        assert(keys_of(after)[lane] == have[lane]);
    }
}

} // verus!
