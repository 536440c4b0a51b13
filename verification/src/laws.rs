//! What holds of the ledger over any course of logged moods and deletions.

use vstd::prelude::*;
use crate::model::{
    apply, entries_between, entries_since_delete, global_count, has_room, history_entry,
    history_window, known_counts, known_moods, latest_entry, leader, leads, logged, logs_in,
    logs_of_mood, mood_count, mood_stats, most_popular, next_entry, purged, replay, user_count,
    well_formed, window_start, EntryView, Event, Store,
};

verus! {

/// Two moods logged one after the other get consecutive numbers, whoever
/// logs them and whatever their categories.
pub proof fn lemma_entry_ids_consecutive(store: Store, first: Event, second: Event)
    requires
        first is Logged,
        second is Logged,
        global_count(store) + 2 <= u64::MAX,
    ensures
        ({
            let after = apply(store, first);
            let one = next_entry(
                store,
                first->mood,
                first->message,
                first->is_anonymous,
                first->timestamp,
            );
            let two = next_entry(
                after,
                second->mood,
                second->message,
                second->is_anonymous,
                second->timestamp,
            );
            &&& latest_entry(after, first->Logged_user) == Some(one)
            &&& latest_entry(apply(after, second), second->Logged_user) == Some(two)
            &&& two.entry_id == one.entry_id + 1
        }),
{
}

/// The ledger-wide counter goes up by one with every logged mood and stays
/// where it is with every deletion: it counts the moods ever logged.
pub proof fn lemma_global_count_counts_logs(store: Store, events: Seq<Event>)
    requires
        global_count(store) + logs_in(events) <= u64::MAX,
    ensures
        global_count(replay(store, events)) == global_count(store) + logs_in(events),
    decreases events.len(),
{
    if events.len() > 0 {
        lemma_global_count_counts_logs(store, events.drop_last());
    }
}

/// The count of a mood category goes up by one with every mood logged in it,
/// by whichever user, and no deletion takes anything from it.
pub proof fn lemma_mood_count_counts_logs(store: Store, events: Seq<Event>, mood: Seq<char>)
    requires
        mood_count(store, mood) + logs_of_mood(events, mood) <= u64::MAX,
    ensures
        mood_count(replay(store, events), mood) == mood_count(store, mood) + logs_of_mood(
            events,
            mood,
        ),
    decreases events.len(),
{
    if events.len() > 0 {
        lemma_mood_count_counts_logs(store, events.drop_last(), mood);
    }
}

/// Deleting a user's data empties the user's latest entry, counter and
/// history, and leaves the ledger-wide counter, every category count and
/// every other user's data as they were.
pub proof fn lemma_delete_clears_only_the_user(store: Store, user: Seq<char>)
    ensures
        latest_entry(purged(store, user), user) is None,
        user_count(purged(store, user), user) == 0,
        forall|index: u64|
            index < user_count(store, user) ==> #[trigger] history_entry(
                purged(store, user),
                user,
                index,
            ) is None,
        global_count(purged(store, user)) == global_count(store),
        forall|mood: Seq<char>| #[trigger]
            mood_stats(purged(store, user), mood) == mood_stats(store, mood),
        forall|other: Seq<char>|
            other != user ==> #[trigger] user_count(purged(store, user), other) == user_count(
                store,
                other,
            ),
        forall|other: Seq<char>|
            other != user ==> #[trigger] latest_entry(purged(store, user), other) == latest_entry(
                store,
                other,
            ),
        forall|other: Seq<char>, index: u64|
            other != user ==> #[trigger] history_entry(purged(store, user), other, index)
                == history_entry(store, other, index),
{
}

/// A user cannot have logged more entries since the last deletion than
/// moods were logged at all.
pub proof fn lemma_entries_bounded_by_logs(store: Store, events: Seq<Event>, user: Seq<char>)
    ensures
        entries_since_delete(store, events, user).len() <= logs_in(events),
    decreases events.len(),
{
    if events.len() > 0 {
        lemma_entries_bounded_by_logs(store, events.drop_last(), user);
    }
}

/// Where a user's history holds `entries` at the indices from zero, reading
/// the indices from `lo` up to `hi` gives that part of `entries`.
pub proof fn lemma_entries_between_full(
    store: Store,
    user: Seq<char>,
    entries: Seq<EntryView>,
    lo: u64,
    hi: u64,
)
    requires
        lo <= hi <= entries.len(),
        forall|j: int|
            0 <= j < entries.len() ==> history_entry(store, user, j as u64) == Some(
                #[trigger] entries[j],
            ),
    ensures
        entries_between(store, user, lo, hi) == entries.subrange(lo as int, hi as int),
    decreases hi,
{
    if lo < hi {
        let before = (hi - 1) as u64;
        lemma_entries_between_full(store, user, entries, lo, before);
        assert(history_entry(store, user, before) == Some(entries[before as int]));
        assert(entries.subrange(lo as int, hi as int) =~= entries.subrange(
            lo as int,
            before as int,
        ).push(entries[before as int]));
    } else {
        assert(entries.subrange(lo as int, hi as int) =~= Seq::<EntryView>::empty());
    }
}

/// A user who starts with nothing has, after any course of logged moods and
/// deletions, as many entries as the user logged since the user's data was
/// last deleted; the history holds them in the order of logging, each with
/// the fields it was logged with; the latest entry is the last of them; and
/// a history read returns the last ten of them, or all where there are
/// fewer, oldest first.
pub proof fn lemma_history_follows_logs(store: Store, events: Seq<Event>, user: Seq<char>)
    requires
        user_count(store, user) == 0,
        global_count(store) + logs_in(events) <= u64::MAX,
    ensures
        ({
            let after = replay(store, events);
            let entries = entries_since_delete(store, events, user);
            let shown = if entries.len() > 10 {
                10
            } else {
                entries.len() as int
            };
            &&& user_count(after, user) == entries.len()
            &&& forall|j: int|
                0 <= j < entries.len() ==> history_entry(after, user, j as u64) == Some(
                    #[trigger] entries[j],
                )
            &&& entries.len() > 0 ==> latest_entry(after, user) == Some(entries.last())
            &&& history_window(after, user) == entries.subrange(
                entries.len() - shown,
                entries.len() as int,
            )
        }),
    decreases events.len(),
{
    let after = replay(store, events);
    let entries = entries_since_delete(store, events, user);
    if events.len() > 0 {
        let init = events.drop_last();
        let before = replay(store, init);
        let earlier = entries_since_delete(store, init, user);
        lemma_history_follows_logs(store, init, user);
        lemma_entries_bounded_by_logs(store, init, user);
        lemma_global_count_counts_logs(store, init);
        match events.last() {
            Event::Logged { user: who, mood, message, is_anonymous, timestamp } => {
                if who == user {
                    assert forall|j: int| 0 <= j < entries.len() implies history_entry(
                        after,
                        user,
                        j as u64,
                    ) == Some(#[trigger] entries[j]) by {
                        if j < earlier.len() {
                            assert(entries[j] == earlier[j]);
                        }
                    }
                } else {
                    assert forall|j: int| 0 <= j < entries.len() implies history_entry(
                        after,
                        user,
                        j as u64,
                    ) == Some(#[trigger] entries[j]) by {
                        assert(entries[j] == earlier[j]);
                    }
                }
            },
            Event::Deleted { user: who } => {
                if who != user {
                    assert forall|j: int| 0 <= j < entries.len() implies history_entry(
                        after,
                        user,
                        j as u64,
                    ) == Some(#[trigger] entries[j]) by {
                        assert(entries[j] == earlier[j]);
                    }
                }
            },
        }
    }
    let count = user_count(after, user);
    lemma_entries_between_full(after, user, entries, window_start(count), count);
}

/// Some position leads any counts that are not empty.
pub proof fn lemma_leader_exists(counts: Seq<u64>)
    requires
        counts.len() > 0,
    ensures
        leads(counts, leader(counts)),
    decreases counts.len(),
{
    if counts.len() == 1 {
        assert(leads(counts, 0));
    } else {
        let init = counts.drop_last();
        lemma_leader_exists(init);
        let j = leader(init);
        let last = counts.len() - 1;
        if counts[last] > counts[j] {
            assert forall|k: int| 0 <= k < last implies counts[k] < counts[last] by {
                assert(init[k] <= init[j]);
            }
            assert(leads(counts, last));
        } else {
            assert forall|k: int| 0 <= k < counts.len() implies counts[k] <= counts[j] by {
                if k < last {
                    assert(init[k] <= init[j]);
                }
            }
            assert forall|k: int| 0 <= k < j implies counts[k] < counts[j] by {
                assert(init[k] < init[j]);
            }
            assert(leads(counts, j));
        }
    }
}

/// The most popular mood is one of the five known categories; none of them
/// has a greater count, and none that stands before it has as great a one.
/// Where no known category was ever logged it is the first.
pub proof fn lemma_most_popular_is_first_greatest(store: Store)
    ensures
        ({
            let counts = known_counts(store);
            let j = leader(counts);
            &&& 0 <= j < 5
            &&& most_popular(store) == known_moods()[j]
            &&& forall|k: int| 0 <= k < 5 ==> mood_count(store, known_moods()[k]) <= counts[j]
            &&& forall|k: int| 0 <= k < j ==> mood_count(store, known_moods()[k]) < counts[j]
            &&& (forall|k: int| 0 <= k < 5 ==> mood_count(store, #[trigger] known_moods()[k]) == 0)
                ==> j == 0
        }),
{
    let counts = known_counts(store);
    lemma_leader_exists(counts);
    let j = leader(counts);
    assert forall|k: int| 0 <= k < 5 implies mood_count(store, known_moods()[k])
        <= counts[j] by {
        assert(counts[k] <= counts[j]);
    }
    assert forall|k: int| 0 <= k < j implies mood_count(store, known_moods()[k]) < counts[j] by {
        assert(counts[k] < counts[j]);
    }
    if forall|k: int| 0 <= k < 5 ==> mood_count(store, #[trigger] known_moods()[k]) == 0 {
        if j > 0 {
            assert(counts[0] < counts[j]);
            assert(mood_count(store, known_moods()[j]) == 0);
        }
    }
}

/// The most popular mood is read from the counts of the five known
/// categories alone: two stores that agree on those agree on it.
pub proof fn lemma_most_popular_reads_known_counts(one: Store, other: Store)
    requires
        forall|k: int|
            0 <= k < 5 ==> mood_count(one, #[trigger] known_moods()[k]) == mood_count(
                other,
                known_moods()[k],
            ),
    ensures
        most_popular(one) == most_popular(other),
{
    assert(known_counts(one) =~= known_counts(other));
}

/// Whether `events` log no mood of a known category.
pub open spec fn logs_no_known_mood(events: Seq<Event>) -> bool {
    forall|i: int, k: int|
        0 <= i < events.len() && 0 <= k < 5 && (#[trigger] events[i]) is Logged
            ==> events[i]->mood != #[trigger] known_moods()[k]
}

/// Moods of categories outside the five known ones, however many are logged,
/// and deletions leave the most popular mood as it was.
pub proof fn lemma_unknown_moods_leave_most_popular(store: Store, events: Seq<Event>)
    requires
        logs_no_known_mood(events),
    ensures
        most_popular(replay(store, events)) == most_popular(store),
    decreases events.len(),
{
    if events.len() > 0 {
        let init = events.drop_last();
        let before = replay(store, init);
        assert(logs_no_known_mood(init)) by {
            assert forall|i: int, k: int|
                0 <= i < init.len() && 0 <= k < 5 && (#[trigger] init[i]) is Logged implies init[i]
                    ->mood != #[trigger] known_moods()[k] by {
                assert(init[i] == events[i]);
            }
        }
        lemma_unknown_moods_leave_most_popular(store, init);
        let last = events.last();
        assert(last == events[events.len() - 1]);
        assert forall|k: int| 0 <= k < 5 implies mood_count(
            replay(store, events),
            #[trigger] known_moods()[k],
        ) == mood_count(before, known_moods()[k]) by {
            if last is Logged {
                assert(last->mood != known_moods()[k]);
            }
        }
        lemma_most_popular_reads_known_counts(replay(store, events), before);
    }
}

/// An empty store is well formed, with every counter at zero.
pub proof fn lemma_empty_is_well_formed()
    ensures
        well_formed(Map::empty()),
        global_count(Map::empty()) == 0,
        forall|user: Seq<char>| #[trigger] user_count(Map::empty(), user) == 0,
{
}

/// In a well-formed store a mood can be logged as long as the ledger-wide
/// counter has room.
pub proof fn lemma_room_in_well_formed(store: Store, user: Seq<char>, mood: Seq<char>)
    requires
        well_formed(store),
        global_count(store) < u64::MAX,
    ensures
        has_room(store, user, mood),
{
    assert(user_count(store, user) <= global_count(store));
    assert(mood_count(store, mood) <= global_count(store));
}

/// Logging a mood keeps a well-formed store well formed.
pub proof fn lemma_logging_keeps_well_formed(
    store: Store,
    user: Seq<char>,
    mood: Seq<char>,
    message: Seq<char>,
    is_anonymous: bool,
    timestamp: u64,
)
    requires
        well_formed(store),
        global_count(store) < u64::MAX,
    ensures
        well_formed(logged(store, user, mood, message, is_anonymous, timestamp)),
{
    let after = logged(store, user, mood, message, is_anonymous, timestamp);
    let count = user_count(store, user);
    assert(count <= global_count(store));
    assert(mood_count(store, mood) <= global_count(store));
    assert forall|who: Seq<char>, index: u64| #[trigger]
        history_entry(after, who, index) == if who == user && index == count {
            Some(next_entry(store, mood, message, is_anonymous, timestamp))
        } else {
            history_entry(store, who, index)
        } by {}
    assert forall|who: Seq<char>| #[trigger]
        user_count(after, who) == if who == user {
            (count + 1) as u64
        } else {
            user_count(store, who)
        } by {}
    assert forall|who: Seq<char>| #[trigger]
        latest_entry(after, who) == if user_count(after, who) > 0 {
            history_entry(after, who, (user_count(after, who) - 1) as u64)
        } else {
            None
        } by {
        if who != user {
            assert(latest_entry(after, who) == latest_entry(store, who));
        }
    }
    assert forall|who: Seq<char>, index: u64, later: u64|
        index < later && (#[trigger] history_entry(after, who, index)) is Some
            && (#[trigger] history_entry(after, who, later)) is Some implies history_entry(
        after,
        who,
        index,
    )->0.entry_id < history_entry(after, who, later)->0.entry_id by {
        if who == user && later == count {
            assert(history_entry(store, who, index) is Some);
        } else if who == user && index == count {
            assert(history_entry(store, who, later) is None);
        } else {
            assert(history_entry(store, who, index) is Some);
            assert(history_entry(store, who, later) is Some);
        }
    }
    assert forall|who: Seq<char>, index: u64, other: Seq<char>, position: u64|
        (#[trigger] history_entry(after, who, index)) is Some && (#[trigger] history_entry(
            after,
            other,
            position,
        )) is Some && (who != other || index != position) implies history_entry(
        after,
        who,
        index,
    )->0.entry_id != history_entry(after, other, position)->0.entry_id by {
        if who == user && index == count {
            assert(history_entry(store, other, position) is Some);
        } else if other == user && position == count {
            assert(history_entry(store, who, index) is Some);
        } else {
            assert(history_entry(store, who, index) is Some);
            assert(history_entry(store, other, position) is Some);
        }
    }
    assert forall|who: Seq<char>, index: u64|
        (#[trigger] history_entry(after, who, index)) is Some implies 1 <= history_entry(
        after,
        who,
        index,
    )->0.entry_id <= global_count(after) by {
        if !(who == user && index == count) {
            assert(history_entry(store, who, index) is Some);
        }
    }
    assert forall|who: Seq<char>| #[trigger] user_count(after, who) <= global_count(after) by {
        assert(user_count(store, who) <= global_count(store));
    }
    assert forall|kind: Seq<char>| #[trigger] mood_count(after, kind) <= global_count(after) by {
        assert(mood_count(store, kind) <= global_count(store));
    }
}

/// Deleting a user's data keeps a well-formed store well formed.
pub proof fn lemma_deleting_keeps_well_formed(store: Store, user: Seq<char>)
    requires
        well_formed(store),
    ensures
        well_formed(purged(store, user)),
{
    let after = purged(store, user);
    assert forall|who: Seq<char>, index: u64| #[trigger]
        history_entry(after, who, index) == if who == user {
            None
        } else {
            history_entry(store, who, index)
        } by {
        if who == user && index >= user_count(store, user) {
            assert(history_entry(store, who, index) is None);
        }
    }
    assert forall|who: Seq<char>| #[trigger]
        user_count(after, who) == if who == user {
            0
        } else {
            user_count(store, who)
        } by {}
    assert forall|who: Seq<char>| #[trigger]
        latest_entry(after, who) == if user_count(after, who) > 0 {
            history_entry(after, who, (user_count(after, who) - 1) as u64)
        } else {
            None
        } by {
        if who != user {
            assert(latest_entry(after, who) == latest_entry(store, who));
        }
    }
    assert forall|who: Seq<char>, index: u64|
        (#[trigger] history_entry(after, who, index)) is Some implies 1 <= history_entry(
        after,
        who,
        index,
    )->0.entry_id <= global_count(after) by {
        assert(history_entry(store, who, index) is Some);
    }
    assert forall|who: Seq<char>| #[trigger] user_count(after, who) <= global_count(after) by {
        assert(user_count(store, who) <= global_count(store));
    }
    assert forall|kind: Seq<char>| #[trigger] mood_count(after, kind) <= global_count(after) by {
        assert(mood_count(store, kind) <= global_count(store));
    }
}

/// In a well-formed store a history read returns exactly ten entries, or as
/// many as the user has where those are fewer: the entries at the last
/// indices below the user's counter, in the order of those indices.
pub proof fn lemma_window_of_well_formed(store: Store, user: Seq<char>)
    requires
        well_formed(store),
    ensures
        ({
            let count = user_count(store, user);
            let window = history_window(store, user);
            &&& window.len() == if count > 10 {
                10
            } else {
                count as int
            }
            &&& forall|k: int|
                0 <= k < window.len() ==> Some(#[trigger] window[k]) == history_entry(
                    store,
                    user,
                    (window_start(count) + k) as u64,
                )
        }),
{
    let count = user_count(store, user);
    lemma_window_filled(store, user, window_start(count), count);
}

/// Where every index from `lo` up to `hi` holds an entry, reading them gives
/// one entry for each index, in the order of the indices.
pub proof fn lemma_window_filled(store: Store, user: Seq<char>, lo: u64, hi: u64)
    requires
        lo <= hi,
        forall|index: u64|
            lo <= index < hi ==> (#[trigger] history_entry(store, user, index)) is Some,
    ensures
        entries_between(store, user, lo, hi).len() == hi - lo,
        forall|k: int|
            0 <= k < hi - lo ==> Some(#[trigger] entries_between(store, user, lo, hi)[k])
                == history_entry(store, user, (lo + k) as u64),
    decreases hi,
{
    if lo < hi {
        let before = (hi - 1) as u64;
        lemma_window_filled(store, user, lo, before);
        assert(history_entry(store, user, before) is Some);
        let earlier = entries_between(store, user, lo, before);
        let all = entries_between(store, user, lo, hi);
        assert(all == earlier.push(history_entry(store, user, before)->0));
        assert forall|k: int| 0 <= k < hi - lo implies Some(#[trigger] all[k]) == history_entry(
            store,
            user,
            (lo + k) as u64,
        ) by {
            if k < before - lo {
                assert(all[k] == earlier[k]);
            }
        }
    }
}

/// Any course of logged moods and deletions keeps a well-formed store well
/// formed, as long as the ledger-wide counter has room for the moods.
pub proof fn lemma_replay_keeps_well_formed(store: Store, events: Seq<Event>)
    requires
        well_formed(store),
        global_count(store) + logs_in(events) <= u64::MAX,
    ensures
        well_formed(replay(store, events)),
    decreases events.len(),
{
    if events.len() > 0 {
        let init = events.drop_last();
        lemma_replay_keeps_well_formed(store, init);
        lemma_global_count_counts_logs(store, init);
        match events.last() {
            Event::Logged { user, mood, message, is_anonymous, timestamp } => {
                lemma_logging_keeps_well_formed(
                    replay(store, init),
                    user,
                    mood,
                    message,
                    is_anonymous,
                    timestamp,
                );
            },
            Event::Deleted { user } => {
                lemma_deleting_keeps_well_formed(replay(store, init), user);
            },
        }
    }
}

/// Whether one of `events` deletes the data of `user`.
pub open spec fn deletes_user(events: Seq<Event>, user: Seq<char>) -> bool {
    exists|i: int| 0 <= i < events.len() && #[trigger] events[i] == (Event::Deleted { user })
}

/// A user's latest entry is always the one that the user logged last: after
/// any course of logged moods and deletions it is the last entry that the
/// user logged since the user's data was last deleted; it is absent where
/// the data was deleted and the user has not logged since; and it is what it
/// was where nothing of the user was logged or deleted.
pub proof fn lemma_latest_is_last_logged(store: Store, events: Seq<Event>, user: Seq<char>)
    ensures
        ({
            let entries = entries_since_delete(store, events, user);
            latest_entry(replay(store, events), user) == if entries.len() > 0 {
                Some(entries.last())
            } else if deletes_user(events, user) {
                None
            } else {
                latest_entry(store, user)
            }
        }),
    decreases events.len(),
{
    if events.len() > 0 {
        let init = events.drop_last();
        lemma_latest_is_last_logged(store, init, user);
        let last = events.last();
        assert(last == events[events.len() - 1]);
        if deletes_user(init, user) {
            let i = choose|i: int|
                0 <= i < init.len() && #[trigger] init[i] == (Event::Deleted { user });
            assert(events[i] == init[i]);
        }
        if deletes_user(events, user) && last != (Event::Deleted { user }) {
            let i = choose|i: int|
                0 <= i < events.len() && #[trigger] events[i] == (Event::Deleted { user });
            assert(init[i] == events[i]);
        }
    }
}

} // verus!
