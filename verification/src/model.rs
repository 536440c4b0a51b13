//! The mathematical model of the ledger: what the contract's persistent store
//! holds, slot by slot, and how logging and deleting change it.

use vstd::prelude::*;

verus! {

/// What identifies one record of the store: the kind of record, and the user,
/// mood category and history index that the kind calls for.
pub struct SlotView {
    pub tag: u32,
    pub user: Option<Seq<char>>,
    pub mood: Option<Seq<char>>,
    pub index: u64,
}

/// A mood entry as plain values.
pub struct EntryView {
    pub mood: Seq<char>,
    pub message: Seq<char>,
    pub is_anonymous: bool,
    pub timestamp: u64,
    pub entry_id: u64,
}

/// The count of one mood category as plain values.
pub struct StatsView {
    pub mood_type: Seq<char>,
    pub count: u64,
    pub last_updated: u64,
}

/// One stored record.
pub enum Record {
    Count(u64),
    Entry(EntryView),
    Stats(StatsView),
}

/// The store: the records that can be read back, by slot.
pub type Store = Map<SlotView, Record>;

/// The slot of a user's latest entry.
pub open spec fn latest_slot(user: Seq<char>) -> SlotView {
    SlotView { tag: 0, user: Some(user), mood: None, index: 0 }
}

/// The slot of a user's entry number `index`, counted from zero.
pub open spec fn history_slot(user: Seq<char>, index: u64) -> SlotView {
    SlotView { tag: 1, user: Some(user), mood: None, index }
}

/// The slot of the ledger-wide counter.
pub open spec fn global_slot() -> SlotView {
    SlotView { tag: 2, user: None, mood: None, index: 0 }
}

/// The slot of a mood category's count.
pub open spec fn stats_slot(mood: Seq<char>) -> SlotView {
    SlotView { tag: 3, user: None, mood: Some(mood), index: 0 }
}

/// The slot of a user's counter.
pub open spec fn count_slot(user: Seq<char>) -> SlotView {
    SlotView { tag: 4, user: Some(user), mood: None, index: 0 }
}

/// The number stored at `slot`, if one is.
pub open spec fn count_at(store: Store, slot: SlotView) -> Option<u64> {
    if store.contains_key(slot) {
        match store[slot] {
            Record::Count(n) => Some(n),
            _ => None,
        }
    } else {
        None
    }
}

/// The mood entry stored at `slot`, if one is.
pub open spec fn entry_at(store: Store, slot: SlotView) -> Option<EntryView> {
    if store.contains_key(slot) {
        match store[slot] {
            Record::Entry(e) => Some(e),
            _ => None,
        }
    } else {
        None
    }
}

/// The category count stored at `slot`, if one is.
pub open spec fn stats_at(store: Store, slot: SlotView) -> Option<StatsView> {
    if store.contains_key(slot) {
        match store[slot] {
            Record::Stats(s) => Some(s),
            _ => None,
        }
    } else {
        None
    }
}

/// The ledger-wide counter: how many moods were ever logged.
pub open spec fn global_count(store: Store) -> u64 {
    match count_at(store, global_slot()) {
        Some(n) => n,
        None => 0,
    }
}

/// A user's counter: how many moods the user has logged since the user's data
/// was last deleted.
pub open spec fn user_count(store: Store, user: Seq<char>) -> u64 {
    match count_at(store, count_slot(user)) {
        Some(n) => n,
        None => 0,
    }
}

/// A user's latest entry.
pub open spec fn latest_entry(store: Store, user: Seq<char>) -> Option<EntryView> {
    entry_at(store, latest_slot(user))
}

/// A user's entry number `index`, counted from zero.
pub open spec fn history_entry(store: Store, user: Seq<char>, index: u64) -> Option<EntryView> {
    entry_at(store, history_slot(user, index))
}

/// The count kept for a mood category.
pub open spec fn mood_stats(store: Store, mood: Seq<char>) -> Option<StatsView> {
    stats_at(store, stats_slot(mood))
}

/// How often a mood category was logged: zero where no count is kept.
pub open spec fn mood_count(store: Store, mood: Seq<char>) -> u64 {
    match mood_stats(store, mood) {
        Some(stats) => stats.count,
        None => 0,
    }
}

/// Whether one more mood of category `mood` can be logged by `user` without
/// a counter leaving the range of its type.
pub open spec fn has_room(store: Store, user: Seq<char>, mood: Seq<char>) -> bool {
    &&& global_count(store) < u64::MAX
    &&& user_count(store, user) < u64::MAX
    &&& mood_count(store, mood) < u64::MAX
}

/// The entry that the next logged mood becomes.
pub open spec fn next_entry(
    store: Store,
    mood: Seq<char>,
    message: Seq<char>,
    is_anonymous: bool,
    timestamp: u64,
) -> EntryView {
    EntryView {
        mood,
        message,
        is_anonymous,
        timestamp,
        entry_id: (global_count(store) + 1) as u64,
    }
}

/// The count of category `mood` after one more mood of it: one more than
/// before, or one where none was kept.
pub open spec fn next_stats(store: Store, mood: Seq<char>, timestamp: u64) -> StatsView {
    match mood_stats(store, mood) {
        Some(stats) => StatsView {
            mood_type: stats.mood_type,
            count: (stats.count + 1) as u64,
            last_updated: timestamp,
        },
        None => StatsView { mood_type: mood, count: 1, last_updated: timestamp },
    }
}

/// The store after only the count of category `mood` went up by one.
pub open spec fn counted(store: Store, mood: Seq<char>, timestamp: u64) -> Store {
    store.insert(stats_slot(mood), Record::Stats(next_stats(store, mood, timestamp)))
}

/// The store after `user` logged a mood at time `timestamp`: both counters go
/// up by one, the entry becomes the user's latest and the next of the user's
/// history, and the category's count goes up by one.
pub open spec fn logged(
    store: Store,
    user: Seq<char>,
    mood: Seq<char>,
    message: Seq<char>,
    is_anonymous: bool,
    timestamp: u64,
) -> Store {
    let entry = next_entry(store, mood, message, is_anonymous, timestamp);
    store.insert(global_slot(), Record::Count((global_count(store) + 1) as u64)).insert(
        count_slot(user),
        Record::Count((user_count(store, user) + 1) as u64),
    ).insert(latest_slot(user), Record::Entry(entry)).insert(
        history_slot(user, user_count(store, user)),
        Record::Entry(entry),
    ).insert(stats_slot(mood), Record::Stats(next_stats(store, mood, timestamp)))
}

/// Whether `slot` holds data of `user`: the user's latest entry, the user's
/// counter, or an entry of the user's history below the counter.
pub open spec fn owned_by(store: Store, user: Seq<char>, slot: SlotView) -> bool {
    ||| slot == latest_slot(user)
    ||| slot == count_slot(user)
    ||| (slot == history_slot(user, slot.index) && slot.index < user_count(store, user))
}

/// The store after the data of `user` was deleted: every slot of the user is
/// empty, every other slot holds what it held.
pub open spec fn purged(store: Store, user: Seq<char>) -> Store {
    Map::new(
        |slot: SlotView| store.contains_key(slot) && !owned_by(store, user, slot),
        |slot: SlotView| store[slot],
    )
}

/// How many entries a history read returns at most.
pub open spec fn window_len() -> u64 {
    10
}

/// Where the window of a history of `count` entries begins.
pub open spec fn window_start(count: u64) -> u64 {
    if count > window_len() {
        (count - window_len()) as u64
    } else {
        0
    }
}

/// The entries of a user's history from index `lo` up to, not including,
/// `hi`, oldest first.  An index without an entry is passed over.
pub open spec fn entries_between(store: Store, user: Seq<char>, lo: u64, hi: u64) -> Seq<
    EntryView,
>
    decreases hi,
{
    if lo >= hi {
        Seq::empty()
    } else {
        let earlier = entries_between(store, user, lo, (hi - 1) as u64);
        match history_entry(store, user, (hi - 1) as u64) {
            Some(entry) => earlier.push(entry),
            None => earlier,
        }
    }
}

/// What a history read returns: the user's last ten entries, or all of them
/// where there are fewer, oldest first.
pub open spec fn history_window(store: Store, user: Seq<char>) -> Seq<EntryView> {
    let count = user_count(store, user);
    entries_between(store, user, window_start(count), count)
}

/// Reading the indices from `lo` up to `hi` gives at most as many entries as
/// there are indices.
pub proof fn lemma_entries_between_len(store: Store, user: Seq<char>, lo: u64, hi: u64)
    requires
        lo <= hi,
    ensures
        entries_between(store, user, lo, hi).len() <= hi - lo,
    decreases hi,
{
    if lo < hi {
        lemma_entries_between_len(store, user, lo, (hi - 1) as u64);
    }
}

/// Whether the store is what logging and deleting make of an empty one.
///
/// Every user's history holds an entry at each index below the user's
/// counter and none from there on, and the user's latest entry is the last
/// of the history.  Every entry of a history has a number of its own between
/// one and the ledger-wide counter, and within one history the numbers go
/// up.  No user's counter and no category count is above the ledger-wide
/// counter.
pub open spec fn well_formed(store: Store) -> bool {
    &&& forall|user: Seq<char>, index: u64|
        index < user_count(store, user) ==> (#[trigger] history_entry(store, user, index)) is Some
    &&& forall|user: Seq<char>, index: u64|
        index >= user_count(store, user) ==> (#[trigger] history_entry(store, user, index)) is None
    &&& forall|user: Seq<char>| #[trigger]
        latest_entry(store, user) == if user_count(store, user) > 0 {
            history_entry(store, user, (user_count(store, user) - 1) as u64)
        } else {
            None
        }
    &&& forall|user: Seq<char>, index: u64|
        (#[trigger] history_entry(store, user, index)) is Some ==> 1 <= history_entry(
            store,
            user,
            index,
        )->0.entry_id <= global_count(store)
    &&& forall|user: Seq<char>, index: u64, other: Seq<char>, position: u64|
        (#[trigger] history_entry(store, user, index)) is Some && (#[trigger] history_entry(
            store,
            other,
            position,
        )) is Some && (user != other || index != position) ==> history_entry(
            store,
            user,
            index,
        )->0.entry_id != history_entry(store, other, position)->0.entry_id
    &&& forall|user: Seq<char>, index: u64, later: u64|
        index < later && (#[trigger] history_entry(store, user, index)) is Some
            && (#[trigger] history_entry(store, user, later)) is Some ==> history_entry(
            store,
            user,
            index,
        )->0.entry_id < history_entry(store, user, later)->0.entry_id
    &&& forall|user: Seq<char>| #[trigger] user_count(store, user) <= global_count(store)
    &&& forall|mood: Seq<char>| #[trigger] mood_count(store, mood) <= global_count(store)
}

/// The five mood categories that the ledger-wide statistics know, in the
/// order in which they are compared.
pub open spec fn known_moods() -> Seq<Seq<char>> {
    seq!["Mutlu"@, "Uzgun"@, "Motive"@, "Sakin"@, "Heyecan"@]
}

/// The counts of the five known categories, in their order.
pub open spec fn known_counts(store: Store) -> Seq<u64> {
    Seq::new(5, |i: int| mood_count(store, known_moods()[i]))
}

/// Whether position `j` leads `counts`: it holds the greatest count, and no
/// position before it holds as much.
pub open spec fn leads(counts: Seq<u64>, j: int) -> bool {
    &&& 0 <= j < counts.len()
    &&& forall|k: int| 0 <= k < counts.len() ==> counts[k] <= counts[j]
    &&& forall|k: int| 0 <= k < j ==> counts[k] < counts[j]
}

/// The position that leads `counts`.
pub open spec fn leader(counts: Seq<u64>) -> int {
    choose|j: int| leads(counts, j)
}

/// The most popular of the five known categories: the first of those with
/// the greatest count, so the first of all where none was ever logged.
pub open spec fn most_popular(store: Store) -> Seq<char> {
    known_moods()[leader(known_counts(store))]
}

/// One change of the ledger.
pub enum Event {
    /// A user logged a mood.
    Logged {
        user: Seq<char>,
        mood: Seq<char>,
        message: Seq<char>,
        is_anonymous: bool,
        timestamp: u64,
    },
    /// A user's data was deleted.
    Deleted { user: Seq<char> },
}

/// The store after `event`.
pub open spec fn apply(store: Store, event: Event) -> Store {
    match event {
        Event::Logged { user, mood, message, is_anonymous, timestamp } => logged(
            store,
            user,
            mood,
            message,
            is_anonymous,
            timestamp,
        ),
        Event::Deleted { user } => purged(store, user),
    }
}

/// The store after `events`, in their order.
pub open spec fn replay(store: Store, events: Seq<Event>) -> Store
    decreases events.len(),
{
    if events.len() == 0 {
        store
    } else {
        apply(replay(store, events.drop_last()), events.last())
    }
}

/// How many of `events` log a mood.
pub open spec fn logs_in(events: Seq<Event>) -> nat
    decreases events.len(),
{
    if events.len() == 0 {
        0
    } else {
        logs_in(events.drop_last()) + if events.last() is Logged {
            1nat
        } else {
            0nat
        }
    }
}

/// How many of `events` log a mood of category `mood`.
pub open spec fn logs_of_mood(events: Seq<Event>, mood: Seq<char>) -> nat
    decreases events.len(),
{
    if events.len() == 0 {
        0
    } else {
        logs_of_mood(events.drop_last(), mood) + match events.last() {
            Event::Logged { mood: logged_mood, .. } => if logged_mood == mood {
                1nat
            } else {
                0nat
            },
            Event::Deleted { .. } => 0nat,
        }
    }
}

/// The entries that `user` logged in `events` after the last deletion of the
/// user's data among them, oldest first, each as it was stored.
pub open spec fn entries_since_delete(store: Store, events: Seq<Event>, user: Seq<char>) -> Seq<
    EntryView,
>
    decreases events.len(),
{
    if events.len() == 0 {
        Seq::empty()
    } else {
        let earlier = entries_since_delete(store, events.drop_last(), user);
        match events.last() {
            Event::Logged { user: who, mood, message, is_anonymous, timestamp } => if who == user {
                earlier.push(
                    next_entry(
                        replay(store, events.drop_last()),
                        mood,
                        message,
                        is_anonymous,
                        timestamp,
                    ),
                )
            } else {
                earlier
            },
            Event::Deleted { user: who } => if who == user {
                Seq::empty()
            } else {
                earlier
            },
        }
    }
}

/// At most one position leads.
pub proof fn lemma_leader_unique(counts: Seq<u64>, j: int)
    requires
        leads(counts, j),
    ensures
        leader(counts) == j,
{
    let l = leader(counts);
    assert(leads(counts, l));
    if l < j {
        assert(counts[l] < counts[j]);
        assert(counts[j] <= counts[l]);
    } else if j < l {
        assert(counts[j] < counts[l]);
        assert(counts[l] <= counts[j]);
    }
}

} // verus!
