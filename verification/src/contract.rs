//! The ledger's operations, each proved against the model of the store.
//!
//! Every operation that touches the store needs a contract to be executing
//! in the `Env` it is given; `MoodContract::in_contract` tells whether one is.
//! `log_mood` and `delete_user_data` act for a user.  They do not
//! authenticate: the contract's entry point has the host authenticate the
//! user before it calls them, and the host undoes what a failed call wrote.

use vstd::prelude::*;
use soroban_sdk::{Address, Env, Symbol};
use crate::host::{
    address_text, erase, executing, frame_open, ledger_time, load_count, load_entry, load_stats,
    persistent, short_symbol, store_count, store_entry, store_stats, symbol_text,
};
use crate::laws::{lemma_deleting_keeps_well_formed, lemma_logging_keeps_well_formed};
use crate::model::{
    counted, entries_between, global_count, has_room, history_slot, history_window, known_counts,
    known_moods, latest_entry, latest_slot, leads, lemma_entries_between_len,
    lemma_leader_unique, logged, mood_count, mood_stats, most_popular, purged, user_count,
    well_formed, EntryView, SlotView,
};
use crate::types::{DataKey, GlobalStats, MoodEntry, MoodStats};

verus! {

/// The mood ledger.
pub struct MoodContract;

/// The entries of `entries` as plain values, in their order.
pub open spec fn entry_views(entries: Seq<MoodEntry>) -> Seq<EntryView> {
    entries.map_values(|entry: MoodEntry| entry@)
}

impl MoodContract {
    /// Whether a contract is executing in `env`, so that the ledger's
    /// operations can be called.
    pub fn in_contract(env: &Env) -> (open: bool)
        ensures
            open == executing(*env),
    {
        frame_open(env)
    }

    /// Logs a mood for `user` at the ledger's current time and returns the
    /// entry's number.
    pub fn log_mood(
        env: &mut Env,
        user: Address,
        mood: Symbol,
        message: Symbol,
        is_anonymous: bool,
    ) -> (entry_id: u64)
        requires
            executing(*old(env)),
            has_room(persistent(*old(env)), address_text(user), symbol_text(mood)),
        ensures
            executing(*final(env)),
            entry_id == global_count(persistent(*old(env))) + 1,
            exists|timestamp: u64|
                persistent(*final(env)) == #[trigger] logged(
                    persistent(*old(env)),
                    address_text(user),
                    symbol_text(mood),
                    symbol_text(message),
                    is_anonymous,
                    timestamp,
                ),
            well_formed(persistent(*old(env))) ==> well_formed(persistent(*final(env))),
    {
        let timestamp = ledger_time(env);
        Self::log_mood_at(env, user, mood, message, is_anonymous, timestamp)
    }

    /// Logs a mood for `user` at time `timestamp` and returns the entry's
    /// number, which is the new value of the ledger-wide counter.
    pub fn log_mood_at(
        env: &mut Env,
        user: Address,
        mood: Symbol,
        message: Symbol,
        is_anonymous: bool,
        timestamp: u64,
    ) -> (entry_id: u64)
        requires
            executing(*old(env)),
            has_room(persistent(*old(env)), address_text(user), symbol_text(mood)),
        ensures
            executing(*final(env)),
            entry_id == global_count(persistent(*old(env))) + 1,
            persistent(*final(env)) == logged(
                persistent(*old(env)),
                address_text(user),
                symbol_text(mood),
                symbol_text(message),
                is_anonymous,
                timestamp,
            ),
            well_formed(persistent(*old(env))) ==> well_formed(persistent(*final(env))),
    {
        let ghost before = persistent(*env);
        proof {
            if well_formed(before) {
                lemma_logging_keeps_well_formed(
                    before,
                    address_text(user),
                    symbol_text(mood),
                    symbol_text(message),
                    is_anonymous,
                    timestamp,
                );
            }
        }
        let global_count = Self::get_global_mood_count(env) + 1;
        let global_key = DataKey::GlobalMoodCount;
        store_count(env, &global_key.slot(), global_count);

        let user_count = Self::get_user_mood_count(env, user.clone()) + 1;
        let count_key = DataKey::UserMoodCount(user.clone());
        store_count(env, &count_key.slot(), user_count);

        let entry = MoodEntry {
            mood: mood.clone(),
            message,
            is_anonymous,
            timestamp,
            entry_id: global_count,
        };
        let latest_key = DataKey::MoodLog(user.clone());
        store_entry(env, &latest_key.slot(), &entry);

        let index = user_count - 1;
        let history_key = DataKey::MoodHistoryEntry(user, index);
        store_entry(env, &history_key.slot(), &entry);

        proof {
            assert(mood_stats(persistent(*env), symbol_text(mood)) == mood_stats(
                before,
                symbol_text(mood),
            ));
        }
        Self::update_mood_stats(env, mood, timestamp);
        global_count
    }

    /// Counts one more mood of category `mood`, logged at time `timestamp`.
    fn update_mood_stats(env: &mut Env, mood: Symbol, timestamp: u64)
        requires
            executing(*old(env)),
            mood_count(persistent(*old(env)), symbol_text(mood)) < u64::MAX,
        ensures
            executing(*final(env)),
            persistent(*final(env)) == counted(
                persistent(*old(env)),
                symbol_text(mood),
                timestamp,
            ),
    {
        let key = DataKey::MoodStats(mood.clone());
        let stats = match load_stats(env, &key.slot()) {
            Some(existing) => MoodStats {
                mood_type: existing.mood_type,
                count: existing.count + 1,
                last_updated: timestamp,
            },
            None => MoodStats { mood_type: mood, count: 1, last_updated: timestamp },
        };
        store_stats(env, &key.slot(), &stats);
    }

    /// The latest entry of `user`, or `None` where the user has none.
    pub fn get_mood(env: &Env, user: Address) -> (found: Option<MoodEntry>)
        requires
            executing(*env),
        ensures
            match found {
                Some(entry) => latest_entry(persistent(*env), address_text(user)) == Some(entry@),
                None => latest_entry(persistent(*env), address_text(user)) is None,
            },
    {
        let key = DataKey::MoodLog(user);
        load_entry(env, &key.slot())
    }

    /// The count kept for category `mood`, or `None` where none is kept.
    pub fn get_mood_stats(env: &Env, mood: Symbol) -> (found: Option<MoodStats>)
        requires
            executing(*env),
        ensures
            match found {
                Some(stats) => mood_stats(persistent(*env), symbol_text(mood)) == Some(stats@),
                None => mood_stats(persistent(*env), symbol_text(mood)) is None,
            },
    {
        let key = DataKey::MoodStats(mood);
        load_stats(env, &key.slot())
    }

    /// How many moods `user` has logged since the user's data was last
    /// deleted.
    pub fn get_user_mood_count(env: &Env, user: Address) -> (count: u64)
        requires
            executing(*env),
        ensures
            count == user_count(persistent(*env), address_text(user)),
    {
        let key = DataKey::UserMoodCount(user);
        match load_count(env, &key.slot()) {
            Some(count) => count,
            None => 0,
        }
    }

    /// How many moods were ever logged.
    pub fn get_global_mood_count(env: &Env) -> (count: u64)
        requires
            executing(*env),
        ensures
            count == global_count(persistent(*env)),
    {
        let key = DataKey::GlobalMoodCount;
        match load_count(env, &key.slot()) {
            Some(count) => count,
            None => 0,
        }
    }

    /// The last ten entries of `user`, or all of them where there are fewer,
    /// oldest first.
    pub fn get_mood_history(env: &Env, user: Address) -> (history: Vec<MoodEntry>)
        requires
            executing(*env),
        ensures
            entry_views(history@) == history_window(persistent(*env), address_text(user)),
            history@.len() <= 10,
    {
        let mut history: Vec<MoodEntry> = Vec::new();
        let count = Self::get_user_mood_count(env, user.clone());
        let start: u64 = if count > 10 {
            count - 10
        } else {
            0
        };
        let ghost store = persistent(*env);
        let ghost who = address_text(user);
        assert(entry_views(history@) =~= entries_between(store, who, start, start));

        let mut i: u64 = start;
        while i < count
            invariant
                executing(*env),
                store == persistent(*env),
                who == address_text(user),
                start <= i <= count,
                entry_views(history@) == entries_between(store, who, start, i),
            decreases count - i,
        {
            let key = DataKey::MoodHistoryEntry(user.clone(), i);
            let ghost earlier = history@;
            match load_entry(env, &key.slot()) {
                Some(entry) => {
                    history.push(entry);
                    assert(entry_views(history@) =~= entry_views(earlier).push(entry@));
                },
                None => {},
            }
            i = i + 1;
        }
        proof {
            lemma_entries_between_len(store, who, start, count);
        }
        history
    }

    /// The ledger as a whole at the ledger's current time.
    pub fn get_global_stats(env: &Env) -> (stats: GlobalStats)
        requires
            executing(*env),
        ensures
            stats.total_moods == global_count(persistent(*env)),
            stats.unique_users == 0,
            symbol_text(stats.most_popular_mood) == most_popular(persistent(*env)),
    {
        let timestamp = ledger_time(env);
        Self::global_stats_at(env, timestamp)
    }

    /// The ledger as a whole at time `timestamp`: the number of moods ever
    /// logged, and the most popular of the five known categories.  Users are
    /// not counted.
    pub fn global_stats_at(env: &Env, timestamp: u64) -> (stats: GlobalStats)
        requires
            executing(*env),
        ensures
            stats.total_moods == global_count(persistent(*env)),
            stats.unique_users == 0,
            symbol_text(stats.most_popular_mood) == most_popular(persistent(*env)),
            stats.last_updated == timestamp,
    {
        let total_moods = Self::get_global_mood_count(env);
        let ghost counts = known_counts(persistent(*env));

        let mut most_popular = Self::known_mood(0);
        let mut max_count: u64 = 0;
        let ghost mut best: int = 0;
        let ghost mut any: bool = false;

        let mut i: usize = 0;
        while i < 5
            invariant
                executing(*env),
                counts == known_counts(persistent(*env)),
                0 <= i <= 5,
                0 <= best < 5,
                !any ==> best == 0 && max_count == 0,
                any ==> best < i && counts[best] == max_count && max_count > 0,
                symbol_text(most_popular) == known_moods()[best],
                forall|k: int| 0 <= k < i ==> counts[k] <= max_count,
                forall|k: int| 0 <= k < best ==> counts[k] < max_count,
            decreases 5 - i,
        {
            let mood = Self::known_mood(i);
            match Self::get_mood_stats(env, mood.clone()) {
                Some(found) => {
                    if found.count > max_count {
                        max_count = found.count;
                        most_popular = mood;
                        proof {
                            best = i as int;
                            any = true;
                        }
                    }
                },
                None => {},
            }
            i = i + 1;
        }
        proof {
            if !any {
                assert(forall|k: int| 0 <= k < 5 ==> counts[k] == 0);
            }
            assert(leads(counts, best));
            lemma_leader_unique(counts, best);
        }
        GlobalStats {
            total_moods,
            unique_users: 0,
            most_popular_mood: most_popular,
            last_updated: timestamp,
        }
    }

    /// The known mood category at position `i`.
    fn known_mood(i: usize) -> (mood: Symbol)
        requires
            i < 5,
        ensures
            symbol_text(mood) == known_moods()[i as int],
    {
        proof {
            reveal_strlit("Mutlu");
            reveal_strlit("Uzgun");
            reveal_strlit("Motive");
            reveal_strlit("Sakin");
            reveal_strlit("Heyecan");
        }
        if i == 0 {
            short_symbol("Mutlu")
        } else if i == 1 {
            short_symbol("Uzgun")
        } else if i == 2 {
            short_symbol("Motive")
        } else if i == 3 {
            short_symbol("Sakin")
        } else {
            short_symbol("Heyecan")
        }
    }

    /// Deletes the data of `user`: the latest entry, the history and the
    /// counter.  The ledger-wide counter and the category counts stay.
    pub fn delete_user_data(env: &mut Env, user: Address)
        requires
            executing(*old(env)),
        ensures
            executing(*final(env)),
            persistent(*final(env)) == purged(persistent(*old(env)), address_text(user)),
            well_formed(persistent(*old(env))) ==> well_formed(persistent(*final(env))),
    {
        let ghost before = persistent(*env);
        let ghost who = address_text(user);
        proof {
            if well_formed(before) {
                lemma_deleting_keeps_well_formed(before, who);
            }
        }
        let latest_key = DataKey::MoodLog(user.clone());
        erase(env, &latest_key.slot());

        let count = Self::get_user_mood_count(env, user.clone());
        let mut i: u64 = 0;
        while i < count
            invariant
                executing(*env),
                who == address_text(user),
                count == user_count(before, who),
                0 <= i <= count,
                persistent(*env) =~= Map::new(
                    |slot: SlotView|
                        before.contains_key(slot) && slot != latest_slot(who) && !(slot
                            == history_slot(who, slot.index) && slot.index < i),
                    |slot: SlotView| before[slot],
                ),
            decreases count - i,
        {
            let key = DataKey::MoodHistoryEntry(user.clone(), i);
            erase(env, &key.slot());
            i = i + 1;
        }
        let count_key = DataKey::UserMoodCount(user);
        erase(env, &count_key.slot());
        assert(persistent(*env) =~= purged(before, who));
    }

    /// The version of the ledger.
    pub fn get_version() -> (version: Symbol)
        ensures
            symbol_text(version) == "v1_0_0"@,
    {
        proof {
            reveal_strlit("v1_0_0");
        }
        short_symbol("v1_0_0")
    }

    /// Whether any mood was ever logged.
    pub fn health_check(env: &Env) -> (healthy: bool)
        requires
            executing(*env),
        ensures
            healthy == (global_count(persistent(*env)) > 0),
    {
        Self::get_global_mood_count(env) > 0
    }
}

} // verus!
