//! The ledger's records and storage keys, each with its view as plain values.

use vstd::prelude::*;
use soroban_sdk::{Address, Symbol};
use crate::host::{address_text, symbol_text};
use crate::model::{
    count_slot, global_slot, history_slot, latest_slot, stats_slot, EntryView, SlotView,
    StatsView,
};

verus! {

/// A user's mood at one moment.
#[derive(Clone)]
pub struct MoodEntry {
    pub mood: Symbol,
    pub message: Symbol,
    pub is_anonymous: bool,
    pub timestamp: u64,
    pub entry_id: u64,
}

impl View for MoodEntry {
    type V = EntryView;

    open spec fn view(&self) -> EntryView {
        EntryView {
            mood: symbol_text(self.mood),
            message: symbol_text(self.message),
            is_anonymous: self.is_anonymous,
            timestamp: self.timestamp,
            entry_id: self.entry_id,
        }
    }
}

/// How often one mood category was logged, and when last.
#[derive(Clone)]
pub struct MoodStats {
    pub mood_type: Symbol,
    pub count: u64,
    pub last_updated: u64,
}

impl View for MoodStats {
    type V = StatsView;

    open spec fn view(&self) -> StatsView {
        StatsView {
            mood_type: symbol_text(self.mood_type),
            count: self.count,
            last_updated: self.last_updated,
        }
    }
}

/// The ledger as a whole, computed on demand.
#[derive(Clone)]
pub struct GlobalStats {
    pub total_moods: u64,
    pub unique_users: u64,
    pub most_popular_mood: Symbol,
    pub last_updated: u64,
}

/// The key of one record in the store.
#[derive(Clone)]
pub enum DataKey {
    MoodLog(Address),
    MoodHistoryEntry(Address, u64),
    GlobalMoodCount,
    MoodStats(Symbol),
    UserMoodCount(Address),
}

impl View for DataKey {
    type V = SlotView;

    open spec fn view(&self) -> SlotView {
        match *self {
            DataKey::MoodLog(user) => latest_slot(address_text(user)),
            DataKey::MoodHistoryEntry(user, index) => history_slot(address_text(user), index),
            DataKey::GlobalMoodCount => global_slot(),
            DataKey::MoodStats(mood) => stats_slot(symbol_text(mood)),
            DataKey::UserMoodCount(user) => count_slot(address_text(user)),
        }
    }
}

/// A key taken apart: the parts that the host stores a record under.
pub struct Slot<'a> {
    pub tag: u32,
    pub user: Option<&'a Address>,
    pub mood: Option<&'a Symbol>,
    pub index: u64,
}

impl<'a> View for Slot<'a> {
    type V = SlotView;

    open spec fn view(&self) -> SlotView {
        SlotView {
            tag: self.tag,
            user: match self.user {
                Some(user) => Some(address_text(*user)),
                None => None,
            },
            mood: match self.mood {
                Some(mood) => Some(symbol_text(*mood)),
                None => None,
            },
            index: self.index,
        }
    }
}

impl DataKey {
    /// The parts of this key.
    pub fn slot(&self) -> (slot: Slot<'_>)
        ensures
            slot@ == self@,
    {
        match self {
            DataKey::MoodLog(user) => Slot { tag: 0, user: Some(user), mood: None, index: 0 },
            DataKey::MoodHistoryEntry(user, index) => Slot {
                tag: 1,
                user: Some(user),
                mood: None,
                index: *index,
            },
            DataKey::GlobalMoodCount => Slot { tag: 2, user: None, mood: None, index: 0 },
            DataKey::MoodStats(mood) => Slot { tag: 3, user: None, mood: Some(mood), index: 0 },
            DataKey::UserMoodCount(user) => Slot { tag: 4, user: Some(user), mood: None, index: 0 },
        }
    }
}

} // verus!
