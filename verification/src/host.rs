//! The Soroban host: the outside types that pass through the ledger, the
//! names for what they hold, and the calls into the host.  Nothing in this
//! file is proved; each contract states what the host is relied on to do.
//!
//! An `Env` is a handle, and its copies reach the same store.  The contracts
//! speak of the handle that a call is given: the ledger is to be read and
//! written through one handle.

use vstd::prelude::*;
use soroban_sdk::{Address, Env, Symbol, TryFromVal, Val};
use crate::model::{count_at, entry_at, stats_at, Record, SlotView};
use crate::types::{MoodEntry, MoodStats, Slot};

verus! {

/// `soroban_sdk::Env`: the handle to the host.
#[verifier::external_type_specification]
#[verifier::external_body]
pub struct ExEnv(soroban_sdk::Env);

/// `soroban_sdk::Address`: who a user is.
#[verifier::external_type_specification]
#[verifier::external_body]
pub struct ExAddress(soroban_sdk::Address);

/// `soroban_sdk::Symbol`: a short text of letters, digits and underscores.
#[verifier::external_type_specification]
#[verifier::external_body]
pub struct ExSymbol(soroban_sdk::Symbol);

/// The characters of a symbol.
pub uninterp spec fn symbol_text(s: Symbol) -> Seq<char>;

/// The characters of an address, in the form in which the host prints it.
pub uninterp spec fn address_text(a: Address) -> Seq<char>;

/// The records that the executing contract can read back from its persistent
/// storage, by the parts of their keys.  A slot that holds something else
/// than a number, a mood entry or a category count is not among them.
pub uninterp spec fn persistent(env: Env) -> Map<SlotView, Record>;

/// Whether a contract is executing in `env`.  Only then is there a store to
/// read or write.
pub uninterp spec fn executing(env: Env) -> bool;

/// Whether `c` may stand in a symbol: a letter, a digit or an underscore.
pub open spec fn is_symbol_char(c: char) -> bool {
    ('a' <= c && c <= 'z') || ('A' <= c && c <= 'Z') || ('0' <= c && c <= '9') || c == '_'
}

/// Whether `text` can be a short symbol: at most nine symbol characters.
pub open spec fn is_short_symbol(text: Seq<char>) -> bool {
    text.len() <= 9 && forall|i: int| 0 <= i < text.len() ==> is_symbol_char(#[trigger] text[i])
}

/// `Clone::clone` of `Address`: the copy names the same address.
pub assume_specification[ <Address as Clone>::clone ](a: &Address) -> (copy: Address)
    ensures
        address_text(copy) == address_text(*a),
;

/// `Clone::clone` of `Symbol`: the copy has the same characters.
pub assume_specification[ <Symbol as Clone>::clone ](s: &Symbol) -> (copy: Symbol)
    ensures
        symbol_text(copy) == symbol_text(*s),
;

/// `Symbol::short`: the symbol whose characters are those of `text`.  It
/// panics on a text that is no short symbol, which `requires` leaves out.
#[verifier::external_body]
#[allow(deprecated)]
pub(crate) fn short_symbol(text: &str) -> (s: Symbol)
    requires
        is_short_symbol(text@),
    ensures
        symbol_text(s) == text@,
{
    Symbol::short(text)
}

/// `Env::in_contract`: whether a contract is executing.
#[verifier::external_body]
pub(crate) fn frame_open(env: &Env) -> (open: bool)
    ensures
        open == executing(*env),
{
    env.in_contract()
}

/// `Ledger::timestamp`: the close time of the current ledger, in seconds.
/// Nothing is claimed of its value.
#[verifier::external_body]
pub(crate) fn ledger_time(env: &Env) -> (seconds: u64) {
    env.ledger().timestamp()
}

/// `Persistent::get` for a number: the number stored under `slot`, or `None`
/// where nothing is stored there or what is stored is no number.
#[verifier::external_body]
pub(crate) fn load_count(env: &Env, slot: &Slot) -> (found: Option<u64>)
    requires
        executing(*env),
    ensures
        found == count_at(persistent(*env), slot@),
{
    let key = (slot.tag, slot.user.cloned(), slot.mood.cloned(), slot.index);
    let raw: Val = env.storage().persistent().get(&key)?;
    u64::try_from_val(env, &raw).ok()
}

/// `Persistent::get` for a mood entry: the entry stored under `slot`, or
/// `None` where nothing is stored there or what is stored is no entry.  An
/// entry is stored as the vector of its five fields.
#[verifier::external_body]
pub(crate) fn load_entry(env: &Env, slot: &Slot) -> (found: Option<MoodEntry>)
    requires
        executing(*env),
    ensures
        match found {
            Some(entry) => entry_at(persistent(*env), slot@) == Some(entry@),
            None => entry_at(persistent(*env), slot@) is None,
        },
{
    let key = (slot.tag, slot.user.cloned(), slot.mood.cloned(), slot.index);
    let raw: Val = env.storage().persistent().get(&key)?;
    let items: soroban_sdk::Vec<Val> = TryFromVal::try_from_val(env, &raw).ok()?;
    let fields: [Val; 5] = items.iter().collect::<Vec<Val>>().try_into().ok()?;
    let parts: (Symbol, Symbol, bool, u64, u64) = TryFromVal::try_from_val(env, &fields).ok()?;
    let (mood, message, is_anonymous, timestamp, entry_id) = parts;
    Some(MoodEntry { mood, message, is_anonymous, timestamp, entry_id })
}

/// `Persistent::get` for a category count: the count stored under `slot`, or
/// `None` where nothing is stored there or what is stored is no such count.
/// A count is stored as the vector of its three fields.
#[verifier::external_body]
pub(crate) fn load_stats(env: &Env, slot: &Slot) -> (found: Option<MoodStats>)
    requires
        executing(*env),
    ensures
        match found {
            Some(stats) => stats_at(persistent(*env), slot@) == Some(stats@),
            None => stats_at(persistent(*env), slot@) is None,
        },
{
    let key = (slot.tag, slot.user.cloned(), slot.mood.cloned(), slot.index);
    let raw: Val = env.storage().persistent().get(&key)?;
    let items: soroban_sdk::Vec<Val> = TryFromVal::try_from_val(env, &raw).ok()?;
    let fields: [Val; 3] = items.iter().collect::<Vec<Val>>().try_into().ok()?;
    let parts: (Symbol, u64, u64) = TryFromVal::try_from_val(env, &fields).ok()?;
    let (mood_type, count, last_updated) = parts;
    Some(MoodStats { mood_type, count, last_updated })
}

/// `Persistent::set` with a number: afterwards `slot` holds `value`, and every
/// other slot what it held.
#[verifier::external_body]
pub(crate) fn store_count(env: &mut Env, slot: &Slot, value: u64)
    requires
        executing(*old(env)),
    ensures
        executing(*final(env)),
        persistent(*final(env)) == persistent(*old(env)).insert(slot@, Record::Count(value)),
{
    let key = (slot.tag, slot.user.cloned(), slot.mood.cloned(), slot.index);
    env.storage().persistent().set(&key, &value);
}

/// `Persistent::set` with a mood entry: afterwards `slot` holds the entry, and
/// every other slot what it held.
#[verifier::external_body]
pub(crate) fn store_entry(env: &mut Env, slot: &Slot, entry: &MoodEntry)
    requires
        executing(*old(env)),
    ensures
        executing(*final(env)),
        persistent(*final(env)) == persistent(*old(env)).insert(slot@, Record::Entry(entry@)),
{
    let key = (slot.tag, slot.user.cloned(), slot.mood.cloned(), slot.index);
    let value = (
        entry.mood.clone(),
        entry.message.clone(),
        entry.is_anonymous,
        entry.timestamp,
        entry.entry_id,
    );
    env.storage().persistent().set(&key, &value);
}

/// `Persistent::set` with a category count: afterwards `slot` holds the
/// count, and every other slot what it held.
#[verifier::external_body]
pub(crate) fn store_stats(env: &mut Env, slot: &Slot, stats: &MoodStats)
    requires
        executing(*old(env)),
    ensures
        executing(*final(env)),
        persistent(*final(env)) == persistent(*old(env)).insert(slot@, Record::Stats(stats@)),
{
    let key = (slot.tag, slot.user.cloned(), slot.mood.cloned(), slot.index);
    let value = (stats.mood_type.clone(), stats.count, stats.last_updated);
    env.storage().persistent().set(&key, &value);
}

/// `Persistent::remove`: afterwards `slot` holds nothing, and every other slot
/// what it held.  Removing from an empty slot changes nothing.
#[verifier::external_body]
pub(crate) fn erase(env: &mut Env, slot: &Slot)
    requires
        executing(*old(env)),
    ensures
        executing(*final(env)),
        persistent(*final(env)) == persistent(*old(env)).remove(slot@),
{
    let key = (slot.tag, slot.user.cloned(), slot.mood.cloned(), slot.index);
    env.storage().persistent().remove(&key);
}

} // verus!
