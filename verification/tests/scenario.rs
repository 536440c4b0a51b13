use mood_ledger::contract::MoodContract;
use soroban_sdk::testutils::{Address as _, ContractFunctionSet, EnvTestConfig};
use soroban_sdk::{Address, Env, Error, Symbol, Val};

struct Ledger;

impl ContractFunctionSet for Ledger {
    fn call(&self, _func: &str, _env: Env, _args: &[Val]) -> Option<Val> {
        None
    }
}

fn deployed() -> (Env, Address) {
    let env = Env::new_with_config(EnvTestConfig { capture_snapshot_at_drop: false });
    let contract = env.register(Ledger, ());
    (env, contract)
}

fn moods_of(env: &Env, user: &Address) -> Vec<String> {
    MoodContract::get_mood_history(env, user.clone())
        .iter()
        .map(|entry| entry.mood.to_string())
        .collect()
}

#[test]
fn three_happy_then_one_sad() {
    let (env, contract) = deployed();
    let user = Address::generate(&env);
    let mut ledger = env.clone();
    env.as_contract(&contract, || {
        let note = Symbol::new(&env, "note");
        for expected in 1..=3u64 {
            let id = MoodContract::log_mood(
                &mut ledger,
                user.clone(),
                Symbol::new(&env, "Mutlu"),
                note.clone(),
                false,
            );
            assert_eq!(id, expected);
        }
        let id = MoodContract::log_mood(
            &mut ledger,
            user.clone(),
            Symbol::new(&env, "Uzgun"),
            note.clone(),
            true,
        );
        assert_eq!(id, 4);

        assert_eq!(MoodContract::get_user_mood_count(&ledger, user.clone()), 4);
        let latest = MoodContract::get_mood(&ledger, user.clone()).unwrap();
        assert_eq!(latest.mood, Symbol::new(&env, "Uzgun"));
        assert_eq!(latest.message, note);
        assert_eq!(latest.entry_id, 4);
        assert!(latest.is_anonymous);
        assert_eq!(moods_of(&ledger, &user), vec!["Mutlu", "Mutlu", "Mutlu", "Uzgun"]);
        let happy = MoodContract::get_mood_stats(&ledger, Symbol::new(&env, "Mutlu")).unwrap();
        assert_eq!(happy.count, 3);
        assert_eq!(happy.mood_type, Symbol::new(&env, "Mutlu"));
        let sad = MoodContract::get_mood_stats(&ledger, Symbol::new(&env, "Uzgun")).unwrap();
        assert_eq!(sad.count, 1);
        assert_eq!(MoodContract::get_global_mood_count(&ledger), 4);
        let stats = MoodContract::get_global_stats(&ledger);
        assert_eq!(stats.most_popular_mood, Symbol::new(&env, "Mutlu"));
        assert_eq!(stats.total_moods, 4);
        assert_eq!(stats.unique_users, 0);
    });
}

#[test]
fn a_call_that_fails_authentication_changes_nothing() {
    let (env, contract) = deployed();
    let user = Address::generate(&env);
    let mut ledger = env.clone();
    env.mock_all_auths();
    env.as_contract(&contract, || {
        user.require_auth();
        MoodContract::log_mood(
            &mut ledger,
            user.clone(),
            Symbol::new(&env, "Sakin"),
            Symbol::new(&env, "first"),
            false,
        );
    });

    env.set_auths(&[]);
    let rejected = env.try_as_contract::<u64, Error>(&contract, || {
        user.require_auth();
        MoodContract::log_mood(
            &mut ledger,
            user.clone(),
            Symbol::new(&env, "Uzgun"),
            Symbol::new(&env, "second"),
            false,
        )
    });
    assert!(rejected.is_err());

    env.as_contract(&contract, || {
        assert_eq!(MoodContract::get_global_mood_count(&ledger), 1);
        assert_eq!(MoodContract::get_user_mood_count(&ledger, user.clone()), 1);
        assert!(MoodContract::get_mood_stats(&ledger, Symbol::new(&env, "Uzgun")).is_none());
        let latest = MoodContract::get_mood(&ledger, user.clone()).unwrap();
        assert_eq!(latest.mood, Symbol::new(&env, "Sakin"));
        assert_eq!(moods_of(&ledger, &user), vec!["Sakin"]);
    });
}

#[test]
fn a_failed_call_leaves_no_part_of_its_writes() {
    let (env, contract) = deployed();
    let user = Address::generate(&env);
    let mut ledger = env.clone();
    let rejected = env.try_as_contract::<u64, Error>(&contract, || {
        let id = MoodContract::log_mood(
            &mut ledger,
            user.clone(),
            Symbol::new(&env, "Mutlu"),
            Symbol::new(&env, "lost"),
            false,
        );
        user.require_auth();
        id
    });
    assert!(rejected.is_err());
    env.as_contract(&contract, || {
        assert_eq!(MoodContract::get_global_mood_count(&ledger), 0);
        assert_eq!(MoodContract::get_user_mood_count(&ledger, user.clone()), 0);
        assert!(MoodContract::get_mood(&ledger, user.clone()).is_none());
        assert!(!MoodContract::health_check(&ledger));
    });
}

#[test]
fn operations_are_open_only_inside_a_contract() {
    let (env, contract) = deployed();
    assert!(!MoodContract::in_contract(&env));
    env.as_contract(&contract, || {
        assert!(MoodContract::in_contract(&env));
    });
    assert!(!MoodContract::in_contract(&env));
}

#[test]
fn the_version_is_fixed() {
    assert_eq!(MoodContract::get_version().to_string(), "v1_0_0");
}

#[test]
fn health_follows_the_global_counter() {
    let (env, contract) = deployed();
    let user = Address::generate(&env);
    let mut ledger = env.clone();
    env.as_contract(&contract, || {
        assert!(!MoodContract::health_check(&ledger));
        assert_eq!(MoodContract::get_global_mood_count(&ledger), 0);
        MoodContract::log_mood(
            &mut ledger,
            user.clone(),
            Symbol::new(&env, "Motive"),
            Symbol::new(&env, "go"),
            false,
        );
        assert!(MoodContract::health_check(&ledger));
        assert_eq!(MoodContract::get_global_mood_count(&ledger), 1);
    });
}
