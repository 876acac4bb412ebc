use secure_storage::commands::Arg;
use secure_storage::commands::CmdError;
use secure_storage::commands::Outcome;
use secure_storage::commands::Reply;
use secure_storage::commands::secure_del;
use secure_storage::commands::secure_get;
use secure_storage::commands::secure_keys;
use secure_storage::commands::secure_set;
use secure_storage::store::Store;

fn text(s: &str) -> Arg {
    Arg::Text(s.to_string())
}

fn set_args(key: &str, value: &str) -> Vec<Arg> {
    vec![text("secure.set"), text(key), text(value)]
}

fn get_args(key: &str) -> Vec<Arg> {
    vec![text("secure.get"), text(key)]
}

fn del_args(key: &str) -> Vec<Arg> {
    vec![text("secure.del"), text(key)]
}

fn keys_args() -> Vec<Arg> {
    vec![text("secure.keys")]
}

fn sorted_keys(store: &Store) -> Vec<String> {
    let outcome = secure_keys(store, keys_args()).unwrap();
    match outcome.reply {
        Reply::Keys(mut keys) => {
            keys.sort();
            keys
        }
        other => panic!("keys replied {:?}", other),
    }
}

fn get_value(store: &Store, key: &str) -> Option<String> {
    match secure_get(store, get_args(key)).unwrap().reply {
        Reply::Bulk(v) => Some(v),
        Reply::Null => None,
        other => panic!("get replied {:?}", other),
    }
}

#[test]
fn set_replies_ok_and_replicates() {
    let mut store = Store::new();
    let outcome = secure_set(&mut store, set_args("k", "v")).unwrap();
    assert!(outcome.replicate);
    match outcome.reply {
        Reply::Status(s) => assert_eq!(s, "OK"),
        other => panic!("set replied {:?}", other),
    }
}

#[test]
fn read_after_write() {
    let mut store = Store::new();
    secure_set(&mut store, set_args("k", "v")).unwrap();
    assert_eq!(get_value(&store, "k"), Some("v".to_string()));
    secure_set(&mut store, set_args("other", "x")).unwrap();
    assert_eq!(get_value(&store, "k"), Some("v".to_string()));
    secure_del(&mut store, del_args("other")).unwrap();
    assert_eq!(get_value(&store, "k"), Some("v".to_string()));
}

#[test]
fn overwrite_supersedes_first_value() {
    let mut store = Store::new();
    secure_set(&mut store, set_args("k", "v1")).unwrap();
    secure_set(&mut store, set_args("k", "v2")).unwrap();
    assert_eq!(get_value(&store, "k"), Some("v2".to_string()));
    assert_eq!(sorted_keys(&store), vec!["k".to_string()]);
}

#[test]
fn delete_twice_reports_one_then_zero() {
    let mut store = Store::new();
    secure_set(&mut store, set_args("k", "v")).unwrap();
    let first = secure_del(&mut store, del_args("k")).unwrap();
    assert!(matches!(first.reply, Reply::Int(1)));
    assert_eq!(get_value(&store, "k"), None);
    let second = secure_del(&mut store, del_args("k")).unwrap();
    assert!(matches!(second.reply, Reply::Int(0)));
    assert_eq!(get_value(&store, "k"), None);
}

#[test]
fn absent_key_is_not_an_error() {
    let store_args = get_args("never-set");
    let mut store = Store::new();
    let got = secure_get(&store, store_args).unwrap();
    assert!(matches!(got.reply, Reply::Null));
    let deleted = secure_del(&mut store, del_args("never-set")).unwrap();
    assert!(matches!(deleted.reply, Reply::Int(0)));
}

#[test]
fn set_with_missing_arguments_mutates_nothing() {
    let mut store = Store::new();
    secure_set(&mut store, set_args("k", "v")).unwrap();
    let before = sorted_keys(&store);

    let one_arg = secure_set(&mut store, vec![text("secure.set")]);
    assert!(matches!(one_arg, Err(CmdError::WrongArity)));
    let two_args = secure_set(&mut store, vec![text("secure.set"), text("k")]);
    assert!(matches!(two_args, Err(CmdError::WrongArity)));

    assert_eq!(sorted_keys(&store), before);
    assert_eq!(get_value(&store, "k"), Some("v".to_string()));
}

#[test]
fn every_command_enforces_its_arity() {
    let mut store = Store::new();
    let four = vec![text("secure.set"), text("k"), text("v"), text("extra")];
    assert!(matches!(secure_set(&mut store, four), Err(CmdError::WrongArity)));
    let get_extra = vec![text("secure.get"), text("k"), text("extra")];
    assert!(matches!(secure_get(&store, get_extra), Err(CmdError::WrongArity)));
    let del_extra = vec![text("secure.del"), text("k"), text("extra")];
    assert!(matches!(secure_del(&mut store, del_extra), Err(CmdError::WrongArity)));
    let keys_extra = vec![text("secure.keys"), text("extra")];
    assert!(matches!(secure_keys(&store, keys_extra), Err(CmdError::WrongArity)));
    assert_eq!(sorted_keys(&store), Vec::<String>::new());
}

#[test]
fn undecodable_argument_fails_before_the_store() {
    let mut store = Store::new();
    let bad_key = vec![text("secure.set"), Arg::Undecodable, text("v")];
    assert!(matches!(secure_set(&mut store, bad_key), Err(CmdError::Decoding)));
    let bad_value = vec![text("secure.set"), text("k"), Arg::Undecodable];
    assert!(matches!(secure_set(&mut store, bad_value), Err(CmdError::Decoding)));
    let bad_get = vec![text("secure.get"), Arg::Undecodable];
    assert!(matches!(secure_get(&store, bad_get), Err(CmdError::Decoding)));
    let bad_del = vec![text("secure.del"), Arg::Undecodable];
    assert!(matches!(secure_del(&mut store, bad_del), Err(CmdError::Decoding)));
    assert_eq!(sorted_keys(&store), Vec::<String>::new());
}

#[test]
fn keys_lists_exactly_the_distinct_sets() {
    let mut store = Store::new();
    let names = ["alpha", "beta", "gamma", "delta", "epsilon"];
    for name in names.iter() {
        secure_set(&mut store, set_args(name, "v")).unwrap();
    }
    let mut expected: Vec<String> = names.iter().map(|n| n.to_string()).collect();
    expected.sort();
    assert_eq!(sorted_keys(&store), expected);
}

#[test]
fn readers_see_identical_results() {
    let mut store = Store::new();
    secure_set(&mut store, set_args("k", "v")).unwrap();
    secure_set(&mut store, set_args("j", "w")).unwrap();
    let first_get = get_value(&store, "k");
    let first_keys = sorted_keys(&store);
    for _ in 0..32 {
        let read = secure_get(&store, get_args("k")).unwrap();
        assert!(!read.replicate);
        assert_eq!(get_value(&store, "k"), first_get);
        assert_eq!(sorted_keys(&store), first_keys);
    }
}

#[test]
fn error_messages_name_the_failure() {
    assert_eq!(CmdError::WrongArity.message(), "wrong number of arguments");
    assert_eq!(CmdError::Decoding.message(), "argument is not a valid string");
    assert_eq!(CmdError::Lock.message(), "failed to acquire the store lock");
}

enum Invocation {
    Put(String, String),
    Del(String),
}

fn run_mutations(store: &mut Store, invocations: &[Invocation]) -> Vec<(Invocation, bool)> {
    let mut signals: Vec<(Invocation, bool)> = Vec::new();
    for invocation in invocations.iter() {
        let outcome: Outcome = match invocation {
            Invocation::Put(k, v) => secure_set(store, set_args(k, v)).unwrap(),
            Invocation::Del(k) => secure_del(store, del_args(k)).unwrap(),
        };
        let replayed = match invocation {
            Invocation::Put(k, v) => Invocation::Put(k.clone(), v.clone()),
            Invocation::Del(k) => Invocation::Del(k.clone()),
        };
        signals.push((replayed, outcome.replicate));
    }
    signals
}

#[test]
fn replaying_the_signals_reproduces_the_state() {
    let invocations = vec![
        Invocation::Put("a".to_string(), "1".to_string()),
        Invocation::Put("b".to_string(), "2".to_string()),
        Invocation::Del("a".to_string()),
        Invocation::Put("c".to_string(), "3".to_string()),
        Invocation::Del("missing".to_string()),
        Invocation::Put("b".to_string(), "2bis".to_string()),
    ];
    let mut store = Store::new();
    let signals = run_mutations(&mut store, &invocations);

    // Exactly one replication signal per successful mutating invocation,
    // the no-op delete included.
    assert_eq!(signals.len(), invocations.len());
    assert!(signals.iter().all(|(_, replicate)| *replicate));

    // Replaying the signalled invocations against an empty store rebuilds
    // the same final state.
    let mut replica = Store::new();
    for (invocation, _) in signals.iter() {
        match invocation {
            Invocation::Put(k, v) => {
                secure_set(&mut replica, set_args(k, v)).unwrap();
            }
            Invocation::Del(k) => {
                secure_del(&mut replica, del_args(k)).unwrap();
            }
        }
    }
    let keys = sorted_keys(&store);
    assert_eq!(keys, sorted_keys(&replica));
    for key in keys.iter() {
        assert_eq!(get_value(&store, key), get_value(&replica, key));
    }
}

#[test]
fn empty_string_value_is_not_the_absent_marker() {
    let mut store = Store::new();
    secure_set(&mut store, set_args("k", "")).unwrap();
    assert_eq!(get_value(&store, "k"), Some("".to_string()));
    secure_del(&mut store, del_args("k")).unwrap();
    assert_eq!(get_value(&store, "k"), None);
}
