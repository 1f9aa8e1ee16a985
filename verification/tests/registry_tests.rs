use zenweb::registry::Contract;
use zenweb::registry::ContractFile;
use zenweb::registry::DiscoveryError;
use zenweb::registry::Registry;
use zenweb::registry::plan_discovery;
use zenweb::registry::script_stem;

fn file(name: &str, script: &[u8], keys: Option<&[u8]>) -> ContractFile {
    ContractFile { name: String::from(name), script: script.to_vec(), keys: keys.map(|k| k.to_vec()) }
}

#[test]
fn stem_of_script_file() {
    assert_eq!(script_stem("foo.zen"), Some(String::from("foo")));
    assert_eq!(script_stem("a.b.zen"), Some(String::from("a.b")));
    assert_eq!(script_stem("café.zen"), Some(String::from("café")));
}

#[test]
fn stem_of_non_script_file() {
    assert_eq!(script_stem("foo.txt"), None);
    assert_eq!(script_stem("foo"), None);
    assert_eq!(script_stem("zen"), None);
    assert_eq!(script_stem(".zen"), None);
    assert_eq!(script_stem("foo.zenx"), None);
    assert_eq!(script_stem(""), None);
}

#[test]
fn plan_filters_and_strips() {
    let names = vec![
        String::from("echo.zen"),
        String::from("README.md"),
        String::from("sign.zen"),
        String::from("sign.keys"),
        String::from(".zen"),
    ];
    let planned = plan_discovery(&names);
    assert_eq!(planned, vec![String::from("echo"), String::from("sign")]);
}

#[test]
fn plan_of_scripts_keeps_every_file() {
    let names = vec![String::from("a.zen"), String::from("b.zen"), String::from("c.zen")];
    let planned = plan_discovery(&names);
    assert_eq!(planned.len(), 3);
    assert_eq!(planned, vec![String::from("a"), String::from("b"), String::from("c")]);
}

#[test]
fn non_script_files_never_change_the_plan() {
    let with_junk = vec![
        String::from("notes.txt"),
        String::from("a.zen"),
        String::from("backup"),
        String::from("b.zen"),
        String::from("b.keys"),
    ];
    let without = vec![String::from("a.zen"), String::from("b.zen")];
    assert_eq!(plan_discovery(&with_junk), plan_discovery(&without));
}

#[test]
fn build_keeps_one_entry_per_file() {
    let files = vec![
        file("echo", b"Given nothing", Some(b"k1")),
        file("sign", b"Given a key", None),
    ];
    let reg = Registry::build(files).unwrap();
    assert_eq!(reg.len(), 2);
    let echo: &Contract = reg.get(&String::from("echo")).unwrap();
    assert_eq!(echo.name, String::from("echo"));
    assert_eq!(echo.script, b"Given nothing".to_vec());
    assert_eq!(echo.keys, b"k1".to_vec());
    let sign = reg.get(&String::from("sign")).unwrap();
    assert_eq!(sign.script, b"Given a key".to_vec());
}

#[test]
fn missing_key_file_means_empty_keys() {
    let files = vec![file("echo", b"Given nothing", None)];
    let reg = Registry::build(files).unwrap();
    let echo = reg.get(&String::from("echo")).unwrap();
    assert_eq!(echo.keys, Vec::<u8>::new());
}

#[test]
fn unknown_name_finds_nothing() {
    let files = vec![file("echo", b"Given nothing", None)];
    let reg = Registry::build(files).unwrap();
    assert!(reg.get(&String::from("does-not-exist")).is_none());
    let empty = Registry::build(Vec::new()).unwrap();
    assert!(empty.get(&String::from("does-not-exist")).is_none());
}

#[test]
fn embedded_nul_in_script_fails_discovery() {
    let files = vec![file("bad", b"Given\0nothing", None)];
    match Registry::build(files) {
        Err(DiscoveryError::EmbeddedNul { name }) => assert_eq!(name, String::from("bad")),
        _ => panic!("expected an embedded-NUL discovery error"),
    }
}

#[test]
fn embedded_nul_in_keys_fails_discovery() {
    let files = vec![file("bad", b"Given nothing", Some(b"k\0k"))];
    match Registry::build(files) {
        Err(DiscoveryError::EmbeddedNul { name }) => assert_eq!(name, String::from("bad")),
        _ => panic!("expected an embedded-NUL discovery error"),
    }
}

#[test]
fn duplicate_name_fails_discovery() {
    let files = vec![
        file("echo", b"first", None),
        file("echo", b"second", None),
    ];
    match Registry::build(files) {
        Err(DiscoveryError::DuplicateName { name }) => assert_eq!(name, String::from("echo")),
        _ => panic!("expected a duplicate-name discovery error"),
    }
}

#[test]
fn first_failure_wins() {
    let files = vec![
        file("ok", b"fine", None),
        file("nul", b"a\0b", None),
        file("ok", b"duplicate later", None),
    ];
    match Registry::build(files) {
        Err(DiscoveryError::EmbeddedNul { name }) => assert_eq!(name, String::from("nul")),
        _ => panic!("expected the embedded-NUL error of the earlier file"),
    }
}

#[test]
fn lookups_stay_consistent_across_many_readers() {
    let files = vec![
        file("a", b"script a", Some(b"keys a")),
        file("b", b"script b", None),
    ];
    let reg = Registry::build(files).unwrap();
    for _ in 0..10_000 {
        let a = reg.get(&String::from("a")).unwrap();
        assert_eq!(a.script, b"script a".to_vec());
        assert_eq!(a.keys, b"keys a".to_vec());
        let b = reg.get(&String::from("b")).unwrap();
        assert_eq!(b.script, b"script b".to_vec());
        assert_eq!(b.keys, Vec::<u8>::new());
        assert!(reg.get(&String::from("c")).is_none());
        assert_eq!(reg.len(), 2);
    }
}
