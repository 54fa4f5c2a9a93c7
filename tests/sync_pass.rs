use smsync::config::{Config, GameConfig};
use smsync::dirhash::{DirHasher, EntryKind};
use smsync::error::Error;
use smsync::hashsum::HashSum;
use smsync::sync::{
    backup, backup_entry, backup_filename, classify, lastsync_from_text, sync_conflict_resolver,
    target_paths, Action, TargetPaths, ToSync, BACKUP_PREFIX,
};

fn digest(byte: u8) -> HashSum {
    HashSum::from_bytes(&[byte; 32]).unwrap()
}

fn config() -> Config {
    Config {
        remote: "remote".to_string(),
        local_dir: "local".to_string(),
        games: vec![
            ("g".to_string(), GameConfig::Flat("saves/g".to_string())),
            ("off".to_string(), GameConfig::Wide { dir: "saves/off".to_string(), sync: Some(false) }),
            ("on".to_string(), GameConfig::Wide { dir: "saves/on".to_string(), sync: None }),
        ],
    }
}

fn decide<F: FnOnce(bool) -> Option<ToSync>>(
    local: &HashSum,
    remote: &HashSum,
    last: &HashSum,
    abort_allowed: bool,
    resolver: F,
) -> Action {
    let text = last.to_hex();
    sync_conflict_resolver(&config(), "g", local, remote, Some(&text), (), abort_allowed, |_, a| resolver(a))
        .unwrap()
}

fn paths() -> TargetPaths {
    target_paths(&config(), "g").unwrap()
}

fn one_file_tree() -> HashSum {
    let mut h = DirHasher::new("root");
    h.add_entry("save.dat", EntryKind::File, 2).unwrap();
    h.add_content(b"hi").unwrap();
    h.finish()
}

#[test]
fn classifier_truth_table() {
    let (a, b, c) = (digest(1), digest(2), digest(3));
    assert_eq!(classify(&a, &c, &c), Some(ToSync::Local));
    assert_eq!(classify(&c, &b, &c), Some(ToSync::Cloud));
    assert_eq!(classify(&a, &a, &c), Some(ToSync::NoSync));
    assert_eq!(classify(&c, &c, &c), Some(ToSync::NoSync));
    assert_eq!(classify(&a, &b, &c), None);
}

#[test]
fn resolver_called_once_on_conflict() {
    let mut calls = 0;
    let action = decide(&digest(1), &digest(2), &digest(3), false, |abort| {
        calls += 1;
        assert!(!abort);
        Some(ToSync::Local)
    });
    assert_eq!(calls, 1);
    match action {
        Action::Replace(t) => {
            assert_eq!(t.from, "saves/g");
            assert_eq!(t.to, "remote/g/head");
            assert_eq!(t.backup, "remote/g/backup");
            assert_eq!(t.record, "local/g/lastsync");
            assert_eq!(t.new_lastsync, digest(1).to_hex());
        }
        other => panic!("unexpected {:?}", other),
    }
}

#[test]
fn resolver_not_called_without_conflict() {
    let mut calls = 0;
    let action = decide(&digest(1), &digest(3), &digest(3), true, |_| {
        calls += 1;
        None
    });
    assert_eq!(calls, 0);
    assert!(matches!(action, Action::Replace(_)));
}

#[test]
fn no_answer_without_abort_is_ignore() {
    let action = decide(&digest(1), &digest(2), &digest(3), false, |_| None);
    assert!(matches!(action, Action::Keep));
}

#[test]
fn ignore_answer_keeps_both() {
    let action =
        decide(&digest(1), &digest(2), &digest(3), true, |_| Some(ToSync::NoSync));
    assert!(matches!(action, Action::Keep));
}

#[test]
fn agreed_and_recorded_keeps() {
    let action = decide(&digest(4), &digest(4), &digest(4), true, |_| None);
    assert!(matches!(action, Action::Keep));
}

#[test]
fn fresh_empty_target_records_empty_digest() {
    let empty = DirHasher::new("root").finish();
    let remote = DirHasher::new("root").finish();
    let last = lastsync_from_text(None);
    match decide(&empty, &remote, &last, false, |_| None) {
        Action::Record { record, new_lastsync } => {
            assert_eq!(record, "local/g/lastsync");
            assert_eq!(
                new_lastsync,
                "e3b0c44298fc1c149afbf4c8996fb92427ae41e4649b934ca495991b7852b855"
            );
        }
        other => panic!("unexpected {:?}", other),
    }
}

#[test]
fn new_local_file_takes_local() {
    let local = one_file_tree();
    let remote = DirHasher::new("root").finish();
    let last = lastsync_from_text(Some(&remote.to_hex()));
    match decide(&local, &remote, &last, false, |_| None) {
        Action::Replace(t) => {
            assert_eq!(t.from, "saves/g");
            assert_eq!(t.to, "remote/g/head");
            assert_eq!(t.new_lastsync, local.to_hex());
        }
        other => panic!("unexpected {:?}", other),
    }
}

#[test]
fn conflict_keep_remote_takes_remote() {
    let local = one_file_tree();
    let remote = digest(9);
    let last = DirHasher::new("root").finish();
    match decide(&local, &remote, &last, false, |_| Some(ToSync::Cloud)) {
        Action::Replace(t) => {
            assert_eq!(t.from, "remote/g/head");
            assert_eq!(t.to, "saves/g");
            assert_eq!(t.backup, "local/g/backup");
            assert_eq!(t.new_lastsync, remote.to_hex());
        }
        other => panic!("unexpected {:?}", other),
    }
}

#[test]
fn wrapped_run_abort_touches_nothing() {
    let action = decide(&digest(1), &digest(2), &digest(3), true, |abort| {
        assert!(abort);
        None
    });
    assert!(matches!(action, Action::Abort));
}

#[test]
fn target_layout() {
    let p = paths();
    assert_eq!(p.content, "saves/g");
    assert_eq!(p.head, "remote/g/head");
    assert_eq!(p.remote_backup, "remote/g/backup");
    assert_eq!(p.local_root, "local/g");
    assert_eq!(p.lastsync, "local/g/lastsync");
    assert_eq!(p.local_backup, "local/g/backup");
    assert_eq!(target_paths(&config(), "on").unwrap().content, "saves/on");
}

#[test]
fn unknown_target_is_refused() {
    match target_paths(&config(), "nope") {
        Err(Error::InvalidGame(g)) => assert_eq!(g, "nope"),
        other => panic!("unexpected {:?}", other),
    }
}

#[test]
fn disabled_target_is_refused() {
    match target_paths(&config(), "off") {
        Err(Error::NotSyncable(g)) => assert_eq!(g, "off"),
        other => panic!("unexpected {:?}", other),
    }
}

#[test]
fn lastsync_record_reading() {
    assert_eq!(lastsync_from_text(None), HashSum::default());
    assert_eq!(lastsync_from_text(Some("garbage")), HashSum::default());
    assert_eq!(lastsync_from_text(Some("")), HashSum::default());
    let d = digest(0xab);
    assert_eq!(lastsync_from_text(Some(&d.to_hex())), d);
}

#[test]
fn backup_names() {
    assert_eq!(
        backup_entry("b", BACKUP_PREFIX, "2024-01-02T03:04:05+00:00"),
        "b/implicit_2024-01-02T03:04:05+00:00"
    );
    let fresh = backup_filename("b", BACKUP_PREFIX);
    assert!(fresh.starts_with("b/implicit_"));
    assert!(fresh.len() > "b/implicit_".len());
}

#[test]
fn explicit_backup() {
    match backup(&config(), "nope") {
        Err(Error::InvalidGame(g)) => assert_eq!(g, "nope"),
        other => panic!("unexpected {:?}", other),
    }
    match backup(&config(), "g") {
        Err(Error::BackupUnsupported(g)) => assert_eq!(g, "g"),
        other => panic!("unexpected {:?}", other),
    }
}

#[test]
fn pass_refuses_unknown_and_disabled_targets() {
    let (a, b) = (digest(1), digest(2));
    let mut asked = false;
    match sync_conflict_resolver(&config(), "nope", &a, &b, None, (), true, |_, _| {
        asked = true;
        None
    }) {
        Err(Error::InvalidGame(g)) => assert_eq!(g, "nope"),
        other => panic!("unexpected {:?}", other),
    }
    match sync_conflict_resolver(&config(), "off", &a, &b, None, (), true, |_, _| {
        asked = true;
        None
    }) {
        Err(Error::NotSyncable(g)) => assert_eq!(g, "off"),
        other => panic!("unexpected {:?}", other),
    }
    assert!(!asked);
}

#[test]
fn pass_reads_bad_record_as_zero() {
    let zero = HashSum::default();
    let local = digest(5);
    for text in ["", "xyz", "abc", &format!("{}\n", local.to_hex())] {
        match sync_conflict_resolver(&config(), "g", &local, &zero, Some(text), (), false, |_, _| None) {
            Ok(Action::Replace(t)) => {
                assert_eq!(t.to, "remote/g/head");
                assert_eq!(t.new_lastsync, local.to_hex());
            }
            other => panic!("unexpected {:?}", other),
        }
    }
}

#[test]
fn resolver_gets_record_time() {
    let mut seen = None;
    let r = sync_conflict_resolver(&config(), "g", &digest(1), &digest(2), None, 42u64, true, |t, abort| {
        seen = Some((t, abort));
        Some(ToSync::Cloud)
    });
    assert!(matches!(r, Ok(Action::Replace(_))));
    assert_eq!(seen, Some((42, true)));
}
