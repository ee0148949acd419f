use neptun::engine::add_record;
use neptun::engine::dispatch;
use neptun::engine::get_record;
use neptun::engine::handle_commands;
use neptun::engine::menu;
use neptun::engine::new_record;
use neptun::engine::record_commands;
use neptun::engine::Action;
use neptun::engine::Command;
use neptun::engine::Event;
use neptun::engine::RecordCommand;
use neptun::engine::State;
use neptun::settings::Config;
use neptun::store::RecordStore;

fn test_config() -> Config {
    Config::assemble(10, vec![11, 12], "bot".to_string()).expect("a plain username is valid")
}

#[test]
fn full_recording_and_retrieval() {
    // conversation A records two messages; conversation B retrieves them
    let mut store = RecordStore::new();
    let cfg = test_config();
    let a = 1001;
    let b = 2002;

    let (st, act) = new_record(&mut store, a);
    assert_eq!(st, State::AddRecord { id: 1 });
    assert_eq!(act, Action::RecordCreated { cid: a, id: 1 });

    let (st, act) = add_record(&mut store, 1, a, 71);
    assert_eq!(st, State::AddRecord { id: 1 });
    assert_eq!(act, Action::MessageAdded { cid: a, id: 1, mid: 71 });
    let rec = store.fetch(1, false).expect("still open");
    assert_eq!(rec.messages.ids, vec![71]);
    assert_eq!(rec.count, 1);

    let (st, act) = add_record(&mut store, 1, a, 72);
    assert_eq!(st, State::AddRecord { id: 1 });
    assert_eq!(act, Action::MessageAdded { cid: a, id: 1, mid: 72 });
    let rec = store.fetch(1, false).expect("still open");
    assert_eq!(rec.messages.ids, vec![71, 72]);
    assert_eq!(rec.count, 2);

    let (st, act) = record_commands(&mut store, &cfg, 1, a, RecordCommand::EndRecord);
    assert_eq!(st, State::Menu);
    match act {
        Action::RecordSealed { cid, id, count, ref link } => {
            assert_eq!(cid, a);
            assert_eq!(id, 1);
            assert_eq!(count, 2);
            let rec = store.fetch(1, true).expect("sealed now");
            assert_eq!(*link, format!("tg://@bot?start=record-1-{}", rec.slug));
        }
        ref other => panic!("expected a sealed report, got {other:?}"),
    }

    let acts = get_record(&store, 1, b);
    assert_eq!(
        acts,
        vec![
            Action::CopyMessage { to: b, from: a, mid: 71 },
            Action::CopyMessage { to: b, from: a, mid: 72 },
            Action::ReportTotal { cid: b, count: 2 },
        ]
    );
}

#[test]
fn retrieval_before_seal_is_not_found() {
    let mut store = RecordStore::new();
    let a = 1;
    let b = 2;
    let (_, _) = new_record(&mut store, a);
    let (_, _) = add_record(&mut store, 1, a, 5);
    let acts = get_record(&store, 1, b);
    assert_eq!(acts, vec![Action::RecordNotFound { cid: b, id: 1 }]);
}

#[test]
fn retrieval_of_absent_record_is_not_found() {
    let store = RecordStore::new();
    let acts = get_record(&store, 1, 9);
    assert_eq!(acts, vec![Action::RecordNotFound { cid: 9, id: 1 }]);
}

#[test]
fn append_after_seal_is_rejected_and_state_unchanged() {
    let mut store = RecordStore::new();
    let cfg = test_config();
    let a = 7;
    let (_, _) = new_record(&mut store, a);
    let (_, _) = add_record(&mut store, 1, a, 41);
    let (_, _) = record_commands(&mut store, &cfg, 1, a, RecordCommand::EndRecord);

    let (st, act) = add_record(&mut store, 1, a, 42);
    assert_eq!(st, State::Menu);
    assert_eq!(act, Action::OpenRecordMissing { cid: a });
    let rec = store.fetch(1, true).expect("still sealed");
    assert_eq!(rec.messages.ids, vec![41]);
    assert_eq!(rec.count, 1);
}

#[test]
fn sealing_twice_is_a_noop_reported_as_not_found() {
    let mut store = RecordStore::new();
    let cfg = test_config();
    let a = 7;
    let (_, _) = new_record(&mut store, a);
    let (_, _) = record_commands(&mut store, &cfg, 1, a, RecordCommand::EndRecord);

    let (st, act) = record_commands(&mut store, &cfg, 1, a, RecordCommand::EndRecord);
    assert_eq!(st, State::Menu);
    assert_eq!(act, Action::OpenRecordMissing { cid: a });
    assert!(store.fetch(1, true).is_some());
}

#[test]
fn session_self_heals_on_vanished_record() {
    let mut store = RecordStore::new();
    let cfg = test_config();
    // the session claims a record that was never created
    let (st, act) = add_record(&mut store, 99, 5, 1);
    assert_eq!(st, State::Menu);
    assert_eq!(act, Action::OpenRecordMissing { cid: 5 });
    let (st, act) = record_commands(&mut store, &cfg, 99, 5, RecordCommand::EndRecord);
    assert_eq!(st, State::Menu);
    assert_eq!(act, Action::OpenRecordMissing { cid: 5 });
}

#[test]
fn session_is_deterministic_in_its_messages() {
    let mut store = RecordStore::new();
    let cfg = test_config();
    let a = 31;
    let n = 25;
    let (mut st, _) = new_record(&mut store, a);
    assert_eq!(st, State::AddRecord { id: 1 });
    for k in 0..n {
        let (s2, _) = add_record(&mut store, 1, a, 100 + k);
        st = s2;
    }
    assert_eq!(st, State::AddRecord { id: 1 });
    let (st, act) = record_commands(&mut store, &cfg, 1, a, RecordCommand::EndRecord);
    assert_eq!(st, State::Menu);
    match act {
        Action::RecordSealed { count, .. } => assert_eq!(count, n as i64),
        ref other => panic!("expected a sealed report, got {other:?}"),
    }
    let rec = store.fetch(1, true).expect("sealed");
    assert_eq!(rec.count, n as i64);
    let expected: Vec<i32> = (0..n).map(|k| 100 + k).collect();
    assert_eq!(rec.messages.ids, expected);
}

#[test]
fn count_always_matches_references() {
    let mut store = RecordStore::new();
    let a = 3;
    let (_, _) = new_record(&mut store, a);
    let rec = store.fetch(1, false).expect("created open");
    assert_eq!(rec.count, 0);
    assert!(rec.messages.ids.is_empty());
    assert!(!rec.done);
    assert_eq!(rec.messages.cid, a);
    for k in 1..=4 {
        let (_, _) = add_record(&mut store, 1, a, k);
        let rec = store.fetch(1, false).expect("open");
        assert_eq!(rec.count as usize, rec.messages.ids.len());
    }
}

#[test]
fn slug_is_sixteen_alphanumerics() {
    let mut store = RecordStore::new();
    let (_, _) = new_record(&mut store, 4);
    let rec = store.fetch(1, false).expect("created open");
    assert_eq!(rec.slug.chars().count(), 16);
    assert!(rec.slug.chars().all(|c| c.is_ascii_alphanumeric()));
}

#[test]
fn start_with_matching_slug_retrieves() {
    let mut store = RecordStore::new();
    let cfg = test_config();
    let a = 1;
    let b = 2;
    let (_, _) = new_record(&mut store, a);
    let (_, _) = add_record(&mut store, 1, a, 9);
    let (_, _) = record_commands(&mut store, &cfg, 1, a, RecordCommand::EndRecord);
    let slug = store.fetch(1, true).expect("sealed").slug;

    let token = format!("record-1-{slug}");
    let (st, acts) = handle_commands(&mut store, &cfg, State::Menu, b, Command::Start(token));
    assert_eq!(st, State::Menu);
    assert_eq!(
        acts,
        vec![
            Action::CopyMessage { to: b, from: a, mid: 9 },
            Action::ReportTotal { cid: b, count: 1 },
        ]
    );
}

#[test]
fn start_with_wrong_slug_is_not_found() {
    let mut store = RecordStore::new();
    let cfg = test_config();
    let a = 1;
    let (_, _) = new_record(&mut store, a);
    let (_, _) = record_commands(&mut store, &cfg, 1, a, RecordCommand::EndRecord);

    let (_, acts) = handle_commands(
        &mut store,
        &cfg,
        State::Menu,
        2,
        Command::Start("record-1-0000000000000000".to_string()),
    );
    assert_eq!(acts, vec![Action::RecordNotFound { cid: 2, id: 1 }]);
}

#[test]
fn start_without_token_welcomes() {
    let mut store = RecordStore::new();
    let cfg = test_config();
    let (st, acts) = handle_commands(
        &mut store,
        &cfg,
        State::Menu,
        5,
        Command::Start("hello".to_string()),
    );
    assert_eq!(st, State::Menu);
    assert_eq!(acts, vec![Action::Welcome { cid: 5 }]);
}

#[test]
fn router_follows_the_lifecycle_table() {
    let mut store = RecordStore::new();
    let cfg = test_config();
    let a = 8;

    // content in the menu phase shows the menu
    let (st, acts) = dispatch(&mut store, &cfg, State::Menu, a, Event::Content { mid: 1 });
    assert_eq!(st, State::Menu);
    assert_eq!(acts, vec![Action::ShowMenu { cid: a }]);

    // a help command works in any phase and changes nothing
    let (st, acts) = dispatch(&mut store, &cfg, State::Menu, a, Event::Command(Command::Help));
    assert_eq!(st, State::Menu);
    assert_eq!(acts, vec![Action::Help { cid: a }]);

    // opening a record moves to the recording phase
    let (st, acts) =
        dispatch(&mut store, &cfg, State::Menu, a, Event::Command(Command::NewRecord));
    assert_eq!(st, State::AddRecord { id: 1 });
    assert_eq!(acts, vec![Action::RecordCreated { cid: a, id: 1 }]);

    // content while recording appends
    let (st, acts) = dispatch(&mut store, &cfg, st, a, Event::Content { mid: 55 });
    assert_eq!(st, State::AddRecord { id: 1 });
    assert_eq!(acts, vec![Action::MessageAdded { cid: a, id: 1, mid: 55 }]);

    // an end-record command while recording seals and returns to the menu
    let (st, acts) =
        dispatch(&mut store, &cfg, st, a, Event::RecordCommand(RecordCommand::EndRecord));
    assert_eq!(st, State::Menu);
    assert!(matches!(acts[0], Action::RecordSealed { cid, id, count, .. }
        if cid == a && id == 1 && count == 1));

    // an end-record command outside recording falls back to the menu
    let (st, acts) =
        dispatch(&mut store, &cfg, State::Menu, a, Event::RecordCommand(RecordCommand::EndRecord));
    assert_eq!(st, State::Menu);
    assert_eq!(acts, vec![Action::ShowMenu { cid: a }]);

    // retrieval by id works regardless of phase
    let (st, acts) =
        dispatch(&mut store, &cfg, State::Menu, 2, Event::Command(Command::GetRecord { id: 1 }));
    assert_eq!(st, State::Menu);
    assert_eq!(
        acts,
        vec![
            Action::CopyMessage { to: 2, from: a, mid: 55 },
            Action::ReportTotal { cid: 2, count: 1 },
        ]
    );
}

#[test]
fn menu_reply_names_the_conversation() {
    assert_eq!(menu(12), Action::ShowMenu { cid: 12 });
}

#[test]
fn default_state_is_menu() {
    assert_eq!(State::default(), State::Menu);
}

#[test]
fn config_rejects_at_prefixed_username() {
    assert!(Config::assemble(1, vec![], "@bot".to_string()).is_none());
}

#[test]
fn config_adds_developer_to_admins() {
    let cfg = Config::assemble(9, vec![1, 2], "bot".to_string()).expect("valid");
    assert_eq!(cfg.admins, vec![1, 2, 9]);
    assert_eq!(cfg.dev, 9);
    assert_eq!(cfg.bot_username, "bot");
}
