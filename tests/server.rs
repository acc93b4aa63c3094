use instrument_sync::broadcast::{relay_pedal, Broadcaster};
use instrument_sync::catalog::{list_songs, Catalog};
use instrument_sync::pedal::PedalState;
use instrument_sync::protocol::{
    finish_select, handle_text, init_for_client, parse_command, reply_message, Audience, Command,
    Step,
};
use instrument_sync::store::{ConfigError, Store, StoreError};

fn piano_organ() -> Store {
    let mut c = Catalog::new();
    c.insert("organ".to_string(), "/o".to_string());
    c.insert("piano".to_string(), "/p".to_string());
    Store::new("piano".to_string(), c).unwrap()
}

fn respond(step: Step) -> (Audience, String) {
    match step {
        Step::Respond(r) => (r.audience, r.text),
        Step::Control { name, .. } => panic!("unexpected control step for {}", name),
    }
}

#[test]
fn scenario_init_select_and_unknown() {
    let mut store = piano_organ();
    let (aud, text) = respond(handle_text(&store, "INIT"));
    assert_eq!(aud, Audience::Everyone);
    assert_eq!(text, "INIT piano organ piano");

    let (name, locator) = match handle_text(&store, "INSTR organ") {
        Step::Control { name, locator } => (name, locator),
        Step::Respond(r) => panic!("unexpected reply {}", r.text),
    };
    assert_eq!(name, "organ");
    assert_eq!(locator, "/o");
    let reply = finish_select(&mut store, &name, true);
    assert_eq!(reply.audience, Audience::Everyone);
    assert_eq!(reply.text, "organ");
    assert_eq!(store.selected(), "organ");

    let (aud, text) = respond(handle_text(&store, "INSTR saxophone"));
    assert_eq!(aud, Audience::Requester);
    assert_eq!(text, "ERROR NotFound saxophone");
    assert_eq!(store.selected(), "organ");
}

#[test]
fn init_twice_gives_identical_payload() {
    let store = piano_organ();
    let a = respond(handle_text(&store, "INIT")).1;
    let b = respond(handle_text(&store, "INIT")).1;
    assert_eq!(a.as_bytes(), b.as_bytes());
    assert_eq!(init_for_client(&store), "INIT piano organ piano");
}

#[test]
fn unknown_instrument_keeps_selection() {
    let mut store = piano_organ();
    let reply = finish_select(&mut store, "nonexistent", true);
    assert_eq!(reply.audience, Audience::Requester);
    assert_eq!(reply.text, "ERROR NotFound nonexistent");
    assert_eq!(store.selected(), "piano");
    let (_, text) = respond(handle_text(&store, "INIT"));
    assert!(text.starts_with("INIT piano "));
}

#[test]
fn serialized_selects_last_one_wins() {
    let mut store = piano_organ();
    let first = finish_select(&mut store, "organ", true);
    let second = finish_select(&mut store, "piano", true);
    assert_eq!(first.text, "organ");
    assert_eq!(second.text, "piano");
    assert_eq!(store.selected(), "piano");

    let mut store = piano_organ();
    finish_select(&mut store, "piano", true);
    let last = finish_select(&mut store, "organ", true);
    assert_eq!(store.selected(), "organ");
    assert_eq!(last.text, store.selected().as_str());
}

#[test]
fn failed_control_action_leaves_store() {
    let mut store = piano_organ();
    assert_eq!(store.select("organ", false), Err(StoreError::ControlActionFailed));
    assert_eq!(store.selected(), "piano");
    let reply = finish_select(&mut store, "organ", false);
    assert_eq!(reply.audience, Audience::Requester);
    assert_eq!(reply.text, "ERROR ControlActionFailed organ");
    assert_eq!(store.select("organ", true), Ok(()));
    assert_eq!(store.select("flute", true), Err(StoreError::NotFound));
}

#[test]
fn other_commands_are_echoed_or_report_selection() {
    let store = piano_organ();
    assert_eq!(respond(handle_text(&store, "HELLO there")), (Audience::Everyone, "HELLO".to_string()));
    assert_eq!(respond(handle_text(&store, "INSTR")), (Audience::Everyone, "piano".to_string()));
    assert_eq!(respond(handle_text(&store, "   ")), (Audience::Everyone, String::new()));
}

#[test]
fn commands_parse_by_first_word() {
    assert_eq!(parse_command("INIT"), Command::Init);
    assert_eq!(parse_command("  INIT extra"), Command::Init);
    assert_eq!(parse_command("INSTR organ"), Command::Select("organ".to_string()));
    assert_eq!(parse_command("INSTR\t organ  piano"), Command::Select("organ".to_string()));
    assert_eq!(parse_command("INSTR"), Command::Current);
    assert_eq!(parse_command("init"), Command::Echo("init".to_string()));
    assert_eq!(parse_command(""), Command::Echo(String::new()));
    assert_eq!(parse_command("INSTR\u{3000}organ"), Command::Select("organ".to_string()));
}

#[test]
fn store_construction_errors() {
    assert_eq!(Store::new("piano".to_string(), Catalog::new()).err(), Some(ConfigError::EmptyCatalog));
    let mut c = Catalog::new();
    c.insert("organ".to_string(), "/o".to_string());
    assert_eq!(Store::new("piano".to_string(), c).err(), Some(ConfigError::UnknownSelection));
    let mut c = Catalog::new();
    c.insert("organ".to_string(), "/o".to_string());
    let s = Store::new(String::new(), c).unwrap();
    assert_eq!(s.selected(), "");
    assert_eq!(init_for_client(&s), "INIT  organ");
}

#[test]
fn catalog_insert_replaces_locator() {
    let mut c = Catalog::new();
    c.insert("organ".to_string(), "/o".to_string());
    c.insert("piano".to_string(), "/p".to_string());
    c.insert("organ".to_string(), "/o2".to_string());
    assert_eq!(c.len(), 2);
    assert_eq!(c.locator_of("organ"), Some("/o2".to_string()));
    assert_eq!(c.locator_of("piano"), Some("/p".to_string()));
    assert_eq!(c.locator_of("flute"), None);
    assert!(c.contains("piano"));
    assert!(!c.contains("pian"));
    assert_eq!(c.name_at(0), "organ");
    assert_eq!(list_songs(&c), b"organ\npiano\n".to_vec());
    assert_eq!(list_songs(&Catalog::new()), Vec::<u8>::new());
}

#[test]
fn reply_envelope_carries_connection_id() {
    let store = piano_organ();
    let reply = match handle_text(&store, "INSTR") {
        Step::Respond(r) => r,
        Step::Control { .. } => panic!("no control step expected"),
    };
    let m = reply_message(7, reply);
    assert_eq!(m.id, 7);
    assert_eq!(m.text, "piano");
}

#[test]
fn pedal_b_is_applied_then_broadcast() {
    let p = PedalState::from_key(98).unwrap();
    assert_eq!(p, PedalState::B);
    assert_eq!(p.control_input(), "p b");
    let mut hub = Broadcaster::new(8);
    let ids: Vec<usize> = (0..3).map(|_| hub.register()).collect();
    relay_pedal(&mut hub, p, true);
    for id in ids {
        let got = hub.take(id);
        assert_eq!(got, vec![PedalState::B]);
        assert_eq!(got[0].notice(), "PEDALSTATE b");
    }
}

#[test]
fn unapplied_pedal_is_not_broadcast() {
    let mut hub = Broadcaster::new(8);
    let id = hub.register();
    relay_pedal(&mut hub, PedalState::A, false);
    assert!(hub.take(id).is_empty());
}

#[test]
fn pedal_keys_and_symbols() {
    assert_eq!(PedalState::from_key(97), Some(PedalState::A));
    assert_eq!(PedalState::from_key(99), Some(PedalState::C));
    assert_eq!(PedalState::from_key(100), None);
    assert_eq!(PedalState::from_key(-1), None);
    assert_eq!(PedalState::from_symbol('c'), Some(PedalState::C));
    assert_eq!(PedalState::from_symbol('d'), None);
    assert_eq!(PedalState::A.symbol(), 'a');
    assert_eq!(PedalState::C.notice(), "PEDALSTATE c");
    assert_eq!(PedalState::A.control_input(), "p a");
}

#[test]
fn publish_reaches_every_open_mailbox_once() {
    let mut none = Broadcaster::new(4);
    none.publish(PedalState::A);
    assert_eq!(none.connection_count(), 0);

    let mut hub = Broadcaster::new(2);
    let a = hub.register();
    let b = hub.register();
    let c = hub.register();
    hub.close(b);
    hub.publish(PedalState::A);
    hub.publish(PedalState::C);
    hub.publish(PedalState::B);
    assert_eq!(hub.take(a), vec![PedalState::A, PedalState::C]);
    assert!(hub.take(b).is_empty());
    assert_eq!(hub.take(c), vec![PedalState::A, PedalState::C]);
    assert!(hub.is_open(a));
    assert!(!hub.is_open(b));
    assert!(!hub.is_open(99));
    assert!(hub.take(99).is_empty());
    hub.publish(PedalState::B);
    assert_eq!(hub.take(a), vec![PedalState::B]);
    assert_eq!(hub.take(a), vec![]);
}
