use instrument_sync::client::{
    instrument_class, pedal_class, Effect, Model, Msg, Selected, SelectedState,
};
use instrument_sync::link::{backoff_delay, Link, LinkAction, LinkEvent, Phase};
use instrument_sync::messages::{ClientMessage, ServerMessage};
use instrument_sync::pedal::PedalState;
use instrument_sync::text::{same_text, split_words};

fn server(text: &str) -> Msg {
    Msg::TextMessageReceived(ServerMessage::new(1, text.to_string()))
}

fn scheduled(a: LinkAction) -> (u32, u32) {
    match a {
        LinkAction::ScheduleRetry { attempt, delay_ms } => (attempt, delay_ms),
        other => panic!("expected a scheduled retry, got {:?}", other),
    }
}

#[test]
fn backoff_doubles_up_to_ceiling() {
    assert_eq!(backoff_delay(0), 1000);
    assert_eq!(backoff_delay(1), 2000);
    assert_eq!(backoff_delay(4), 16000);
    assert_eq!(backoff_delay(5), 32000);
    assert_eq!(backoff_delay(40), 32000);
    assert_eq!(backoff_delay(u32::MAX), 32000);
}

#[test]
fn reconnect_delays_grow_then_reset_on_open() {
    let mut link = Link::new();
    assert_eq!(link.on_event(LinkEvent::Opened), LinkAction::SendInit { cancel_retry: false });
    let mut delays = Vec::new();
    for _ in 0..7 {
        let (_, d) = scheduled(link.on_event(LinkEvent::Closed { clean: false }));
        delays.push(d);
        assert_eq!(link.on_event(LinkEvent::RetryDue), LinkAction::OpenSocket);
    }
    assert_eq!(delays, vec![1000, 2000, 4000, 8000, 16000, 32000, 32000]);
    assert!(delays.windows(2).all(|w| w[0] <= w[1]));
    assert_eq!(link.on_event(LinkEvent::Opened), LinkAction::SendInit { cancel_retry: false });
    assert_eq!(link.retries, 0);
    assert_eq!(scheduled(link.on_event(LinkEvent::Failed)), (1, 1000));
}

#[test]
fn only_one_retry_is_scheduled_at_a_time() {
    let mut link = Link::new();
    link.on_event(LinkEvent::Opened);
    assert_eq!(scheduled(link.on_event(LinkEvent::Failed)), (1, 1000));
    assert_eq!(link.on_event(LinkEvent::Closed { clean: false }), LinkAction::Idle);
    assert_eq!(link.on_event(LinkEvent::Failed), LinkAction::Idle);
    assert_eq!(link.phase, Phase::Reconnecting);
    assert_eq!(link.on_event(LinkEvent::Opened), LinkAction::SendInit { cancel_retry: true });
}

#[test]
fn user_close_schedules_no_reconnect() {
    let mut link = Link::new();
    link.on_event(LinkEvent::Opened);
    assert_eq!(link.on_event(LinkEvent::UserClose), LinkAction::CloseSocket);
    assert_eq!(link.phase, Phase::Closing);
    assert_eq!(link.on_event(LinkEvent::Closed { clean: false }), LinkAction::Idle);
    assert_eq!(link.phase, Phase::Closed);
    assert_eq!(link.on_event(LinkEvent::Failed), LinkAction::Idle);
    assert_eq!(link.on_event(LinkEvent::RetryDue), LinkAction::Idle);

    let mut waiting = Link::new();
    waiting.on_event(LinkEvent::Failed);
    assert_eq!(waiting.on_event(LinkEvent::UserClose), LinkAction::CancelRetry);
    assert_eq!(waiting.phase, Phase::Closed);
}

#[test]
fn clean_close_by_server_stays_closed() {
    let mut link = Link::new();
    link.on_event(LinkEvent::Opened);
    assert_eq!(link.on_event(LinkEvent::Closed { clean: true }), LinkAction::Idle);
    assert_eq!(link.phase, Phase::Closed);
}

#[test]
fn client_follows_server_messages() {
    let mut m = Model::new();
    assert!(!m.is_open());
    match m.update(Msg::WebSocketOpened) {
        Effect::Link(LinkAction::SendInit { cancel_retry: false }) => {}
        other => panic!("unexpected {:?}", other),
    }
    assert!(m.is_open());
    assert_eq!(m.sent_messages_count, 1);

    m.update(server("INIT piano organ piano"));
    assert_eq!(m.instruments, vec!["organ".to_string(), "piano".to_string()]);
    assert_eq!(m.selected, Some(Selected { name: "piano".to_string(), state: SelectedState::Ready }));

    m.update(server("PEDALSTATE c"));
    assert_eq!(m.pedal_state, 'c');

    m.update(server("ERROR NotFound flute"));
    assert_eq!(m.selected.as_ref().unwrap().name, "piano");

    m.update(server("organ"));
    assert_eq!(m.selected, Some(Selected { name: "organ".to_string(), state: SelectedState::Ready }));
    assert_eq!(m.messages.len(), 4);
    assert_eq!(m.messages[3], "organ");
}

#[test]
fn selection_is_optimistic_until_confirmed() {
    let mut m = Model::new();
    m.update(Msg::InputTextChanged("typed".to_string()));
    assert_eq!(m.input_text, "typed");
    let e = m.update(Msg::SendMessage(ClientMessage::new("INSTR organ".to_string())));
    match e {
        Effect::Send(c) => assert_eq!(c.text, "INSTR organ"),
        other => panic!("unexpected {:?}", other),
    }
    assert_eq!(m.selected, Some(Selected { name: "organ".to_string(), state: SelectedState::Initialising }));
    assert_eq!(m.input_text, "");
    assert_eq!(m.sent_messages_count, 1);
    m.update(server("organ"));
    assert_eq!(m.selected.as_ref().unwrap().state, SelectedState::Ready);
}

#[test]
fn client_reconnects_after_failure() {
    let mut m = Model::new();
    m.update(Msg::WebSocketOpened);
    match m.update(Msg::WebSocketClosed { was_clean: false }) {
        Effect::Link(LinkAction::ScheduleRetry { attempt: 1, delay_ms: 1000 }) => {}
        other => panic!("unexpected {:?}", other),
    }
    match m.update(Msg::WebSocketFailed) {
        Effect::Link(LinkAction::Idle) => {}
        other => panic!("unexpected {:?}", other),
    }
    match m.update(Msg::ReconnectWebSocket(1)) {
        Effect::Link(LinkAction::OpenSocket) => {}
        other => panic!("unexpected {:?}", other),
    }
    match m.update(Msg::CloseWebSocket) {
        Effect::Link(LinkAction::CloseSocket) => {}
        other => panic!("unexpected {:?}", other),
    }
}

#[test]
fn binary_messages_change_nothing() {
    let mut m = Model::new();
    m.update(Msg::InputBinaryChanged("bin".to_string()));
    match m.update(Msg::BinaryMessageReceived(ServerMessage::new(2, "x".to_string()))) {
        Effect::Nothing => {}
        other => panic!("unexpected {:?}", other),
    }
    assert!(m.messages.is_empty());
    match m.update(Msg::SendBinaryMessage(ClientMessage::new("INIT".to_string()))) {
        Effect::SendBinary(c) => assert_eq!(c.text, "INIT"),
        other => panic!("unexpected {:?}", other),
    }
    assert_eq!(m.input_binary, "");
    assert_eq!(m.sent_messages_count, 1);
}

#[test]
fn style_classes() {
    let sel = Some(Selected { name: "organ".to_string(), state: SelectedState::Initialising });
    assert_eq!(instrument_class("organ", &sel), "initialising");
    assert_eq!(instrument_class("piano", &sel), "unselected");
    let ready = Some(Selected { name: "organ".to_string(), state: SelectedState::Ready });
    assert_eq!(instrument_class("organ", &ready), "selected");
    assert_eq!(instrument_class("organ", &None), "unselected");
    assert_eq!(pedal_class('b', PedalState::B), "pedal-b-selected");
    assert_eq!(pedal_class('b', PedalState::A), "pedal-a");
    assert_eq!(pedal_class('c', PedalState::C), "pedal-c-selected");
}

#[test]
fn words_split_on_unicode_whitespace() {
    assert_eq!(split_words("  INSTR \t organ\n"), vec!["INSTR".to_string(), "organ".to_string()]);
    assert_eq!(split_words("a\u{00a0}b\u{2003}c"), vec!["a", "b", "c"]);
    assert!(split_words(" \r\n ").is_empty());
    assert!(same_text("organ", "organ"));
    assert!(!same_text("organ", "organs"));
    assert!(!same_text("organ", "orgaN"));
}
