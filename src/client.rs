//! The client's view of the shared state: the instrument list, its own
//! optimistic selection, the pedal state, and the connection. `update`
//! applies one message and tells the caller what to do next.
use crate::link::{link_step, Link, LinkAction, LinkEvent, Phase};
use crate::messages::{ClientMessage, ServerMessage};
use crate::pedal::PedalState;
use crate::protocol::{command_of, parse_command, Command, CommandModel};
use crate::text::{same_text, split_words, words};
use vstd::prelude::*;

verus! {

/// Whether the server has confirmed a selection.
#[derive(Clone, Copy, Debug, PartialEq, Eq, Structural)]
pub enum SelectedState {
    /// Requested by this client, not yet confirmed.
    Initialising,
    /// Confirmed by the server.
    Ready,
}

/// The instrument that this client regards as selected.
#[derive(Debug, PartialEq, Eq)]
pub struct Selected {
    pub name: String,
    pub state: SelectedState,
}

pub struct SelectedModel {
    pub name: Seq<char>,
    pub state: SelectedState,
}

pub open spec fn selected_model(s: Option<Selected>) -> Option<SelectedModel> {
    match s {
        None => None,
        Some(x) => Some(SelectedModel { name: x.name@, state: x.state }),
    }
}

/// Everything the client knows.
pub struct Model {
    /// The instrument names, as the server last listed them.
    pub instruments: Vec<String>,
    /// At most one selected instrument.
    pub selected: Option<Selected>,
    /// The symbol of the last pedal state the server announced.
    pub pedal_state: char,
    /// How many messages this client has sent.
    pub sent_messages_count: usize,
    /// Every text payload received, oldest first.
    pub messages: Vec<String>,
    pub input_text: String,
    pub input_binary: String,
    /// The connection.
    pub link: Link,
}

pub struct ModelView {
    pub instruments: Seq<Seq<char>>,
    pub selected: Option<SelectedModel>,
    pub pedal_state: char,
    pub sent_messages_count: usize,
    pub messages: Seq<Seq<char>>,
    pub input_text: Seq<char>,
    pub input_binary: Seq<char>,
    pub link: Link,
}

impl Model {
    pub open spec fn view(&self) -> ModelView {
        ModelView {
            instruments: self.instruments.deep_view(),
            selected: selected_model(self.selected),
            pedal_state: self.pedal_state,
            sent_messages_count: self.sent_messages_count,
            messages: self.messages.deep_view(),
            input_text: self.input_text@,
            input_binary: self.input_binary@,
            link: self.link,
        }
    }
}

/// What reaches the client.
#[derive(Debug)]
pub enum Msg {
    WebSocketOpened,
    TextMessageReceived(ServerMessage),
    BinaryMessageReceived(ServerMessage),
    CloseWebSocket,
    WebSocketClosed { was_clean: bool },
    WebSocketFailed,
    ReconnectWebSocket(usize),
    InputTextChanged(String),
    InputBinaryChanged(String),
    SendMessage(ClientMessage),
    SendBinaryMessage(ClientMessage),
}

/// What the caller does after an update.
#[derive(Debug)]
pub enum Effect {
    Nothing,
    /// Act on the connection; `SendInit` means sending the `INIT` command.
    Link(LinkAction),
    /// Send the message as text.
    Send(ClientMessage),
    /// Send the message in the binary encoding.
    SendBinary(ClientMessage),
}

/// One more sent message; the count stops at its ceiling.
pub open spec fn count_sent(n: usize) -> usize {
    if n < usize::MAX {
        (n + 1) as usize
    } else {
        n
    }
}

/// The model after the server sent `text`. `INIT` lists the selection and
/// the instruments, `PEDALSTATE` the pedal state, `ERROR` a failure; any
/// other first word names the selected instrument. Every payload is kept.
pub open spec fn after_text(m: ModelView, text: Seq<char>) -> ModelView {
    let w = words(text);
    let m1 = ModelView { messages: m.messages.push(text), ..m };
    if w.len() == 0 {
        m1
    } else if w[0] == "INIT"@ {
        if w.len() >= 2 {
            ModelView {
                instruments: w.subrange(2, w.len() as int),
                selected: Some(SelectedModel { name: w[1], state: SelectedState::Ready }),
                ..m1
            }
        } else {
            m1
        }
    } else if w[0] == "PEDALSTATE"@ {
        if w.len() >= 2 && w[1].len() > 0 {
            ModelView { pedal_state: w[1][0], ..m1 }
        } else {
            m1
        }
    } else if w[0] == "ERROR"@ {
        m1
    } else {
        ModelView { selected: Some(SelectedModel { name: w[0], state: SelectedState::Ready }), ..m1 }
    }
}

/// The model after this client sends `text`: a selection request marks
/// the instrument as selected but not yet confirmed.
pub open spec fn after_send(m: ModelView, text: Seq<char>) -> ModelView {
    let m1 = ModelView {
        input_text: Seq::empty(),
        sent_messages_count: count_sent(m.sent_messages_count),
        ..m
    };
    match command_of(text) {
        CommandModel::Select(name) => ModelView {
            selected: Some(SelectedModel { name, state: SelectedState::Initialising }),
            ..m1
        },
        _ => m1,
    }
}

/// The model after a connection event.
pub open spec fn after_link(m: ModelView, e: LinkEvent) -> ModelView {
    ModelView { link: link_step(m.link, e).0, ..m }
}

/// The model after `msg`.
pub open spec fn update_model(m: ModelView, msg: Msg) -> ModelView {
    match msg {
        Msg::WebSocketOpened => ModelView {
            input_text: Seq::empty(),
            sent_messages_count: count_sent(m.sent_messages_count),
            ..after_link(m, LinkEvent::Opened)
        },
        Msg::TextMessageReceived(s) => after_text(m, s.text@),
        Msg::BinaryMessageReceived(_) => m,
        Msg::CloseWebSocket => after_link(m, LinkEvent::UserClose),
        Msg::WebSocketClosed { was_clean } => after_link(m, LinkEvent::Closed { clean: was_clean }),
        Msg::WebSocketFailed => after_link(m, LinkEvent::Failed),
        Msg::ReconnectWebSocket(_) => after_link(m, LinkEvent::RetryDue),
        Msg::InputTextChanged(t) => ModelView { input_text: t@, ..m },
        Msg::InputBinaryChanged(t) => ModelView { input_binary: t@, ..m },
        Msg::SendMessage(c) => after_send(m, c.text@),
        Msg::SendBinaryMessage(_) => ModelView {
            input_binary: Seq::empty(),
            sent_messages_count: count_sent(m.sent_messages_count),
            ..m
        },
    }
}

/// What the caller does after `msg`.
pub open spec fn update_effect(m: ModelView, msg: Msg) -> Effect {
    match msg {
        Msg::WebSocketOpened => Effect::Link(link_step(m.link, LinkEvent::Opened).1),
        Msg::CloseWebSocket => Effect::Link(link_step(m.link, LinkEvent::UserClose).1),
        Msg::WebSocketClosed { was_clean } => Effect::Link(
            link_step(m.link, LinkEvent::Closed { clean: was_clean }).1,
        ),
        Msg::WebSocketFailed => Effect::Link(link_step(m.link, LinkEvent::Failed).1),
        Msg::ReconnectWebSocket(_) => Effect::Link(link_step(m.link, LinkEvent::RetryDue).1),
        Msg::SendMessage(c) => Effect::Send(c),
        Msg::SendBinaryMessage(c) => Effect::SendBinary(c),
        _ => Effect::Nothing,
    }
}

fn bump(n: usize) -> (r: usize)
    ensures
        r == count_sent(n),
{
    if n < usize::MAX {
        n + 1
    } else {
        n
    }
}

impl Model {
    /// A client with nothing known yet, whose first connection attempt is
    /// under way.
    pub fn new() -> (r: Model)
        ensures
            r.view().instruments.len() == 0,
            r.view().selected is None,
            r.view().pedal_state == 'a',
            r.view().sent_messages_count == 0,
            r.view().messages.len() == 0,
            r.view().input_text.len() == 0,
            r.view().input_binary.len() == 0,
            r.view().link == Link::new_spec(),
    {
        let r = Model {
            instruments: Vec::new(),
            selected: None,
            pedal_state: 'a',
            sent_messages_count: 0,
            messages: Vec::new(),
            input_text: String::new(),
            input_binary: String::new(),
            link: Link::new(),
        };
        assert(r.instruments.deep_view() =~= Seq::<Seq<char>>::empty());
        assert(r.messages.deep_view() =~= Seq::<Seq<char>>::empty());
        r
    }

    /// Whether the connection is open, and so the instruments can be shown.
    pub fn is_open(&self) -> (r: bool)
        ensures
            r == (self.link.phase == Phase::Open),
    {
        self.link.phase == Phase::Open
    }

    fn receive_text(&mut self, text: String)
        ensures
            final(self).view() == after_text(old(self).view(), text@),
    {
        let mut w = split_words(text.as_str());
        let ghost m = self.view();
        let ghost wv = w.deep_view();
        let ghost msgs = self.messages.deep_view();
        self.messages.push(text);
        assert(self.messages.deep_view() =~= msgs.push(text@));
        if w.len() == 0 {
            return ;
        }
        assert(wv[0] == w@[0]@);
        if same_text(w[0].as_str(), "INIT") {
            if w.len() >= 2 {
                assert(wv[1] == w@[1]@);
                let rest = w.split_off(2);
                assert(rest.deep_view() =~= wv.subrange(2, wv.len() as int));
                let name = w.swap_remove(1);
                self.instruments = rest;
                self.selected = Some(Selected { name, state: SelectedState::Ready });
            }
        } else if same_text(w[0].as_str(), "PEDALSTATE") {
            if w.len() >= 2 {
                assert(wv[1] == w@[1]@);
                if w[1].as_str().unicode_len() > 0 {
                    self.pedal_state = w[1].as_str().get_char(0);
                }
            }
        } else if same_text(w[0].as_str(), "ERROR") {
        } else {
            let name = w.swap_remove(0);
            self.selected = Some(Selected { name, state: SelectedState::Ready });
        }
    }

    fn send_text(&mut self, text: &String)
        ensures
            final(self).view() == after_send(old(self).view(), text@),
    {
        if let Command::Select(name) = parse_command(text.as_str()) {
            self.selected = Some(Selected { name, state: SelectedState::Initialising });
        }
        self.input_text = String::new();
        self.sent_messages_count = bump(self.sent_messages_count);
    }

    fn link_event(&mut self, e: LinkEvent) -> (r: Effect)
        ensures
            final(self).view() == after_link(old(self).view(), e),
            r == Effect::Link(link_step(old(self).view().link, e).1),
    {
        Effect::Link(self.link.on_event(e))
    }

    /// Applies `msg` and tells what to do next.
    pub fn update(&mut self, msg: Msg) -> (r: Effect)
        ensures
            final(self).view() == update_model(old(self).view(), msg),
            r == update_effect(old(self).view(), msg),
    {
        match msg {
            Msg::WebSocketOpened => {
                let r = self.link_event(LinkEvent::Opened);
                self.input_text = String::new();
                self.sent_messages_count = bump(self.sent_messages_count);
                r
            },
            Msg::TextMessageReceived(s) => {
                self.receive_text(s.text);
                Effect::Nothing
            },
            Msg::BinaryMessageReceived(_) => Effect::Nothing,
            Msg::CloseWebSocket => self.link_event(LinkEvent::UserClose),
            Msg::WebSocketClosed { was_clean } => self.link_event(
                LinkEvent::Closed { clean: was_clean },
            ),
            Msg::WebSocketFailed => self.link_event(LinkEvent::Failed),
            Msg::ReconnectWebSocket(_) => self.link_event(LinkEvent::RetryDue),
            Msg::InputTextChanged(t) => {
                self.input_text = t;
                Effect::Nothing
            },
            Msg::InputBinaryChanged(t) => {
                self.input_binary = t;
                Effect::Nothing
            },
            Msg::SendMessage(c) => {
                self.send_text(&c.text);
                Effect::Send(c)
            },
            Msg::SendBinaryMessage(c) => {
                self.input_binary = String::new();
                self.sent_messages_count = bump(self.sent_messages_count);
                Effect::SendBinary(c)
            },
        }
    }
}

/// The style class of an instrument: `selected` or `initialising` when it
/// is this client's selection, as far as confirmed, else `unselected`.
pub open spec fn instrument_class_of(instrument: Seq<char>, selected: Option<SelectedModel>) -> Seq<
    char,
> {
    match selected {
        Some(s) => if s.name == instrument {
            match s.state {
                SelectedState::Initialising => "initialising"@,
                SelectedState::Ready => "selected"@,
            }
        } else {
            "unselected"@
        },
        None => "unselected"@,
    }
}

/// The style class of an instrument.
pub fn instrument_class(instrument: &str, selected: &Option<Selected>) -> (r: &'static str)
    ensures
        r@ == instrument_class_of(instrument@, selected_model(*selected)),
{
    match selected {
        Some(s) => if same_text(s.name.as_str(), instrument) {
            match s.state {
                SelectedState::Initialising => "initialising",
                SelectedState::Ready => "selected",
            }
        } else {
            "unselected"
        },
        None => "unselected",
    }
}

/// The style class of the marker of pedal button `button`: highlighted
/// when `pedal_state` is its symbol.
pub open spec fn pedal_class_of(pedal_state: char, button: PedalState) -> Seq<char> {
    match button {
        PedalState::A => if pedal_state == 'a' { "pedal-a-selected"@ } else { "pedal-a"@ },
        PedalState::B => if pedal_state == 'b' { "pedal-b-selected"@ } else { "pedal-b"@ },
        PedalState::C => if pedal_state == 'c' { "pedal-c-selected"@ } else { "pedal-c"@ },
    }
}

/// The style class of the marker of a pedal button.
pub fn pedal_class(pedal_state: char, button: PedalState) -> (r: &'static str)
    ensures
        r@ == pedal_class_of(pedal_state, button),
{
    match button {
        PedalState::A => if pedal_state == 'a' { "pedal-a-selected" } else { "pedal-a" },
        PedalState::B => if pedal_state == 'b' { "pedal-b-selected" } else { "pedal-b" },
        PedalState::C => if pedal_state == 'c' { "pedal-c-selected" } else { "pedal-c" },
    }
}

} // verus!
