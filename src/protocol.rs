//! The request protocol of one connection: a text command is parsed into a
//! `Command`, planned against the store, and answered with a `Reply` that
//! goes either to every connection or to the requester alone.
use crate::messages::ServerMessage;
use crate::store::{select_model, Store, StoreError, StoreModel};
use crate::text::{same_text, split_words, words};
use vstd::prelude::*;

verus! {

/// A client command.
#[derive(Debug, PartialEq, Eq)]
pub enum Command {
    /// `INIT`: asks for the selection and the instrument names.
    Init,
    /// `INSTR <name>`: asks to select an instrument.
    Select(String),
    /// `INSTR` alone: asks for the selection.
    Current,
    /// Any other first word, echoed back.
    Echo(String),
}

/// A command as mathematical values.
pub enum CommandModel {
    Init,
    Select(Seq<char>),
    Current,
    Echo(Seq<char>),
}

impl Command {
    pub open spec fn view(&self) -> CommandModel {
        match self {
            Command::Init => CommandModel::Init,
            Command::Select(n) => CommandModel::Select(n@),
            Command::Current => CommandModel::Current,
            Command::Echo(t) => CommandModel::Echo(t@),
        }
    }
}

/// The command that a text payload carries, keyed by its first word.
pub open spec fn command_of(text: Seq<char>) -> CommandModel {
    let w = words(text);
    if w.len() == 0 {
        CommandModel::Echo(Seq::empty())
    } else if w[0] == "INIT"@ {
        CommandModel::Init
    } else if w[0] == "INSTR"@ {
        if w.len() > 1 {
            CommandModel::Select(w[1])
        } else {
            CommandModel::Current
        }
    } else {
        CommandModel::Echo(w[0])
    }
}

/// Parses a text payload into a command.
pub fn parse_command(text: &str) -> (r: Command)
    ensures
        r@ == command_of(text@),
{
    let mut w = split_words(text);
    if w.len() == 0 {
        return Command::Echo(String::new());
    }
    assert(w.deep_view()[0] == w@[0]@);
    if same_text(w[0].as_str(), "INIT") {
        Command::Init
    } else if same_text(w[0].as_str(), "INSTR") {
        if w.len() > 1 {
            assert(w.deep_view()[1] == w@[1]@);
            let name = w.swap_remove(1);
            Command::Select(name)
        } else {
            Command::Current
        }
    } else {
        let first = w.swap_remove(0);
        Command::Echo(first)
    }
}

/// Who receives a reply.
#[derive(Clone, Copy, Debug, PartialEq, Eq, Structural)]
pub enum Audience {
    /// Every open connection.
    Everyone,
    /// Only the connection that sent the request.
    Requester,
}

/// A reply payload and its audience.
#[derive(Debug)]
pub struct Reply {
    pub audience: Audience,
    pub text: String,
}

/// A reply as mathematical values.
pub struct ReplyModel {
    pub audience: Audience,
    pub text: Seq<char>,
}

impl Reply {
    pub open spec fn view(&self) -> ReplyModel {
        ReplyModel { audience: self.audience, text: self.text@ }
    }
}

/// What to do next with a request.
#[derive(Debug)]
pub enum Step {
    /// Send this reply; the store is untouched.
    Respond(Reply),
    /// Run the control program on `locator`, then call `finish_select`
    /// with `name` and its outcome.
    Control { name: String, locator: String },
}

pub enum StepModel {
    Respond(ReplyModel),
    Control { name: Seq<char>, locator: Seq<char> },
}

impl Step {
    pub open spec fn view(&self) -> StepModel {
        match self {
            Step::Respond(r) => StepModel::Respond(r@),
            Step::Control { name, locator } => StepModel::Control {
                name: name@,
                locator: locator@,
            },
        }
    }
}

/// `" n1 n2 ..."`: each name preceded by one space.
pub open spec fn spaced(names: Seq<Seq<char>>) -> Seq<char>
    decreases names.len(),
{
    if names.len() == 0 {
        Seq::empty()
    } else {
        spaced(names.drop_last()) + " "@ + names.last()
    }
}

/// `INIT <selected> <name>...`: the selection, then every instrument name.
pub open spec fn init_text(m: StoreModel) -> Seq<char> {
    "INIT "@ + m.selected + spaced(m.order)
}

/// The reply to a name that the catalog lacks.
pub open spec fn not_found_text(name: Seq<char>) -> Seq<char> {
    "ERROR NotFound "@ + name
}

/// The reply to a selection that the control program refused.
pub open spec fn control_failed_text(name: Seq<char>) -> Seq<char> {
    "ERROR ControlActionFailed "@ + name
}

/// The first step of a request against the store `m`.
pub open spec fn plan_model(m: StoreModel, c: CommandModel) -> StepModel {
    match c {
        CommandModel::Init => StepModel::Respond(
            ReplyModel { audience: Audience::Everyone, text: init_text(m) },
        ),
        CommandModel::Current => StepModel::Respond(
            ReplyModel { audience: Audience::Everyone, text: m.selected },
        ),
        CommandModel::Echo(t) => StepModel::Respond(
            ReplyModel { audience: Audience::Everyone, text: t },
        ),
        CommandModel::Select(name) => if m.instruments.contains_key(name) {
            StepModel::Control { name, locator: m.instruments[name] }
        } else {
            StepModel::Respond(
                ReplyModel { audience: Audience::Requester, text: not_found_text(name) },
            )
        },
    }
}

/// The reply once `select(name)` has given `r` on a store that now holds
/// `m`.
pub open spec fn finish_model(m: StoreModel, name: Seq<char>, r: Result<(), StoreError>) -> ReplyModel {
    match r {
        Ok(()) => ReplyModel { audience: Audience::Everyone, text: m.selected },
        Err(StoreError::NotFound) => ReplyModel {
            audience: Audience::Requester,
            text: not_found_text(name),
        },
        Err(StoreError::ControlActionFailed) => ReplyModel {
            audience: Audience::Requester,
            text: control_failed_text(name),
        },
    }
}

/// The payload that tells a client the selection and the instrument names.
pub fn init_for_client(store: &Store) -> (r: String)
    requires
        store.wf(),
    ensures
        r@ == init_text(store.view()),
{
    let catalog = store.instruments();
    let mut out = String::from_str("INIT ");
    out.append(store.selected().as_str());
    let n = catalog.len();
    let mut i: usize = 0;
    while i < n
        invariant
            catalog.wf(),
            n == catalog.order().len(),
            catalog.order() == store.view().order,
            i <= n,
            out@ == "INIT "@ + store.view().selected + spaced(
                store.view().order.subrange(0, i as int),
            ),
        decreases n - i,
    {
        let name = catalog.name_at(i);
        out.append(" ");
        out.append(name.as_str());
        proof {
            let o = store.view().order;
            assert(o.subrange(0, i + 1).drop_last() =~= o.subrange(0, i as int));
            assert(o.subrange(0, i + 1).last() == o[i as int]);
        }
        i = i + 1;
    }
    assert(store.view().order.subrange(0, n as int) =~= store.view().order);
    out
}

fn error_text(prefix: &str, name: &str) -> (r: String)
    ensures
        r@ == prefix@ + name@,
{
    let mut t = String::from_str(prefix);
    t.append(name);
    t
}

/// Plans a request: replies at once, or asks for the control program.
pub fn plan_request(store: &Store, command: Command) -> (r: Step)
    requires
        store.wf(),
    ensures
        r@ == plan_model(store.view(), command@),
{
    match command {
        Command::Init => Step::Respond(
            Reply { audience: Audience::Everyone, text: init_for_client(store) },
        ),
        Command::Current => Step::Respond(
            Reply { audience: Audience::Everyone, text: store.selected().clone() },
        ),
        Command::Echo(t) => Step::Respond(Reply { audience: Audience::Everyone, text: t }),
        Command::Select(name) => match store.locator_of(name.as_str()) {
            Some(locator) => Step::Control { name, locator },
            None => Step::Respond(
                Reply {
                    audience: Audience::Requester,
                    text: error_text("ERROR NotFound ", name.as_str()),
                },
            ),
        },
    }
}

/// Commits a selection once the control program has run and reported
/// `applied`, and gives the reply.
pub fn finish_select(store: &mut Store, name: &str, applied: bool) -> (r: Reply)
    requires
        old(store).wf(),
    ensures
        final(store).wf(),
        final(store).view() == select_model(old(store).view(), name@, applied).0,
        r@ == finish_model(final(store).view(), name@, select_model(old(store).view(), name@, applied).1),
{
    match store.select(name, applied) {
        Ok(()) => Reply { audience: Audience::Everyone, text: store.selected().clone() },
        Err(StoreError::NotFound) => Reply {
            audience: Audience::Requester,
            text: error_text("ERROR NotFound ", name),
        },
        Err(StoreError::ControlActionFailed) => Reply {
            audience: Audience::Requester,
            text: error_text("ERROR ControlActionFailed ", name),
        },
    }
}

/// Plans the request that a text payload carries.
pub fn handle_text(store: &Store, text: &str) -> (r: Step)
    requires
        store.wf(),
    ensures
        r@ == plan_model(store.view(), command_of(text@)),
{
    plan_request(store, parse_command(text))
}

/// The envelope of a reply on connection `id`.
pub fn reply_message(id: usize, reply: Reply) -> (r: ServerMessage)
    ensures
        r.id == id,
        r.text@ == reply.text@,
{
    ServerMessage::new(id, reply.text)
}

/// A whole request against the store `m`, where the control program, when
/// it runs, reports `applied`: the store afterwards and the reply.
pub open spec fn request_model(m: StoreModel, c: CommandModel, applied: bool) -> (
    StoreModel,
    ReplyModel,
) {
    match plan_model(m, c) {
        StepModel::Respond(r) => (m, r),
        StepModel::Control { name, .. } => {
            let (after, res) = select_model(m, name, applied);
            (after, finish_model(after, name, res))
        },
    }
}

/// Two selections serialized by the store's lock, in either order: the
/// store ends with exactly the one that came last, and that is the payload
/// broadcast for it.
pub proof fn lemma_selects_serialize(m: StoreModel, a: Seq<char>, b: Seq<char>)
    requires
        m.instruments.contains_key(a),
        m.instruments.contains_key(b),
    ensures
        ({
            let (m1, r1) = request_model(m, CommandModel::Select(a), true);
            let (m2, r2) = request_model(m1, CommandModel::Select(b), true);
            &&& m2.selected == b
            &&& r2.audience == Audience::Everyone
            &&& r2.text == m2.selected
            &&& r1.text == a
            &&& m2.instruments == m.instruments
        }),
        ({
            let (m1, r1) = request_model(m, CommandModel::Select(b), true);
            let (m2, r2) = request_model(m1, CommandModel::Select(a), true);
            &&& m2.selected == a
            &&& r2.audience == Audience::Everyone
            &&& r2.text == m2.selected
            &&& r1.text == b
            &&& m2.instruments == m.instruments
        }),
{
}

/// `INIT` changes nothing, so asking twice in a row gives the same payload.
pub proof fn lemma_init_repeatable(m: StoreModel, applied1: bool, applied2: bool)
    ensures
        ({
            let (m1, r1) = request_model(m, CommandModel::Init, applied1);
            let (m2, r2) = request_model(m1, CommandModel::Init, applied2);
            &&& m1 == m
            &&& m2 == m
            &&& r1 == r2
            &&& r1.text == init_text(m)
        }),
{
}

/// Selecting a name that the catalog lacks changes nothing, whatever the
/// control program would say; only the requester hears of it, and a later
/// `INIT` still reports the previous selection.
pub proof fn lemma_unknown_instrument(m: StoreModel, name: Seq<char>, applied: bool)
    requires
        !m.instruments.contains_key(name),
    ensures
        ({
            let (m1, r1) = request_model(m, CommandModel::Select(name), applied);
            let (m2, r2) = request_model(m1, CommandModel::Init, applied);
            &&& m1 == m
            &&& r1 == (ReplyModel { audience: Audience::Requester, text: not_found_text(name) })
            &&& r2.text == init_text(m)
        }),
        select_model(m, name, applied) == (m, Err::<(), StoreError>(StoreError::NotFound)),
{
}

} // verus!
