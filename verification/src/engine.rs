//! The record lifecycle engine: the per-conversation state machine that
//! drives multi-step recording, sealing and retrieval. Every handler takes
//! the current session phase and one classified inbound event, mutates the
//! record table, and emits the outbound relay actions for the transport
//! collaborator to perform; the caller persists the returned phase.
use crate::codec::StartArg;
use crate::codec::build_record_link;
use crate::codec::decode_spec;
use crate::codec::link_spec;
use crate::codec::parse_start_args;
use crate::ext::gen_slug;
use crate::ext::is_slug_char;
use crate::ext::now_timestamp;
use crate::record::Record;
use crate::record::RecordModel;
use crate::settings::Config;
use crate::store::RecordStore;
use crate::store::record_open;
use crate::store::record_sealed;
use crate::store::store_after_add;
use crate::store::store_after_seal;
use vstd::prelude::*;

verus! {

/// Per-conversation session phase: outside a recording session, or recording
/// into the record with the carried id.
#[derive(Clone, Copy, Debug, PartialEq, Eq)]
pub enum State {
    Menu,
    AddRecord { id: i64 },
}

impl Default for State {
    /// A conversation starts outside any recording session.
    fn default() -> (r: Self)
        ensures
            r == State::Menu,
    {
        State::Menu
    }
}

/// A global command, recognized in every session phase.
#[derive(Clone, Debug, PartialEq)]
pub enum Command {
    Start(String),
    Help,
    NewRecord,
    GetRecord { id: i64 },
}

/// A command recognized only while recording.
#[derive(Clone, Copy, Debug, PartialEq, Eq)]
pub enum RecordCommand {
    EndRecord,
}

/// One inbound conversational event, already classified by the transport
/// layer into a command or free-form content.
#[derive(Debug)]
pub enum Event {
    Command(Command),
    RecordCommand(RecordCommand),
    Content { mid: i32 },
}

/// One outbound relay action, consumed by the transport collaborator.
#[derive(Clone, Debug, PartialEq)]
pub enum Action {
    /// Greet a conversation whose start argument names no record.
    Welcome { cid: i64 },
    /// List the available commands.
    Help { cid: i64 },
    /// Show the default menu text.
    ShowMenu { cid: i64 },
    /// Tell the owner a record was opened and to start sending messages.
    RecordCreated { cid: i64, id: i64 },
    /// Confirm that one message reference was appended.
    MessageAdded { cid: i64, id: i64, mid: i32 },
    /// Tell the owner the record being recorded is no longer open.
    OpenRecordMissing { cid: i64 },
    /// Report a freshly sealed record: its count and its shareable link.
    RecordSealed { cid: i64, id: i64, count: i64, link: String },
    /// Uniform retrieval failure: absent, unsealed, or slug-mismatched.
    RecordNotFound { cid: i64, id: i64 },
    /// Deliver a copy of one recorded message to the requester.
    CopyMessage { to: i64, from: i64, mid: i32 },
    /// Close a successful retrieval with the record's total count.
    ReportTotal { cid: i64, count: i64 },
}

/// The copies a retrieval of `r` delivers to `to`, in insertion order.
pub open spec fn copy_actions(r: RecordModel, to: i64) -> Seq<Action> {
    Seq::new(
        r.messages.ids.len(),
        |i: int| Action::CopyMessage { to, from: r.messages.cid, mid: r.messages.ids[i] },
    )
}

/// What a retrieval of record `id` by conversation `cid` emits: only a
/// sealed record is retrievable, as copies of all its messages in insertion
/// order followed by the total; anything else reports not-found uniformly.
pub open spec fn retrieval_actions(s: Seq<RecordModel>, id: i64, cid: i64) -> Seq<Action> {
    if record_sealed(s, id) {
        copy_actions(s[id - 1], cid).push(Action::ReportTotal { cid, count: s[id - 1].count })
    } else {
        seq![Action::RecordNotFound { cid, id }]
    }
}

/// What the deep-link retrieval path emits: the slug is the access check,
/// and a mismatch is indistinguishable from an absent record.
pub open spec fn link_retrieval_actions(
    s: Seq<RecordModel>,
    id: i64,
    slug: Seq<char>,
    cid: i64,
) -> Seq<Action> {
    if record_sealed(s, id) && s[id - 1].slug == slug {
        retrieval_actions(s, id, cid)
    } else {
        seq![Action::RecordNotFound { cid, id }]
    }
}

/// Outcome of opening a record: the store grows by one fresh, open, empty
/// record owned by `cid` with a sixteen-character slug from the slug
/// alphabet, and the session starts recording into it.
pub open spec fn new_outcome(
    s: Seq<RecordModel>,
    cid: i64,
    s2: Seq<RecordModel>,
    st: State,
    acts: Seq<Action>,
) -> bool {
    let id = (s.len() + 1) as i64;
    let rec = s2.last();
    &&& s2 == s.push(rec)
    &&& rec.id == id
    &&& rec.messages.cid == cid
    &&& rec.messages.ids == Seq::<i32>::empty()
    &&& !rec.done
    &&& rec.count == 0
    &&& rec.slug.len() == 16
    &&& (forall|i: int| 0 <= i < rec.slug.len() ==> is_slug_char(#[trigger] rec.slug[i]))
    &&& st == State::AddRecord { id }
    &&& acts == seq![Action::RecordCreated { cid, id }]
}

/// Outcome of one content message while recording into `id`: appended under
/// the open-record guard, or the session self-heals to the menu.
pub open spec fn add_outcome(
    s: Seq<RecordModel>,
    id: i64,
    cid: i64,
    mid: i32,
    s2: Seq<RecordModel>,
    st: State,
    acts: Seq<Action>,
) -> bool {
    if record_open(s, id) {
        &&& s2 == store_after_add(s, id, mid)
        &&& st == State::AddRecord { id }
        &&& acts == seq![Action::MessageAdded { cid, id, mid }]
    } else {
        &&& s2 == s
        &&& st == State::Menu
        &&& acts == seq![Action::OpenRecordMissing { cid }]
    }
}

/// Outcome of ending the recording of `id`: the record is sealed under the
/// open-record guard and reported with its shareable link, or the session
/// self-heals; either way the session returns to the menu, so sealing twice
/// is a no-op reported as not found.
pub open spec fn seal_outcome(
    s: Seq<RecordModel>,
    username: Seq<char>,
    id: i64,
    cid: i64,
    s2: Seq<RecordModel>,
    st: State,
    acts: Seq<Action>,
) -> bool {
    &&& st == State::Menu
    &&& if record_open(s, id) {
        &&& s2 == store_after_seal(s, id)
        &&& acts.len() == 1
        &&& (match acts[0] {
            Action::RecordSealed { cid: c, id: i, count, link } => {
                &&& c == cid
                &&& i == id
                &&& count == s[id - 1].count
                &&& link@ == link_spec(username, id as int, s[id - 1].slug)
            },
            _ => false,
        })
    } else {
        &&& s2 == s
        &&& acts == seq![Action::OpenRecordMissing { cid }]
    }
}

/// Outcome of a global command: retrieval and informational commands leave
/// the store and the session phase alone; opening a record is `new_outcome`.
pub open spec fn command_outcome(
    s: Seq<RecordModel>,
    username: Seq<char>,
    state: State,
    cid: i64,
    cmd: Command,
    s2: Seq<RecordModel>,
    st: State,
    acts: Seq<Action>,
) -> bool {
    match cmd {
        Command::Start(arg) => {
            &&& s2 == s
            &&& st == state
            &&& acts == (match decode_spec(arg@) {
                Some(t) => link_retrieval_actions(s, t.0 as i64, t.1, cid),
                None => seq![Action::Welcome { cid }],
            })
        },
        Command::Help => {
            &&& s2 == s
            &&& st == state
            &&& acts == seq![Action::Help { cid }]
        },
        Command::NewRecord => new_outcome(s, cid, s2, st, acts),
        Command::GetRecord { id } => {
            &&& s2 == s
            &&& st == state
            &&& acts == retrieval_actions(s, id, cid)
        },
    }
}

/// The default reply to a plain message outside a recording session.
pub fn menu(cid: i64) -> (a: Action)
    ensures
        a == (Action::ShowMenu { cid }),
{
    Action::ShowMenu { cid }
}

/// The copies and the closing total of a successful retrieval of `rec`.
fn retrieval_success(rec: &Record, cid: i64) -> (acts: Vec<Action>)
    requires
        rec@.wf(),
    ensures
        acts@ == copy_actions(rec@, cid).push(Action::ReportTotal { cid, count: rec@.count }),
{
    let mut acts: Vec<Action> = Vec::new();
    let n = rec.messages.ids.len();
    let mut i: usize = 0;
    while i < n
        invariant
            i <= n,
            n == rec.messages.ids@.len(),
            rec@.wf(),
            acts@ =~= copy_actions(rec@, cid).subrange(0, i as int),
        decreases n - i,
    {
        acts.push(
            Action::CopyMessage { to: cid, from: rec.messages.cid, mid: rec.messages.ids[i] },
        );
        i = i + 1;
    }
    proof {
        assert(acts@ =~= copy_actions(rec@, cid));
    }
    acts.push(Action::ReportTotal { cid, count: rec.count });
    acts
}

/// Retrieval by bare id: only a sealed record is retrievable; its messages
/// are delivered in insertion order and its count reported, while absent or
/// unsealed records report not-found uniformly.
pub fn get_record(store: &RecordStore, id: i64, cid: i64) -> (acts: Vec<Action>)
    requires
        store.wf(),
    ensures
        acts@ == retrieval_actions(store@, id, cid),
{
    match store.fetch(id, true) {
        Some(rec) => {
            let acts = retrieval_success(&rec, cid);
            acts
        },
        None => {
            let mut acts: Vec<Action> = Vec::new();
            acts.push(Action::RecordNotFound { cid, id });
            proof {
                assert(acts@ =~= seq![Action::RecordNotFound { cid, id }]);
            }
            acts
        },
    }
}

/// Retrieval through a decoded deep link: the slug must match the stored
/// one, the only access check in the system; a mismatch reports the same
/// not-found as an absent or unsealed record.
pub fn get_record_by_link(store: &RecordStore, id: i64, slug: &str, cid: i64) -> (acts: Vec<
    Action,
>)
    requires
        store.wf(),
    ensures
        acts@ == link_retrieval_actions(store@, id, slug@, cid),
{
    let slug_owned = slug.to_owned();
    match store.fetch(id, true) {
        Some(rec) => {
            if rec.slug == slug_owned {
                let acts = retrieval_success(&rec, cid);
                acts
            } else {
                let mut acts: Vec<Action> = Vec::new();
                acts.push(Action::RecordNotFound { cid, id });
                proof {
                    assert(acts@ =~= seq![Action::RecordNotFound { cid, id }]);
                }
                acts
            }
        },
        None => {
            let mut acts: Vec<Action> = Vec::new();
            acts.push(Action::RecordNotFound { cid, id });
            proof {
                assert(acts@ =~= seq![Action::RecordNotFound { cid, id }]);
            }
            acts
        },
    }
}

/// Opens a new record owned by `cid` and moves the session to recording
/// into it.
pub fn new_record(store: &mut RecordStore, cid: i64) -> (r: (State, Action))
    requires
        old(store).wf(),
        old(store)@.len() < i64::MAX,
    ensures
        final(store).wf(),
        new_outcome(old(store)@, cid, final(store)@, r.0, seq![r.1]),
{
    let slug = gen_slug();
    let created_at = now_timestamp();
    let id = store.insert(cid, slug, created_at);
    (State::AddRecord { id }, Action::RecordCreated { cid, id })
}

/// Appends one content message to the in-progress record. The append is
/// conditioned on the record still being open at the storage layer; a
/// vanished or sealed record self-heals the session back to the menu with a
/// failure report.
pub fn add_record(store: &mut RecordStore, id: i64, cid: i64, mid: i32) -> (r: (State, Action))
    requires
        old(store).wf(),
        record_open(old(store)@, id) ==> old(store)@[id - 1].count < i64::MAX,
    ensures
        final(store).wf(),
        add_outcome(old(store)@, id, cid, mid, final(store)@, r.0, seq![r.1]),
{
    if store.append_if_open(id, mid) {
        (State::AddRecord { id }, Action::MessageAdded { cid, id, mid })
    } else {
        (State::Menu, Action::OpenRecordMissing { cid })
    }
}

/// Ends the recording of `id`: seals the record under the open-record guard
/// and reports its count and shareable deep link; a vanished or already
/// sealed record self-heals with a failure report. The session returns to
/// the menu either way.
pub fn record_commands(
    store: &mut RecordStore,
    cfg: &Config,
    id: i64,
    cid: i64,
    cmd: RecordCommand,
) -> (r: (State, Action))
    requires
        old(store).wf(),
    ensures
        final(store).wf(),
        seal_outcome(
            old(store)@,
            cfg.bot_username@,
            id,
            cid,
            final(store)@,
            r.0,
            seq![r.1],
        ),
{
    match cmd {
        RecordCommand::EndRecord => {},
    }
    match store.seal_if_open(id) {
        Some(rec) => {
            let link = build_record_link(cfg.bot_username.as_str(), id, rec.slug.as_str());
            (State::Menu, Action::RecordSealed { cid, id, count: rec.count, link })
        },
        None => (State::Menu, Action::OpenRecordMissing { cid }),
    }
}

/// Dispatches one global command: retrieval works from any phase and leaves
/// the session alone; `new_record` opens a record and starts recording.
pub fn handle_commands(
    store: &mut RecordStore,
    cfg: &Config,
    state: State,
    cid: i64,
    cmd: Command,
) -> (r: (State, Vec<Action>))
    requires
        old(store).wf(),
        old(store)@.len() < i64::MAX,
    ensures
        final(store).wf(),
        command_outcome(
            old(store)@,
            cfg.bot_username@,
            state,
            cid,
            cmd,
            final(store)@,
            r.0,
            r.1@,
        ),
{
    match cmd {
        Command::Start(arg) => {
            match parse_start_args(arg.as_str()) {
                StartArg::Record { id, slug } => {
                    let acts = get_record_by_link(store, id, slug.as_str(), cid);
                    (state, acts)
                },
                StartArg::NoRecord => {
                    let mut acts: Vec<Action> = Vec::new();
                    acts.push(Action::Welcome { cid });
                    proof {
                        assert(acts@ =~= seq![Action::Welcome { cid }]);
                    }
                    (state, acts)
                },
            }
        },
        Command::Help => {
            let mut acts: Vec<Action> = Vec::new();
            acts.push(Action::Help { cid });
            proof {
                assert(acts@ =~= seq![Action::Help { cid }]);
            }
            (state, acts)
        },
        Command::NewRecord => {
            let (st, a) = new_record(store, cid);
            let mut acts: Vec<Action> = Vec::new();
            acts.push(a);
            proof {
                assert(acts@ =~= seq![a]);
            }
            (st, acts)
        },
        Command::GetRecord { id } => {
            let acts = get_record(store, id, cid);
            (state, acts)
        },
    }
}

/// The router: one inbound event for one conversation, dispatched by the
/// session phase exactly as the lifecycle table prescribes. Global commands
/// are recognized in every phase; the end-record command and content
/// messages act on the in-progress record while recording, and fall back to
/// the menu otherwise. The caller persists the returned phase before
/// acknowledging the event.
pub fn dispatch(store: &mut RecordStore, cfg: &Config, state: State, cid: i64, ev: Event) -> (r: (
    State,
    Vec<Action>,
))
    requires
        old(store).wf(),
        old(store)@.len() < i64::MAX,
        (match ev {
            Event::Content { mid: _ } => match state {
                State::AddRecord { id } => record_open(old(store)@, id) ==> old(store)@[id
                    - 1].count < i64::MAX,
                _ => true,
            },
            _ => true,
        }),
    ensures
        final(store).wf(),
        (match ev {
            Event::Command(cmd) => command_outcome(
                old(store)@,
                cfg.bot_username@,
                state,
                cid,
                cmd,
                final(store)@,
                r.0,
                r.1@,
            ),
            Event::RecordCommand(c) => match state {
                State::AddRecord { id } => seal_outcome(
                    old(store)@,
                    cfg.bot_username@,
                    id,
                    cid,
                    final(store)@,
                    r.0,
                    r.1@,
                ),
                State::Menu => final(store)@ == old(store)@ && r.0 == State::Menu && r.1@
                    == seq![Action::ShowMenu { cid }],
            },
            Event::Content { mid } => match state {
                State::AddRecord { id } => add_outcome(
                    old(store)@,
                    id,
                    cid,
                    mid,
                    final(store)@,
                    r.0,
                    r.1@,
                ),
                State::Menu => final(store)@ == old(store)@ && r.0 == State::Menu && r.1@
                    == seq![Action::ShowMenu { cid }],
            },
        }),
{
    match ev {
        Event::Command(cmd) => handle_commands(store, cfg, state, cid, cmd),
        Event::RecordCommand(c) => {
            match state {
                State::AddRecord { id } => {
                    let (st, a) = record_commands(store, cfg, id, cid, c);
                    let mut acts: Vec<Action> = Vec::new();
                    acts.push(a);
                    proof {
                        assert(acts@ =~= seq![a]);
                    }
                    (st, acts)
                },
                State::Menu => {
                    let mut acts: Vec<Action> = Vec::new();
                    acts.push(menu(cid));
                    proof {
                        assert(acts@ =~= seq![Action::ShowMenu { cid }]);
                    }
                    (State::Menu, acts)
                },
            }
        },
        Event::Content { mid } => {
            match state {
                State::AddRecord { id } => {
                    let (st, a) = add_record(store, id, cid, mid);
                    let mut acts: Vec<Action> = Vec::new();
                    acts.push(a);
                    proof {
                        assert(acts@ =~= seq![a]);
                    }
                    (st, acts)
                },
                State::Menu => {
                    let mut acts: Vec<Action> = Vec::new();
                    acts.push(menu(cid));
                    proof {
                        assert(acts@ =~= seq![Action::ShowMenu { cid }]);
                    }
                    (State::Menu, acts)
                },
            }
        },
    }
}

} // verus!
