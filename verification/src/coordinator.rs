//! The coordinator's side of the protocol: the live connections, the search
//! round in flight, the hits it has gathered, and the activation of a hit.
//!
//! Nothing here touches a socket. Each function takes what happened (a
//! connection came, the input changed, a package arrived, a row was chosen)
//! and says what is to be sent, and to which process.

use vstd::prelude::*;
use crate::ghit::{unowned, GHit, GHitView};
use crate::package::{
    clone_verdict, is_random_uuid_text, Command, CommandView, HitId, HitView, Package,
    PackageId, PackageView, Payload, PayloadView,
};
use crate::registry::{identities, is_process, lemma_position_from, position, Registry};
use crate::session::{
    lemma_served_session_takes_what_was_found, serves, session_abort, session_run, session_step,
    QuerySession, SessionEvent, SessionEventView, SessionState, SessionView,
};
use crate::socket::Credentials;

verus! {

/// A package, and the process whose connection it is to be written to.
#[derive(Debug)]
pub struct Outgoing {
    pub pid: u32,
    pub package: Package,
}

/// The plugin that offered the chosen hit has no live connection any more.
#[derive(Debug, PartialEq, Eq, Clone, Copy)]
pub struct RoutingError {
    pub plugin_pid: u64,
}

/// An `Activate` that was sent and not yet answered.
#[derive(Debug)]
pub struct Activation {
    target: u32,
    request: PackageId,
}

/// The mathematical value of an [`Activation`].
pub ghost struct ActivationView {
    pub target: u32,
    pub request: Seq<char>,
}

impl View for Activation {
    type V = ActivationView;

    closed spec fn view(&self) -> ActivationView {
        ActivationView { target: self.target, request: self.request@ }
    }
}

/// What the coordinator holds while it runs.
pub struct RuntimeData<C> {
    process: u32,
    connections: Registry<C>,
    entry_pool: Vec<QuerySession>,
    hit_store: Vec<GHit>,
    activation: Option<Activation>,
    round: Ghost<nat>,
    hit_rounds: Ghost<Seq<nat>>,
    acknowledged: Ghost<Set<u64>>,
}

/// The mathematical value of a [`RuntimeData`].
pub ghost struct RuntimeView<C> {
    /// The coordinator's own process number.
    pub process: u32,
    /// The live plugin connections.
    pub connections: Seq<(Credentials, C)>,
    /// The sessions of the round in flight.
    pub sessions: Seq<SessionView>,
    /// The hits gathered so far.
    pub hits: Seq<GHitView>,
    /// The activation that awaits its answer.
    pub activation: Option<ActivationView>,
    /// How many rounds were opened.
    pub round: nat,
    /// For each gathered hit, the round in which it arrived.
    pub hit_rounds: Seq<nat>,
    /// The plugins that acknowledged the search of the round in flight.
    pub acknowledged: Set<u64>,
}

/// The value of each session, in order.
pub open spec fn sessions_view(sessions: Seq<QuerySession>) -> Seq<SessionView> {
    sessions.map_values(|session: QuerySession| session@)
}

/// The value of each hit, in order.
pub open spec fn hits_view(hits: Seq<GHit>) -> Seq<GHitView> {
    hits.map_values(|hit: GHit| hit@)
}

/// The value of an optional activation.
pub open spec fn activation_view(activation: Option<Activation>) -> Option<ActivationView> {
    match activation {
        Some(activation) => Some(activation@),
        None => None,
    }
}

/// The list entry for a hit that the plugin `plugin_pid` offered.
pub open spec fn owned(hit: HitView, plugin_pid: u64) -> GHitView {
    GHitView { plugin_pid, ..unowned(hit) }
}

/// The first place at or after `from` whose session talks to the process
/// `pid`.
pub open spec fn session_from(sessions: Seq<SessionView>, pid: u32, from: int) -> Option<int>
    decreases sessions.len() - from,
{
    if from < 0 || from >= sessions.len() {
        None
    } else if sessions[from].owner.pid == Some(pid) {
        Some(from)
    } else {
        session_from(sessions, pid, from + 1)
    }
}

/// The place of the session that reads what the process `pid` sends.
pub open spec fn session_of(sessions: Seq<SessionView>, pid: u32) -> Option<int> {
    session_from(sessions, pid, 0)
}

/// What `session_from` finds lies in the list and talks to `pid`.
pub proof fn lemma_session_from(sessions: Seq<SessionView>, pid: u32, from: int)
    requires
        0 <= from,
    ensures
        session_from(sessions, pid, from) matches Some(at) ==> from <= at < sessions.len()
            && sessions[at].owner.pid == Some(pid),
    decreases sessions.len() - from,
{
    if from < sessions.len() && sessions[from].owner.pid != Some(pid) {
        lemma_session_from(sessions, pid, from + 1);
    }
}

/// Whether `identity` names the process that hits record as `plugin_pid`.
pub open spec fn is_plugin(identity: Credentials, plugin_pid: u64) -> bool {
    identity.pid matches Some(pid) && pid as u64 == plugin_pid
}

/// Whether the plugin that `session` talks to is among `acknowledged`.
pub open spec fn is_acknowledged(acknowledged: Set<u64>, session: SessionView) -> bool {
    session.owner.pid matches Some(pid) && acknowledged.contains(pid as u64)
}

impl<C> RuntimeView<C> {
    /// What holds of the coordinator at all times: every connection names
    /// its process; every gathered hit arrived in the round in flight, from a
    /// plugin that had acknowledged the search of that round; and a session
    /// takes hits only from such a plugin.
    pub open spec fn well_formed(self) -> bool {
        &&& forall|i: int|
            0 <= i < self.connections.len() ==> (#[trigger] self.connections[i]).0.pid.is_some()
        &&& self.hit_rounds.len() == self.hits.len()
        &&& forall|i: int| 0 <= i < self.hits.len() ==> #[trigger] self.hit_rounds[i] == self.round
        &&& forall|i: int|
            0 <= i < self.hits.len() ==> self.acknowledged.contains(
                (#[trigger] self.hits[i]).plugin_pid,
            )
        &&& forall|j: int|
            0 <= j < self.sessions.len() && (#[trigger] self.sessions[j]).state
                == SessionState::Streaming ==> is_acknowledged(self.acknowledged, self.sessions[j])
    }
}

/// What a delivered package led to.
#[derive(Debug)]
pub enum Delivery {
    /// The package was dropped.
    Ignored,
    /// A plugin acknowledged the search of this round.
    Acknowledged,
    /// A hit joined the results; the acknowledgement is to be sent.
    Entry(Outgoing),
    /// A plugin ended its stream.
    Finished,
    /// A plugin sent what has no place in its stream; its session is over.
    Violation,
    /// The activation succeeded: the coordinator is to quit.
    Activated,
    /// The activation failed: the detail is for the user.
    ActivationFailed(String),
    /// The plugin broke the protocol while its answer to the activation was
    /// awaited: the activation is over, and so is the plugin's session. The
    /// user is to be told; the coordinator goes on.
    ActivationBroken,
}

/// The mathematical value of a [`Delivery`]. Of an acknowledgement it keeps
/// the receiver and the payload.
pub ghost enum DeliveryView {
    Ignored,
    Acknowledged,
    Entry { pid: u32, reply: PayloadView },
    Finished,
    Violation,
    Activated,
    ActivationFailed(Seq<char>),
    ActivationBroken,
}

impl View for Delivery {
    type V = DeliveryView;

    open spec fn view(&self) -> DeliveryView {
        match self {
            Delivery::Ignored => DeliveryView::Ignored,
            Delivery::Acknowledged => DeliveryView::Acknowledged,
            Delivery::Entry(outgoing) => DeliveryView::Entry {
                pid: outgoing.pid,
                reply: outgoing.package@.payload,
            },
            Delivery::Finished => DeliveryView::Finished,
            Delivery::Violation => DeliveryView::Violation,
            Delivery::Activated => DeliveryView::Activated,
            Delivery::ActivationFailed(detail) => DeliveryView::ActivationFailed(detail@),
            Delivery::ActivationBroken => DeliveryView::ActivationBroken,
        }
    }
}

/// Whether `message`, sent by the process `from`, answers the activation
/// that is awaited.
pub open spec fn answers_activation(
    activation: Option<ActivationView>,
    from: u32,
    message: PackageView,
) -> bool {
    &&& activation matches Some(awaited)
    &&& awaited.target == from
    &&& message.payload matches PayloadView::Result(id, _)
    &&& id == awaited.request
}

/// Whether the answer to an activation is awaited from the process `from`.
pub open spec fn awaits_answer_of(activation: Option<ActivationView>, from: u32) -> bool {
    activation matches Some(awaited) && awaited.target == from
}

/// The sessions after the one that reads from the process `pid` failed.
pub open spec fn session_failed(sessions: Seq<SessionView>, pid: u32) -> Seq<SessionView> {
    match session_of(sessions, pid) {
        Some(at) => sessions.update(at, session_abort(sessions[at])),
        None => sessions,
    }
}

/// The coordinator after the process `from` delivered `message`, and what
/// the package led to.
///
/// The answer to the awaited activation ends the activation. While that
/// answer is awaited from `from`, anything that is no `Result` breaks the
/// protocol: the activation is over, and so is the session that reads from
/// `from`. Any other package goes to that session; a hit that the session
/// takes joins the results under the round in flight. Where the session
/// finds the protocol broken, an activation that `from` was to answer is
/// over as well.
pub open spec fn deliver_step<C>(data: RuntimeView<C>, from: u32, message: PackageView) -> (
    RuntimeView<C>,
    DeliveryView,
) {
    if answers_activation(data.activation, from, message) {
        (
            RuntimeView { activation: None, ..data },
            match message.payload->Result_1 {
                Ok(_) => DeliveryView::Activated,
                Err(detail) => DeliveryView::ActivationFailed(detail),
            },
        )
    } else if awaits_answer_of(data.activation, from) && !(message.payload is Result) {
        (
            RuntimeView {
                activation: None,
                sessions: session_failed(data.sessions, from),
                ..data
            },
            DeliveryView::ActivationBroken,
        )
    } else {
        match session_of(data.sessions, from) {
            None => (data, DeliveryView::Ignored),
            Some(at) => {
                let (session, event) = session_step(data.sessions[at], message);
                let sessions = data.sessions.update(at, session);
                match event {
                    SessionEventView::Ignored => (data, DeliveryView::Ignored),
                    SessionEventView::Acknowledged => (
                        RuntimeView {
                            sessions,
                            acknowledged: data.acknowledged.insert(from as u64),
                            ..data
                        },
                        DeliveryView::Acknowledged,
                    ),
                    SessionEventView::Entry { hit, reply } => (
                        RuntimeView {
                            sessions,
                            hits: data.hits.push(owned(hit, from as u64)),
                            hit_rounds: data.hit_rounds.push(data.round),
                            ..data
                        },
                        DeliveryView::Entry { pid: from, reply },
                    ),
                    SessionEventView::Finished => (
                        RuntimeView { sessions, ..data },
                        DeliveryView::Finished,
                    ),
                    SessionEventView::Violation => if awaits_answer_of(data.activation, from) {
                        (
                            RuntimeView { sessions, activation: None, ..data },
                            DeliveryView::ActivationBroken,
                        )
                    } else {
                        (RuntimeView { sessions, ..data }, DeliveryView::Violation)
                    },
                }
            },
        }
    }
}

impl<C> View for RuntimeData<C> {
    type V = RuntimeView<C>;

    closed spec fn view(&self) -> RuntimeView<C> {
        RuntimeView {
            process: self.process,
            connections: self.connections@,
            sessions: sessions_view(self.entry_pool@),
            hits: hits_view(self.hit_store@),
            activation: activation_view(self.activation),
            round: self.round@,
            hit_rounds: self.hit_rounds@,
            acknowledged: self.acknowledged@,
        }
    }
}

impl<C> RuntimeData<C> {
    /// The coordinator that runs as the process `process`, before anything
    /// happened.
    pub fn new(process: u32) -> (data: RuntimeData<C>)
        ensures
            data@.well_formed(),
            data@ == (RuntimeView::<C> {
                process,
                connections: Seq::empty(),
                sessions: Seq::empty(),
                hits: Seq::empty(),
                activation: None,
                round: 0,
                hit_rounds: Seq::empty(),
                acknowledged: Set::empty(),
            }),
    {
        let data = RuntimeData {
            process,
            connections: Registry::new(),
            entry_pool: Vec::new(),
            hit_store: Vec::new(),
            activation: None,
            round: Ghost(0),
            hit_rounds: Ghost(Seq::empty()),
            acknowledged: Ghost(Set::empty()),
        };
        assert(data@.sessions =~= Seq::empty());
        assert(data@.hits =~= Seq::empty());
        data
    }

    /// The live plugin connections.
    pub fn connections(&self) -> (connections: &Registry<C>)
        ensures
            connections@ == self@.connections,
    {
        &self.connections
    }

    /// The hits gathered so far.
    pub fn hit_store(&self) -> (hits: &Vec<GHit>)
        ensures
            hits_view(hits@) == self@.hits,
            hits@.len() == self@.hits.len(),
    {
        &self.hit_store
    }

    /// The sessions of the round in flight.
    pub fn entry_pool(&self) -> (sessions: &Vec<QuerySession>)
        ensures
            sessions_view(sessions@) == self@.sessions,
            sessions@.len() == self@.sessions.len(),
    {
        &self.entry_pool
    }

    /// The place of the session that reads what the process `pid` sends.
    fn session_position(&self, pid: u32) -> (at: Option<usize>)
        ensures
            match at {
                Some(at) => session_of(self@.sessions, pid) == Some(at as int) && at
                    < self.entry_pool@.len(),
                None => session_of(self@.sessions, pid).is_none(),
            },
    {
        let mut i: usize = 0;
        while i < self.entry_pool.len()
            invariant
                i <= self.entry_pool.len(),
                session_of(self@.sessions, pid) == session_from(self@.sessions, pid, i as int),
            decreases self.entry_pool.len() - i,
        {
            let owner = self.entry_pool[i].owner();
            if is_process(&owner, pid) {
                return Some(i);
            }
            i = i + 1;
        }
        None
    }
}

/// Takes a package that the process `from` sent.
pub fn deliver<C>(from: u32, message: &Package, runtime_data: &mut RuntimeData<C>) -> (delivery:
    Delivery)
    requires
        old(runtime_data)@.well_formed(),
    ensures
        final(runtime_data)@.well_formed(),
        (final(runtime_data)@, delivery@) == deliver_step(old(runtime_data)@, from, message@),
        delivery matches Delivery::Entry(outgoing) ==> is_random_uuid_text(outgoing.package@.id),
{
    let ghost before = runtime_data@;
    let mut awaited = false;
    let mut verdict: Option<Result<(), String>> = None;
    match &runtime_data.activation {
        Some(activation) => {
            if activation.target == from {
                awaited = true;
                match message.payload() {
                    Payload::Result(answer) => {
                        if answer.0 == activation.request {
                            verdict = Some(clone_verdict(&answer.1));
                        }
                    },
                    _ => {},
                }
            }
        },
        None => {},
    }
    match verdict {
        Some(verdict) => {
            runtime_data.activation = None;
            return match verdict {
                Ok(_) => Delivery::Activated,
                Err(detail) => Delivery::ActivationFailed(detail),
            };
        },
        None => {},
    }
    proof {
        lemma_deliver_keeps_well_formed(before, from, message@);
        lemma_session_from(before.sessions, from, 0);
    }
    let is_result = match message.payload() {
        Payload::Result(_) => true,
        _ => false,
    };
    let at = runtime_data.session_position(from);
    if awaited && !is_result {
        runtime_data.activation = None;
        match at {
            Some(at) => {
                runtime_data.entry_pool[at].abort();
                proof {
                    assert(runtime_data@.sessions =~= before.sessions.update(
                        at as int,
                        session_abort(before.sessions[at as int]),
                    ));
                }
            },
            None => {},
        }
        return Delivery::ActivationBroken;
    }
    match at {
        None => Delivery::Ignored,
        Some(at) => {
            let event = runtime_data.entry_pool[at].receive(message);
            proof {
                assert(runtime_data@.sessions =~= before.sessions.update(
                    at as int,
                    runtime_data@.sessions[at as int],
                ));
            }
            match event {
                SessionEvent::Ignored => {
                    assert(runtime_data@.sessions =~= before.sessions);
                    Delivery::Ignored
                },
                SessionEvent::Acknowledged => {
                    proof {
                        runtime_data.acknowledged@ = runtime_data.acknowledged@.insert(from as u64);
                    }
                    Delivery::Acknowledged
                },
                SessionEvent::Entry { hit, reply } => {
                    let mut entry = GHit::from(hit);
                    entry.set_plugin_pid(from as u64);
                    runtime_data.hit_store.push(entry);
                    proof {
                        runtime_data.hit_rounds@ = runtime_data.hit_rounds@.push(runtime_data.round@);
                        assert(runtime_data@.hits =~= before.hits.push(owned(hit@, from as u64)));
                    }
                    Delivery::Entry(Outgoing { pid: from, package: Package::new(reply) })
                },
                SessionEvent::Finished => Delivery::Finished,
                SessionEvent::Violation => {
                    if awaited {
                        runtime_data.activation = None;
                        Delivery::ActivationBroken
                    } else {
                        Delivery::Violation
                    }
                },
            }
        },
    }
}

/// A well-formed coordinator is well formed after any delivery.
pub proof fn lemma_deliver_keeps_well_formed<C>(data: RuntimeView<C>, from: u32, message: PackageView)
    requires
        data.well_formed(),
    ensures
        deliver_step(data, from, message).0.well_formed(),
{
    let after = deliver_step(data, from, message).0;
    lemma_session_from(data.sessions, from, 0);
    assert forall|j: int|
        0 <= j < after.sessions.len() && (#[trigger] after.sessions[j]).state
            == SessionState::Streaming implies is_acknowledged(
        after.acknowledged,
        after.sessions[j],
    ) by {
        assert(after.sessions[j].owner == data.sessions[j].owner);
        if data.sessions[j].state == SessionState::Streaming {
            assert(is_acknowledged(data.acknowledged, data.sessions[j]));
        }
    }
    assert forall|i: int| 0 <= i < after.hits.len() implies after.acknowledged.contains(
        (#[trigger] after.hits[i]).plugin_pid,
    ) by {
        if i < data.hits.len() {
            assert(data.acknowledged.contains(data.hits[i].plugin_pid));
        } else {
            let at = session_of(data.sessions, from)->0;
            assert(is_acknowledged(data.acknowledged, data.sessions[at]));
        }
    }
}

/// The receiver and the value of each package, in order.
pub open spec fn outgoing_view(sent: Seq<Outgoing>) -> Seq<(u32, PackageView)> {
    sent.map_values(|outgoing: Outgoing| (outgoing.pid, outgoing.package@))
}

/// Whether `after` is `before` with a new round opened for `text`, and
/// `sent` is what opening it sends.
///
/// Nothing of the former round is left: no hit, no session, and no
/// acknowledgement. Each live
/// connection, in the registry's order, gets `Abort` and then `GetData(text)`,
/// and a session that awaits the acknowledgement of that very `GetData`.
pub open spec fn opens_round<C>(
    before: RuntimeView<C>,
    text: Seq<char>,
    sent: Seq<(u32, PackageView)>,
    after: RuntimeView<C>,
) -> bool {
    &&& after == (RuntimeView {
        sessions: after.sessions,
        hits: Seq::empty(),
        hit_rounds: Seq::empty(),
        round: before.round + 1,
        acknowledged: Set::empty(),
        ..before
    })
    &&& after.sessions.len() == before.connections.len()
    &&& sent.len() == 2 * before.connections.len()
    &&& forall|i: int|
        #![trigger before.connections[i]]
        #![trigger after.sessions[i]]
        0 <= i < before.connections.len() ==> {
            let identity = before.connections[i].0;
            &&& identity.pid == Some(sent[2 * i].0)
            &&& sent[2 * i].1.payload == PayloadView::Command(CommandView::Abort)
            &&& identity.pid == Some(sent[2 * i + 1].0)
            &&& sent[2 * i + 1].1.payload == PayloadView::Command(CommandView::GetData(text))
            &&& after.sessions[i] == (SessionView {
                owner: identity,
                state: SessionState::AwaitingAck,
                request: sent[2 * i + 1].1.id,
            })
        }
}

/// The coordinator after every session was given up: the pool is empty.
/// The connections and the results stay.
pub open spec fn cleared_step<C>(data: RuntimeView<C>) -> RuntimeView<C> {
    RuntimeView { sessions: Seq::empty(), ..data }
}

/// Giving up every session keeps a well-formed coordinator well formed, and
/// to do it twice is to do it once.
pub proof fn lemma_clearing_keeps_well_formed<C>(data: RuntimeView<C>)
    requires
        data.well_formed(),
    ensures
        cleared_step(data).well_formed(),
        cleared_step(cleared_step(data)) == cleared_step(data),
{
}

/// Gives up every session of the round in flight and empties the pool.
/// Nothing is sent: what a plugin still has to say finds no session to take
/// it, and is dropped.
pub fn clear_entry_pool<C>(runtime_data: &mut RuntimeData<C>)
    requires
        old(runtime_data)@.well_formed(),
    ensures
        final(runtime_data)@.well_formed(),
        final(runtime_data)@ == cleared_step(old(runtime_data)@),
        final(runtime_data)@.sessions.len() == 0,
{
    runtime_data.entry_pool.clear();
    assert(runtime_data@.sessions =~= Seq::empty());
}

/// Opens a new round for `text`: gives up the sessions of the round in
/// flight, empties the results, and starts a session against every live
/// connection. The packages are to be sent in the order given.
pub fn on_entry_changed<C>(text: &str, runtime_data: &mut RuntimeData<C>) -> (sent: Vec<Outgoing>)
    requires
        old(runtime_data)@.well_formed(),
    ensures
        final(runtime_data)@.well_formed(),
        opens_round(old(runtime_data)@, text@, outgoing_view(sent@), final(runtime_data)@),
        sent@.len() == 2 * old(runtime_data)@.connections.len(),
        forall|i: int| 0 <= i < sent.len() ==> is_random_uuid_text((#[trigger] sent[i]).package@.id),
{
    let ghost before = runtime_data@;
    clear_entry_pool(runtime_data);
    runtime_data.hit_store.clear();
    proof {
        runtime_data.hit_rounds@ = Seq::empty();
        runtime_data.round@ = runtime_data.round@ + 1;
        runtime_data.acknowledged@ = Set::empty();
    }
    let owners = runtime_data.connections.all();
    let mut sent: Vec<Outgoing> = Vec::new();
    let mut pool: Vec<QuerySession> = Vec::new();
    let mut i: usize = 0;
    while i < owners.len()
        invariant
            i <= owners.len(),
            owners@ == identities(before.connections),
            before.well_formed(),
            pool.len() == i,
            sent.len() == 2 * i,
            forall|k: int| 0 <= k < sent.len() ==> is_random_uuid_text((#[trigger] sent[k]).package@.id),
            forall|k: int|
                0 <= k < i ==> {
                    let identity = (#[trigger] before.connections[k]).0;
                    &&& identity.pid == Some(sent[2 * k].pid)
                    &&& sent[2 * k].package@.payload == PayloadView::Command(CommandView::Abort)
                    &&& identity.pid == Some(sent[2 * k + 1].pid)
                    &&& sent[2 * k + 1].package@.payload == PayloadView::Command(
                        CommandView::GetData(text@),
                    )
                    &&& pool[k]@ == (SessionView {
                        owner: identity,
                        state: SessionState::AwaitingAck,
                        request: sent[2 * k + 1].package@.id,
                    })
                },
        decreases owners.len() - i,
    {
        let identity = owners[i];
        assert(identity == before.connections[i as int].0);
        let pid = identity.pid.unwrap();
        let mut session = QuerySession::new(identity);
        let (abort, request) = session.start(text).unwrap();
        sent.push(Outgoing { pid, package: abort });
        sent.push(Outgoing { pid, package: request });
        pool.push(session);
        i = i + 1;
    }
    runtime_data.entry_pool = pool;
    proof {
        let after = runtime_data@;
        assert(after.hits =~= Seq::empty());
        assert(after.sessions.len() == before.connections.len());
        assert forall|k: int|
            #![trigger before.connections[k]]
            #![trigger after.sessions[k]]
            0 <= k < before.connections.len() implies {
            let identity = before.connections[k].0;
            &&& identity.pid == Some(outgoing_view(sent@)[2 * k].0)
            &&& outgoing_view(sent@)[2 * k].1.payload == PayloadView::Command(CommandView::Abort)
            &&& identity.pid == Some(outgoing_view(sent@)[2 * k + 1].0)
            &&& outgoing_view(sent@)[2 * k + 1].1.payload == PayloadView::Command(
                CommandView::GetData(text@),
            )
            &&& after.sessions[k] == (SessionView {
                owner: identity,
                state: SessionState::AwaitingAck,
                request: outgoing_view(sent@)[2 * k + 1].1.id,
            })
        } by {
            assert(after.sessions[k] == pool[k]@);
        }
    }
    sent
}

/// What became of a connection that came in.
pub enum Incoming<C> {
    /// The coordinator itself is the peer: the connection is its private
    /// channel, which carries `Quit` and nothing else. It is handed back.
    FromSelf(C),
    /// A plugin is the peer: the connection was registered, and a new round
    /// for the empty text was opened, which sends these packages.
    Plugin(Vec<Outgoing>),
    /// The peer's process number could not be read: the connection was not
    /// registered, and nothing changed. It is handed back to be closed.
    Rejected(C),
}

/// Whether `after` is `before` with the connection of `identity` taken in:
/// nothing changes where the peer's process number is not known or the peer
/// is the coordinator itself, and else the connection is registered and a
/// round for the empty text is opened, which sends `sent`.
pub open spec fn connects<C>(
    before: RuntimeView<C>,
    identity: Credentials,
    connection: C,
    sent: Seq<(u32, PackageView)>,
    after: RuntimeView<C>,
) -> bool {
    if identity.pid is None || identity.pid == Some(before.process) {
        after == before && sent.len() == 0
    } else {
        opens_round(
            RuntimeView { connections: before.connections.push((identity, connection)), ..before },
            Seq::<char>::empty(),
            sent,
            after,
        )
    }
}

/// Takes a connection that came in, with the identity read off its socket.
///
/// A connection of the coordinator's own process is never registered, nor
/// one whose process number could not be read.
pub fn handle_new_connection<C>(
    identity: Credentials,
    connection: C,
    runtime_data: &mut RuntimeData<C>,
) -> (incoming: Incoming<C>)
    requires
        old(runtime_data)@.well_formed(),
    ensures
        final(runtime_data)@.well_formed(),
        match incoming {
            Incoming::FromSelf(own) => identity.pid == Some(old(runtime_data)@.process) && own
                == connection && final(runtime_data)@ == old(runtime_data)@,
            Incoming::Plugin(sent) => identity.pid is Some && identity.pid != Some(
                old(runtime_data)@.process,
            ) && connects(
                old(runtime_data)@,
                identity,
                connection,
                outgoing_view(sent@),
                final(runtime_data)@,
            ) && sent@.len() == 2 * (old(runtime_data)@.connections.len() + 1),
            Incoming::Rejected(refused) => identity.pid is None && refused == connection
                && final(runtime_data)@ == old(runtime_data)@,
        },
{
    if identity.pid.is_none() {
        Incoming::Rejected(connection)
    } else if is_process(&identity, runtime_data.process) {
        Incoming::FromSelf(connection)
    } else {
        let ghost before = runtime_data@;
        runtime_data.connections.register(identity, connection);
        proof {
            reveal_strlit("");
            let registered = RuntimeView {
                connections: before.connections.push((identity, connection)),
                ..before
            };
            assert(runtime_data@ == registered);
            assert(""@ =~= Seq::<char>::empty());
        }
        Incoming::Plugin(on_entry_changed("", runtime_data))
    }
}

/// Whether what came over the coordinator's private channel asks it to
/// quit. The channel understands nothing else.
pub fn handle_socket_data(data: &Payload) -> (quit: bool)
    ensures
        quit == (data@ == PayloadView::Command(CommandView::Quit)),
{
    match data {
        Payload::Command(Command::Quit) => true,
        _ => false,
    }
}

/// The sessions after the connections of the process `pid` failed.
pub open spec fn all_failed(sessions: Seq<SessionView>, pid: u32) -> Seq<SessionView> {
    sessions.map_values(
        |session: SessionView|
            if session.owner.pid == Some(pid) {
                session_abort(session)
            } else {
                session
            },
    )
}

/// The coordinator after the connections of the process `pid` broke: they
/// have left the registry, the sessions that read from them are over, and so
/// is an activation that `pid` was to answer.
pub open spec fn closed_step<C>(data: RuntimeView<C>, pid: u32) -> RuntimeView<C> {
    RuntimeView {
        connections: data.connections.filter(|entry: (Credentials, C)| entry.0.pid != Some(pid)),
        sessions: all_failed(data.sessions, pid),
        activation: if awaits_answer_of(data.activation, pid) {
            None
        } else {
            data.activation
        },
        ..data
    }
}

/// What the loss of a connection took with it.
#[derive(Debug, PartialEq, Eq, Clone, Copy)]
pub struct Departure {
    /// How many connections left the registry.
    pub dropped: usize,
    /// The activation that the process was to answer, and now never will:
    /// the user is to be told.
    pub lost: Option<RoutingError>,
}

/// The loss of a connection keeps a well-formed coordinator well formed.
pub proof fn lemma_closing_keeps_well_formed<C>(data: RuntimeView<C>, pid: u32)
    requires
        data.well_formed(),
    ensures
        closed_step(data, pid).well_formed(),
{
    let after = closed_step(data, pid);
    assert forall|j: int|
        0 <= j < after.sessions.len() && (#[trigger] after.sessions[j]).state
            == SessionState::Streaming implies is_acknowledged(
        after.acknowledged,
        after.sessions[j],
    ) by {
        assert(is_acknowledged(data.acknowledged, data.sessions[j]));
    }
    let kept = |entry: (Credentials, C)| entry.0.pid != Some(pid);
    assert forall|k: int| 0 <= k < after.connections.len() implies (
    #[trigger] after.connections[k]).0.pid.is_some() by {
        data.connections.lemma_filter_contains_rev(kept, after.connections[k]);
    }
}

/// Takes note that the connection of the process `pid` broke, or sent what
/// cannot be read: it leaves the registry, and the sessions that read from it
/// are over. The hits that the plugin offered stay until the next round. An
/// activation that the process was to answer is over, and is handed back as
/// lost.
pub fn connection_closed<C>(pid: u32, runtime_data: &mut RuntimeData<C>) -> (departure: Departure)
    requires
        old(runtime_data)@.well_formed(),
    ensures
        final(runtime_data)@.well_formed(),
        final(runtime_data)@ == closed_step(old(runtime_data)@, pid),
        departure.dropped == old(runtime_data)@.connections.len()
            - final(runtime_data)@.connections.len(),
        departure.lost == if awaits_answer_of(old(runtime_data)@.activation, pid) {
            Some(RoutingError { plugin_pid: pid as u64 })
        } else {
            None
        },
{
    let ghost before = runtime_data@;
    let dropped = runtime_data.connections.remove(pid);
    let mut lost: Option<RoutingError> = None;
    let awaited = match &runtime_data.activation {
        Some(activation) => activation.target == pid,
        None => false,
    };
    if awaited {
        runtime_data.activation = None;
        lost = Some(RoutingError { plugin_pid: pid as u64 });
    }
    let ghost closing = runtime_data@;
    let mut i: usize = 0;
    while i < runtime_data.entry_pool.len()
        invariant
            i <= runtime_data.entry_pool.len(),
            runtime_data@ == (RuntimeView { sessions: runtime_data@.sessions, ..closing }),
            closing == (RuntimeView {
                connections: closing.connections,
                activation: closing.activation,
                ..before
            }),
            closing.activation == closed_step(before, pid).activation,
            runtime_data@.connections == before.connections.filter(
                |entry: (Credentials, C)| entry.0.pid != Some(pid),
            ),
            runtime_data@.sessions.len() == before.sessions.len(),
            forall|j: int|
                0 <= j < i ==> #[trigger] runtime_data@.sessions[j] == all_failed(
                    before.sessions,
                    pid,
                )[j],
            forall|j: int|
                i <= j < before.sessions.len() ==> #[trigger] runtime_data@.sessions[j]
                    == before.sessions[j],
        decreases runtime_data.entry_pool.len() - i,
    {
        let ghost previous = runtime_data@;
        let owner = runtime_data.entry_pool[i].owner();
        if is_process(&owner, pid) {
            runtime_data.entry_pool[i].abort();
            proof {
                assert(runtime_data@.sessions =~= previous.sessions.update(
                    i as int,
                    session_abort(previous.sessions[i as int]),
                ));
            }
        }
        i = i + 1;
    }
    proof {
        assert(runtime_data@.sessions =~= all_failed(before.sessions, pid));
        lemma_closing_keeps_well_formed(before, pid);
    }
    Departure { dropped, lost }
}

/// The process that the activation of row `row` goes to: the plugin that
/// offered the hit, if a live connection answers to its number.
pub open spec fn activation_target<C>(data: RuntimeView<C>, row: int) -> Option<u32> {
    let plugin_pid = data.hits[row].plugin_pid;
    if plugin_pid <= u32::MAX && position(data.connections, plugin_pid as u32).is_some() {
        Some(plugin_pid as u32)
    } else {
        None
    }
}

/// The coordinator after row `row` was chosen and `Activate` went out under
/// the identifier `request`, where the hit's plugin is there to take it.
pub open spec fn activate_step<C>(data: RuntimeView<C>, row: int, request: Seq<char>) -> RuntimeView<
    C,
> {
    match activation_target(data, row) {
        Some(target) => RuntimeView {
            activation: Some(ActivationView { target, request }),
            ..data
        },
        None => data,
    }
}

/// Activates the hit in row `row_id` under the identifier `request`.
///
/// Where a live connection answers to the process number that the hit
/// records, `Activate` with the hit's identifier is to be sent to that
/// process, and its answer is awaited. Where none does, nothing changes.
pub fn activate_with<C>(row_id: u32, request: PackageId, runtime_data: &mut RuntimeData<C>) -> (sent:
    Result<Outgoing, RoutingError>)
    requires
        old(runtime_data)@.well_formed(),
        row_id < old(runtime_data)@.hits.len(),
    ensures
        final(runtime_data)@.well_formed(),
        final(runtime_data)@ == activate_step(old(runtime_data)@, row_id as int, request@),
        match sent {
            Ok(outgoing) => activation_target(old(runtime_data)@, row_id as int) == Some(
                outgoing.pid,
            ) && outgoing.package@ == (PackageView {
                id: request@,
                payload: PayloadView::Command(
                    CommandView::Activate(old(runtime_data)@.hits[row_id as int].id),
                ),
            }),
            Err(error) => activation_target(old(runtime_data)@, row_id as int).is_none()
                && error.plugin_pid == old(runtime_data)@.hits[row_id as int].plugin_pid,
        },
{
    let entry = &runtime_data.hit_store[row_id as usize];
    let plugin_pid = entry.get_plugin_pid();
    if plugin_pid > u32::MAX as u64 {
        return Err(RoutingError { plugin_pid });
    }
    let target = plugin_pid as u32;
    match runtime_data.connections.position(target) {
        None => Err(RoutingError { plugin_pid }),
        Some(_) => {
            let hit_id = entry.get_id();
            let package = Package::with_id(
                request.clone(),
                Payload::Command(Command::Activate(HitId::from(hit_id.as_str()))),
            );
            runtime_data.activation = Some(Activation { target, request });
            Ok(Outgoing { pid: target, package })
        },
    }
}

/// Activates the hit in row `row_id` under a fresh identifier; see
/// [`activate_with`].
pub fn handle_selection_activation<C>(row_id: u32, runtime_data: &mut RuntimeData<C>) -> (sent:
    Result<Outgoing, RoutingError>)
    requires
        old(runtime_data)@.well_formed(),
        row_id < old(runtime_data)@.hits.len(),
    ensures
        final(runtime_data)@.well_formed(),
        match sent {
            Ok(outgoing) => activation_target(old(runtime_data)@, row_id as int) == Some(
                outgoing.pid,
            ) && outgoing.package@.payload == PayloadView::Command(
                CommandView::Activate(old(runtime_data)@.hits[row_id as int].id),
            ) && is_random_uuid_text(outgoing.package@.id) && final(runtime_data)@
                == activate_step(old(runtime_data)@, row_id as int, outgoing.package@.id),
            Err(error) => activation_target(old(runtime_data)@, row_id as int).is_none()
                && error.plugin_pid == old(runtime_data)@.hits[row_id as int].plugin_pid
                && final(runtime_data)@ == old(runtime_data)@,
        },
{
    activate_with(row_id, PackageId::new(), runtime_data)
}

/// Ends the coordinator's work: gives up every session and hands back a
/// `Quit` for every live connection, in the registry's order.
pub fn finalize_connections<C>(runtime_data: &mut RuntimeData<C>) -> (sent: Vec<Outgoing>)
    requires
        old(runtime_data)@.well_formed(),
    ensures
        final(runtime_data)@.well_formed(),
        final(runtime_data)@ == cleared_step(old(runtime_data)@),
        sent.len() == old(runtime_data)@.connections.len(),
        forall|i: int|
            0 <= i < sent.len() ==> {
                &&& old(runtime_data)@.connections[i].0.pid == Some((#[trigger] sent[i]).pid)
                &&& sent[i].package@.payload == PayloadView::Command(CommandView::Quit)
                &&& is_random_uuid_text(sent[i].package@.id)
            },
{
    clear_entry_pool(runtime_data);
    let owners = runtime_data.connections.all();
    let mut sent: Vec<Outgoing> = Vec::new();
    let mut i: usize = 0;
    while i < owners.len()
        invariant
            i <= owners.len(),
            owners@ == identities(runtime_data@.connections),
            runtime_data@.well_formed(),
            sent.len() == i,
            forall|k: int|
                0 <= k < i ==> {
                    &&& runtime_data@.connections[k].0.pid == Some((#[trigger] sent[k]).pid)
                    &&& sent[k].package@.payload == PayloadView::Command(CommandView::Quit)
                    &&& is_random_uuid_text(sent[k].package@.id)
                },
        decreases owners.len() - i,
    {
        let identity = owners[i];
        assert(identity == runtime_data@.connections[i as int].0);
        let pid = identity.pid.unwrap();
        sent.push(Outgoing { pid, package: Package::new(Payload::Command(Command::Quit)) });
        i = i + 1;
    }
    sent
}

/// No hit of an earlier round is among the results, and every hit comes
/// from a plugin that had acknowledged the search of this round.
pub proof fn lemma_hits_are_of_this_round<C>(data: RuntimeView<C>, row: int)
    requires
        data.well_formed(),
        0 <= row < data.hits.len(),
    ensures
        data.hit_rounds[row] == data.round,
        data.acknowledged.contains(data.hits[row].plugin_pid),
{
}

/// Where the session that reads from `from` awaits the acknowledgement of
/// its search (or reads nothing any more, or is no more), a hit that `from`
/// delivers does not reach the results: what a plugin still sends for an
/// earlier search is dropped. A process that is to answer an activation is
/// another matter: from it a hit breaks the protocol.
pub proof fn lemma_late_hit_is_dropped<C>(data: RuntimeView<C>, from: u32, message: PackageView)
    requires
        message.payload is Hit,
        !awaits_answer_of(data.activation, from),
        session_of(data.sessions, from) matches Some(at) ==> data.sessions[at].state
            != SessionState::Streaming,
    ensures
        deliver_step(data, from, message) == (data, DeliveryView::Ignored),
{
}

/// A `Result` that answers neither the awaited activation nor the search of
/// the sender's session moves no session, unless that session is taking
/// hits.
pub proof fn lemma_stale_result_moves_nothing<C>(data: RuntimeView<C>, from: u32, message: PackageView)
    requires
        message.payload is Result,
        !answers_activation(data.activation, from, message),
        session_of(data.sessions, from) matches Some(at) ==> data.sessions[at].state
            != SessionState::Streaming && data.sessions[at].request != message.payload->Result_0,
    ensures
        deliver_step(data, from, message) == (data, DeliveryView::Ignored),
{
}

/// An activation goes to the plugin that offered the hit and to no other:
/// with two live connections of different processes, the hit of the one is
/// never activated at the other.
pub proof fn lemma_activation_goes_to_owner<C>(
    data: RuntimeView<C>,
    row: int,
    a: int,
    b: int,
)
    requires
        data.well_formed(),
        0 <= row < data.hits.len(),
        0 <= a < data.connections.len(),
        0 <= b < data.connections.len(),
        data.connections[a].0.pid != data.connections[b].0.pid,
        is_plugin(data.connections[b].0, data.hits[row].plugin_pid),
    ensures
        activation_target(data, row) == data.connections[b].0.pid,
        activation_target(data, row) != data.connections[a].0.pid,
{
    let pid = data.connections[b].0.pid->0;
    lemma_position_from(data.connections, pid, 0);
}

/// While the answer to an activation is awaited from `from`, whatever `from`
/// sends that is no `Result` ends the activation as broken: nothing is
/// activated, and the connections and the results stay as they are.
pub proof fn lemma_broken_activation_ends<C>(data: RuntimeView<C>, from: u32, message: PackageView)
    requires
        awaits_answer_of(data.activation, from),
        !(message.payload is Result),
    ensures
        deliver_step(data, from, message).1 == DeliveryView::ActivationBroken,
        deliver_step(data, from, message).0 == (RuntimeView {
            activation: None,
            sessions: session_failed(data.sessions, from),
            ..data
        }),
{
}

/// No activation outlives the connection that was to answer it.
pub proof fn lemma_closed_target_ends_activation<C>(data: RuntimeView<C>, pid: u32)
    ensures
        !awaits_answer_of(closed_step(data, pid).activation, pid),
        awaits_answer_of(data.activation, pid) ==> closed_step(data, pid).activation is None,
{
}

/// An activation succeeds once: only the answer `Ok` to the awaited
/// activation does it, from the process that was to answer, and after it no
/// activation is awaited, so that nothing delivered next can succeed again.
pub proof fn lemma_activation_succeeds_once<C>(
    data: RuntimeView<C>,
    from: u32,
    message: PackageView,
    next_from: u32,
    next: PackageView,
)
    requires
        deliver_step(data, from, message).1 == DeliveryView::Activated,
    ensures
        answers_activation(data.activation, from, message),
        message.payload == PayloadView::Result(data.activation->0.request, Ok(())),
        deliver_step(data, from, message).0.activation is None,
        deliver_step(deliver_step(data, from, message).0, next_from, next).1
            != DeliveryView::Activated,
{
    lemma_session_from(data.sessions, from, 0);
    let after = deliver_step(data, from, message).0;
    lemma_session_from(after.sessions, next_from, 0);
    if let PayloadView::Result(id, Ok(nothing)) = message.payload {
        assert(nothing == ());
    }
}

/// The coordinator after each of `deliveries` arrived in turn: a process,
/// and the package that it sent.
pub open spec fn deliver_all<C>(
    data: RuntimeView<C>,
    deliveries: Seq<(u32, PackageView)>,
) -> RuntimeView<C>
    decreases deliveries.len(),
{
    if deliveries.len() == 0 {
        data
    } else {
        deliver_step(
            deliver_all(data, deliveries.drop_last()),
            deliveries.last().0,
            deliveries.last().1,
        ).0
    }
}

/// The packages among `deliveries` that the process `pid` sent, in order.
pub open spec fn sent_by(deliveries: Seq<(u32, PackageView)>, pid: u32) -> Seq<PackageView>
    decreases deliveries.len(),
{
    if deliveries.len() == 0 {
        Seq::empty()
    } else if deliveries.last().0 == pid {
        sent_by(deliveries.drop_last(), pid).push(deliveries.last().1)
    } else {
        sent_by(deliveries.drop_last(), pid)
    }
}

/// The hits among `hits` that the plugin `plugin_pid` offered, in order.
pub open spec fn offered_by(hits: Seq<GHitView>, plugin_pid: u64) -> Seq<GHitView>
    decreases hits.len(),
{
    if hits.len() == 0 {
        Seq::empty()
    } else if hits.last().plugin_pid == plugin_pid {
        offered_by(hits.drop_last(), plugin_pid).push(hits.last())
    } else {
        offered_by(hits.drop_last(), plugin_pid)
    }
}

/// The list entries for hits that the plugin `plugin_pid` offered.
pub open spec fn owned_all(hits: Seq<HitView>, plugin_pid: u64) -> Seq<GHitView> {
    hits.map_values(|hit: HitView| owned(hit, plugin_pid))
}

/// Whether no process but `pid` sends a hit among `deliveries`.
pub open spec fn only_hits_of(deliveries: Seq<(u32, PackageView)>, pid: u32) -> bool {
    forall|i: int|
        0 <= i < deliveries.len() && (#[trigger] deliveries[i]).0 != pid ==> !(
        deliveries[i].1.payload is Hit)
}

/// Sessions with the same owners, place by place, read from the same
/// processes.
pub proof fn lemma_owners_decide_the_place(
    a: Seq<SessionView>,
    b: Seq<SessionView>,
    pid: u32,
    from: int,
)
    requires
        0 <= from,
        a.len() == b.len(),
        forall|j: int| 0 <= j < a.len() ==> (#[trigger] a[j]).owner == b[j].owner,
    ensures
        session_from(a, pid, from) == session_from(b, pid, from),
    decreases a.len() - from,
{
    if from < a.len() {
        assert(a[from].owner == b[from].owner);
        if a[from].owner.pid != Some(pid) {
            lemma_owners_decide_the_place(a, b, pid, from + 1);
        }
    }
}

/// The first session that talks to `pid` is the one that reads what `pid`
/// sends.
pub proof fn lemma_first_session_reads(sessions: Seq<SessionView>, pid: u32, k: int, from: int)
    requires
        0 <= from <= k < sessions.len(),
        sessions[k].owner.pid == Some(pid),
        forall|j: int| 0 <= j < k ==> (#[trigger] sessions[j]).owner.pid != Some(pid),
    ensures
        session_from(sessions, pid, from) == Some(k),
    decreases k - from,
{
    if from < k {
        assert(sessions[from].owner.pid != Some(pid));
        lemma_first_session_reads(sessions, pid, k, from + 1);
    }
}

/// What the coordinator gathers from one plugin depends on what that plugin
/// sent and on nothing else, however the packages of the other plugins come
/// in between: the session that reads from `pid` stands where its own
/// packages have taken it, and the results hold, of `pid`, the hits that this
/// session took, in their order. Where the others send no hit, these are all
/// the hits that joined the results.
///
/// This is said of a process that is not to answer an activation: from such
/// a process a hit breaks the protocol.
pub proof fn lemma_plugins_do_not_disturb_each_other<C>(
    data: RuntimeView<C>,
    pid: u32,
    k: int,
    deliveries: Seq<(u32, PackageView)>,
)
    requires
        data.well_formed(),
        !awaits_answer_of(data.activation, pid),
        session_of(data.sessions, pid) == Some(k),
    ensures
        ({
            let after = deliver_all(data, deliveries);
            let (session, taken) = session_run(data.sessions[k], sent_by(deliveries, pid));
            &&& after.well_formed()
            &&& !awaits_answer_of(after.activation, pid)
            &&& after.round == data.round
            &&& after.sessions.len() == data.sessions.len()
            &&& session_of(after.sessions, pid) == Some(k)
            &&& after.sessions[k] == session
            &&& offered_by(after.hits, pid as u64) == offered_by(data.hits, pid as u64)
                + owned_all(taken, pid as u64)
            &&& only_hits_of(deliveries, pid) ==> after.hits == data.hits + owned_all(
                taken,
                pid as u64,
            )
        }),
    decreases deliveries.len(),
{
    lemma_session_from(data.sessions, pid, 0);
    if deliveries.len() == 0 {
        assert(offered_by(data.hits, pid as u64) + owned_all(Seq::empty(), pid as u64)
            =~= offered_by(data.hits, pid as u64));
        assert(data.hits + owned_all(Seq::empty(), pid as u64) =~= data.hits);
    } else {
        let earlier = deliveries.drop_last();
        let from = deliveries.last().0;
        let message = deliveries.last().1;
        lemma_plugins_do_not_disturb_each_other(data, pid, k, earlier);
        let before = deliver_all(data, earlier);
        let (session, taken) = session_run(data.sessions[k], sent_by(earlier, pid));
        let after = deliver_step(before, from, message).0;
        let (moved, now) = session_run(data.sessions[k], sent_by(deliveries, pid));
        lemma_deliver_keeps_well_formed(before, from, message);
        lemma_session_from(before.sessions, pid, 0);
        lemma_session_from(before.sessions, from, 0);
        lemma_owners_decide_the_place(before.sessions, after.sessions, pid, 0);
        if only_hits_of(deliveries, pid) {
            assert forall|i: int|
                0 <= i < earlier.len() && (#[trigger] earlier[i]).0 != pid implies !(
            earlier[i].1.payload is Hit) by {
                assert(earlier[i] == deliveries[i]);
            }
            assert(from != pid ==> !(deliveries[deliveries.len() - 1].1.payload is Hit));
        }
        if from == pid {
            assert(sent_by(deliveries, pid).drop_last() =~= sent_by(earlier, pid));
            let event = session_step(session, message).1;
            match event {
                SessionEventView::Entry { hit, reply } => {
                    let entry = owned(hit, pid as u64);
                    assert(after.hits == before.hits.push(entry));
                    assert(after.hits.drop_last() =~= before.hits);
                    assert(owned_all(taken.push(hit), pid as u64) =~= owned_all(
                        taken,
                        pid as u64,
                    ).push(entry));
                    assert(offered_by(after.hits, pid as u64) =~= offered_by(
                        data.hits,
                        pid as u64,
                    ) + owned_all(now, pid as u64));
                    if only_hits_of(deliveries, pid) {
                        assert(after.hits =~= data.hits + owned_all(now, pid as u64));
                    }
                },
                _ => {
                    assert(after.hits == before.hits);
                },
            }
        } else {
            assert(after.sessions[k] == before.sessions[k]);
            if after.hits != before.hits {
                assert(after.hits == before.hits.push(after.hits.last()));
                assert(after.hits.last().plugin_pid == from as u64);
                assert(after.hits.drop_last() =~= before.hits);
            }
        }
    }
}

/// A round that supersedes another gathers the hits of the new search only.
///
/// A round is opened for `text`, whatever went before. The plugin behind the
/// connection in place `k` then serves it: it still sends `late` packages of
/// an earlier search (hits of the superseded round among them, which arrive
/// late), then acknowledges the new search, sends the hits `found`, and ends
/// its stream. The other plugins send what they will, in between as they
/// will, but have no hit to offer. Then the results are the hits `found`, in
/// their order and under the plugin's process number, and nothing that came
/// late is among them.
///
/// The plugin is not one that is to answer an activation: from such a
/// plugin a hit breaks the protocol.
pub proof fn lemma_superseding_round_gathers_its_hits_only<C>(
    before: RuntimeView<C>,
    text: Seq<char>,
    sent: Seq<(u32, PackageView)>,
    opened: RuntimeView<C>,
    k: int,
    deliveries: Seq<(u32, PackageView)>,
    late: nat,
    found: Seq<HitView>,
)
    requires
        before.well_formed(),
        opens_round(before, text, sent, opened),
        0 <= k < before.connections.len(),
        forall|j: int|
            0 <= j < k ==> (#[trigger] before.connections[j]).0.pid != before.connections[k].0.pid,
        !awaits_answer_of(before.activation, before.connections[k].0.pid->0),
        serves(sent_by(deliveries, before.connections[k].0.pid->0), late, sent[2 * k + 1].1.id, found),
        only_hits_of(deliveries, before.connections[k].0.pid->0),
    ensures
        deliver_all(opened, deliveries).hits == owned_all(
            found,
            before.connections[k].0.pid->0 as u64,
        ),
        deliver_all(opened, deliveries).sessions[k].state == SessionState::Done,
        deliver_all(opened, deliveries).round == before.round + 1,
        deliver_all(opened, deliveries).well_formed(),
{
    let pid = before.connections[k].0.pid->0;
    lemma_round_keeps_well_formed(before, text, sent, opened);
    assert(opened.sessions[k].owner == before.connections[k].0);
    assert forall|j: int| 0 <= j < k implies (#[trigger] opened.sessions[j]).owner.pid != Some(
        pid,
    ) by {
        assert(opened.sessions[j].owner == before.connections[j].0);
    }
    lemma_first_session_reads(opened.sessions, pid, k, 0);
    lemma_plugins_do_not_disturb_each_other(opened, pid, k, deliveries);
    lemma_served_session_takes_what_was_found(
        opened.sessions[k],
        sent_by(deliveries, pid),
        late,
        found,
    );
    assert(opened.hits + owned_all(found, pid as u64) =~= owned_all(found, pid as u64));
}

/// What can happen to a coordinator.
pub ghost enum Happening<C> {
    /// The input changed to this text.
    InputChanged(Seq<char>),
    /// This process delivered this package.
    Delivered(u32, PackageView),
    /// A connection came in, with this identity.
    Connected(Credentials, C),
    /// The connections of this process broke.
    Closed(u32),
    /// This row was chosen, and `Activate` went out under this identifier.
    Chosen(int, Seq<char>),
    /// Every session was given up.
    Cleared,
}

/// Whether `happening` leads from `before` to `after`.
pub open spec fn happens<C>(
    before: RuntimeView<C>,
    happening: Happening<C>,
    after: RuntimeView<C>,
) -> bool {
    match happening {
        Happening::InputChanged(text) => exists|sent: Seq<(u32, PackageView)>|
            opens_round(before, text, sent, after),
        Happening::Delivered(from, message) => after == deliver_step(before, from, message).0,
        Happening::Connected(identity, connection) => exists|sent: Seq<(u32, PackageView)>|
            connects(before, identity, connection, sent, after),
        Happening::Closed(pid) => after == closed_step(before, pid),
        Happening::Chosen(row, request) => 0 <= row < before.hits.len() && after == activate_step(
            before,
            row,
            request,
        ),
        Happening::Cleared => after == cleared_step(before),
    }
}

/// Whether `happening` opens a round in the coordinator that runs as the
/// process `process`: the input changes, or a plugin connects whose process
/// number is known.
pub open spec fn opens<C>(process: u32, happening: Happening<C>) -> bool {
    match happening {
        Happening::InputChanged(_) => true,
        Happening::Connected(identity, _) => identity.pid is Some && identity.pid != Some(process),
        _ => false,
    }
}

/// How many rounds `happenings` open.
pub open spec fn rounds_opened<C>(process: u32, happenings: Seq<Happening<C>>) -> nat
    decreases happenings.len(),
{
    if happenings.len() == 0 {
        0
    } else if opens(process, happenings.last()) {
        rounds_opened(process, happenings.drop_last()) + 1
    } else {
        rounds_opened(process, happenings.drop_last())
    }
}

/// Opening a round keeps a well-formed coordinator well formed.
pub proof fn lemma_round_keeps_well_formed<C>(
    before: RuntimeView<C>,
    text: Seq<char>,
    sent: Seq<(u32, PackageView)>,
    after: RuntimeView<C>,
)
    requires
        before.well_formed(),
        opens_round(before, text, sent, after),
    ensures
        after.well_formed(),
{
}

/// Whatever happens keeps a well-formed coordinator well formed, leaves it
/// the process it is, and opens one round or none.
pub proof fn lemma_happening_keeps_well_formed<C>(
    before: RuntimeView<C>,
    happening: Happening<C>,
    after: RuntimeView<C>,
)
    requires
        before.well_formed(),
        happens(before, happening, after),
    ensures
        after.well_formed(),
        after.process == before.process,
        after.round == before.round + if opens(before.process, happening) {
            1nat
        } else {
            0nat
        },
{
    match happening {
        Happening::InputChanged(text) => {
            let sent = choose|sent: Seq<(u32, PackageView)>| opens_round(before, text, sent, after);
            lemma_round_keeps_well_formed(before, text, sent, after);
        },
        Happening::Delivered(from, message) => {
            lemma_deliver_keeps_well_formed(before, from, message);
        },
        Happening::Connected(identity, connection) => {
            let sent = choose|sent: Seq<(u32, PackageView)>|
                connects(before, identity, connection, sent, after);
            if identity.pid is Some && identity.pid != Some(before.process) {
                let registered = RuntimeView {
                    connections: before.connections.push((identity, connection)),
                    ..before
                };
                assert(registered.well_formed());
                lemma_round_keeps_well_formed(registered, Seq::empty(), sent, after);
            }
        },
        Happening::Closed(pid) => {
            lemma_closing_keeps_well_formed(before, pid);
        },
        Happening::Chosen(row, request) => {},
        Happening::Cleared => {
            lemma_clearing_keeps_well_formed(before);
        },
    }
}

/// Whatever the input changes to, however often, and whatever else happens in
/// between, however late a package arrives: the results hold hits of the
/// latest round only.
///
/// `states` are the coordinator's values in the course of `happenings`, the
/// first one before anything happened.
pub proof fn lemma_results_are_of_the_latest_round<C>(
    states: Seq<RuntimeView<C>>,
    happenings: Seq<Happening<C>>,
)
    requires
        states.len() == happenings.len() + 1,
        states[0].well_formed(),
        forall|i: int|
            0 <= i < happenings.len() ==> happens(
                states[i],
                #[trigger] happenings[i],
                states[i + 1],
            ),
    ensures
        states.last().well_formed(),
        states.last().process == states[0].process,
        states.last().round == states[0].round + rounds_opened(states[0].process, happenings),
        forall|row: int|
            0 <= row < states.last().hits.len() ==> #[trigger] states.last().hit_rounds[row]
                == states[0].round + rounds_opened(states[0].process, happenings),
    decreases happenings.len(),
{
    if happenings.len() > 0 {
        let earlier = happenings.drop_last();
        let until = states.drop_last();
        assert forall|i: int| 0 <= i < earlier.len() implies happens(
            until[i],
            #[trigger] earlier[i],
            until[i + 1],
        ) by {
            assert(happens(states[i], happenings[i], states[i + 1]));
        }
        lemma_results_are_of_the_latest_round(until, earlier);
        let last = happenings.len() - 1;
        assert(until.last() == states[last]);
        assert(happens(states[last], happenings[last], states[last + 1]));
        lemma_happening_keeps_well_formed(states[last], happenings[last], states[last + 1]);
    }
}

} // verus!
