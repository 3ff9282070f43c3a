//! One round of the search protocol against one plugin connection, seen from
//! the coordinator.
//!
//! A session sends `Abort` and then `GetData`, waits until the plugin has
//! acknowledged that very `GetData`, and from then on takes a hit per message
//! and acknowledges each, until the plugin ends the stream with `Abort`.

use vstd::prelude::*;
use crate::package::{
    is_random_uuid_text, Command, CommandView, Hit, HitView, Package, PackageId, PackageView,
    Payload, PayloadView,
};
use crate::socket::Credentials;

verus! {

/// Where a session stands.
#[derive(Debug, Clone, Copy, PartialEq, Eq, Structural)]
pub enum SessionState {
    /// Nothing was sent yet.
    Idle,
    /// The search was sent; its acknowledgement is awaited.
    AwaitingAck,
    /// The plugin acknowledged the search; its hits are taken.
    Streaming,
    /// The plugin ended the stream.
    Done,
    /// The plugin broke the protocol.
    Aborted,
    /// The coordinator gave the session up.
    Cancelled,
}

/// A session against one connection.
#[derive(Debug)]
pub struct QuerySession {
    owner: Credentials,
    state: SessionState,
    request: PackageId,
}

/// The mathematical value of a [`QuerySession`].
pub ghost struct SessionView {
    pub owner: Credentials,
    pub state: SessionState,
    /// The identifier of the `GetData` that was sent; empty before that.
    pub request: Seq<char>,
}

/// What a message did to a session.
#[derive(Debug, PartialEq)]
pub enum SessionEvent {
    /// The message was dropped; the session stands as before.
    Ignored,
    /// The plugin acknowledged the search.
    Acknowledged,
    /// A hit arrived: it joins the results, and `reply` goes back.
    Entry { hit: Hit, reply: Payload },
    /// The plugin ended the stream.
    Finished,
    /// The message has no place in the stream: the session is over.
    Violation,
}

/// The mathematical value of a [`SessionEvent`].
pub ghost enum SessionEventView {
    Ignored,
    Acknowledged,
    Entry { hit: HitView, reply: PayloadView },
    Finished,
    Violation,
}

impl View for SessionEvent {
    type V = SessionEventView;

    open spec fn view(&self) -> SessionEventView {
        match self {
            SessionEvent::Ignored => SessionEventView::Ignored,
            SessionEvent::Acknowledged => SessionEventView::Acknowledged,
            SessionEvent::Entry { hit, reply } => SessionEventView::Entry {
                hit: hit@,
                reply: reply@,
            },
            SessionEvent::Finished => SessionEventView::Finished,
            SessionEvent::Violation => SessionEventView::Violation,
        }
    }
}

/// Whether a session in this state reads no further message.
pub open spec fn is_over(state: SessionState) -> bool {
    state == SessionState::Done || state == SessionState::Aborted || state
        == SessionState::Cancelled
}

/// Whether `message` acknowledges the package `request`.
pub open spec fn acknowledges(message: PackageView, request: Seq<char>) -> bool {
    message.payload == PayloadView::Result(request, Ok(()))
}

/// The session after `message` arrived, and what the message did.
pub open spec fn session_step(session: SessionView, message: PackageView) -> (
    SessionView,
    SessionEventView,
) {
    match session.state {
        SessionState::AwaitingAck => if acknowledges(message, session.request) {
            (SessionView { state: SessionState::Streaming, ..session }, SessionEventView::Acknowledged)
        } else {
            (session, SessionEventView::Ignored)
        },
        SessionState::Streaming => match message.payload {
            PayloadView::Hit(hit) => (
                session,
                SessionEventView::Entry { hit, reply: PayloadView::Result(message.id, Ok(())) },
            ),
            PayloadView::Command(CommandView::Abort) => (
                SessionView { state: SessionState::Done, ..session },
                SessionEventView::Finished,
            ),
            _ => (
                SessionView { state: SessionState::Aborted, ..session },
                SessionEventView::Violation,
            ),
        },
        _ => (session, SessionEventView::Ignored),
    }
}

/// The session after the coordinator gave it up.
pub open spec fn session_cancel(session: SessionView) -> SessionView {
    if is_over(session.state) {
        session
    } else {
        SessionView { state: SessionState::Cancelled, ..session }
    }
}

/// The session after its connection failed.
pub open spec fn session_abort(session: SessionView) -> SessionView {
    if is_over(session.state) {
        session
    } else {
        SessionView { state: SessionState::Aborted, ..session }
    }
}

/// A `Result` that names another package than the one a session awaits an
/// answer to is dropped, and the session stands as before. A session that
/// is taking hits awaits no answer: there any `Result` ends the session.
pub proof fn lemma_unmatched_result_is_ignored(session: SessionView, message: PackageView)
    requires
        message.payload matches PayloadView::Result(id, _) && id != session.request,
        session.state != SessionState::Streaming,
    ensures
        session_step(session, message) == (session, SessionEventView::Ignored),
{
}

/// The session after each of `messages` arrived in turn, and the hits that
/// it took, in order.
pub open spec fn session_run(session: SessionView, messages: Seq<PackageView>) -> (
    SessionView,
    Seq<HitView>,
)
    decreases messages.len(),
{
    if messages.len() == 0 {
        (session, Seq::empty())
    } else {
        let (before, hits) = session_run(session, messages.drop_last());
        let (after, event) = session_step(before, messages.last());
        (
            after,
            match event {
                SessionEventView::Entry { hit, reply } => hits.push(hit),
                _ => hits,
            },
        )
    }
}

/// Whether `messages` are what a plugin sends that serves the search
/// `request` with the hits `found`: first `late` packages that do not
/// acknowledge the search (what the plugin still had to say to an earlier
/// one), then the acknowledgement, the hits in their order, and `Abort`.
pub open spec fn serves(
    messages: Seq<PackageView>,
    late: nat,
    request: Seq<char>,
    found: Seq<HitView>,
) -> bool {
    &&& messages.len() == late + found.len() + 2
    &&& forall|i: int| 0 <= i < late ==> !acknowledges(#[trigger] messages[i], request)
    &&& acknowledges(messages[late as int], request)
    &&& forall|i: int|
        0 <= i < found.len() ==> messages[late + 1 + i].payload == PayloadView::Hit(
            #[trigger] found[i],
        )
    &&& messages.last().payload == PayloadView::Command(CommandView::Abort)
}

/// Where a plugin serves a search, the session stands after the first `n`
/// packages as the protocol has it: it waits while the late packages come,
/// takes hits from the acknowledgement on, and is done at `Abort`. It has
/// taken the hits that came so far, and none of the late ones.
pub proof fn lemma_served_so_far(
    session: SessionView,
    messages: Seq<PackageView>,
    late: nat,
    found: Seq<HitView>,
    n: nat,
)
    requires
        session.state == SessionState::AwaitingAck,
        serves(messages, late, session.request, found),
        n <= messages.len(),
    ensures
        session_run(session, messages.take(n as int)) == (
            SessionView {
                state: if n <= late {
                    SessionState::AwaitingAck
                } else if n <= late + 1 + found.len() {
                    SessionState::Streaming
                } else {
                    SessionState::Done
                },
                ..session
            },
            found.take(
                if n <= late + 1 {
                    0
                } else if n <= late + 1 + found.len() {
                    n - late - 1
                } else {
                    found.len() as int
                },
            ),
        ),
    decreases n,
{
    if n == 0 {
        assert(found.take(0) =~= Seq::empty());
    } else {
        let at = n - 1;
        lemma_served_so_far(session, messages, late, found, at as nat);
        assert(messages.take(n as int).drop_last() =~= messages.take(at));
        assert(messages.take(n as int).last() == messages[at]);
        if at < late {
        } else if at == late {
            assert(found.take(0) =~= Seq::empty());
        } else if at < late + 1 + found.len() {
            let i = at - late - 1;
            assert(messages[late + 1 + i].payload == PayloadView::Hit(found[i]));
            assert(found.take(i).push(found[i]) =~= found.take(i + 1));
        } else {
            assert(messages[at] == messages.last());
            assert(found.take(found.len() as int) =~= found);
        }
    }
}

/// Where a plugin serves a search, the session takes exactly the hits that
/// the plugin found for it, in their order, and is done. What the plugin
/// still sent for an earlier search is not among them.
pub proof fn lemma_served_session_takes_what_was_found(
    session: SessionView,
    messages: Seq<PackageView>,
    late: nat,
    found: Seq<HitView>,
)
    requires
        session.state == SessionState::AwaitingAck,
        serves(messages, late, session.request, found),
    ensures
        session_run(session, messages) == (
            SessionView { state: SessionState::Done, ..session },
            found,
        ),
{
    lemma_served_so_far(session, messages, late, found, messages.len());
    assert(messages.take(messages.len() as int) =~= messages);
    assert(found.take(found.len() as int) =~= found);
}

impl View for QuerySession {
    type V = SessionView;

    closed spec fn view(&self) -> SessionView {
        SessionView { owner: self.owner, state: self.state, request: self.request@ }
    }
}

impl QuerySession {
    /// An idle session against the connection of `owner`.
    pub fn new(owner: Credentials) -> (session: QuerySession)
        ensures
            session@ == (SessionView {
                owner,
                state: SessionState::Idle,
                request: Seq::<char>::empty(),
            }),
    {
        proof {
            reveal_strlit("");
        }
        let request = PackageId::from("");
        assert(request@ =~= Seq::<char>::empty());
        QuerySession { owner, state: SessionState::Idle, request }
    }

    /// The connection that the session talks to.
    pub fn owner(&self) -> (owner: Credentials)
        ensures
            owner == self@.owner,
    {
        self.owner
    }

    /// Where the session stands.
    pub fn state(&self) -> (state: SessionState)
        ensures
            state == self@.state,
    {
        self.state
    }

    /// The identifier of the search that was sent.
    pub fn request(&self) -> (request: PackageId)
        ensures
            request@ == self@.request,
    {
        self.request.clone()
    }

    /// Opens the round with the two given identifiers: an idle session hands
    /// back `Abort` under `abort_id` and `GetData(text)` under `request_id`, in
    /// the order in which they are to be sent, and awaits the acknowledgement
    /// of `request_id`. Any other session stays as it is and sends nothing.
    pub fn start_with(&mut self, text: &str, abort_id: PackageId, request_id: PackageId) -> (sent:
        Option<(Package, Package)>)
        ensures
            old(self)@.state == SessionState::Idle ==> ({
                &&& sent matches Some(pair)
                &&& pair.0@ == (PackageView {
                    id: abort_id@,
                    payload: PayloadView::Command(CommandView::Abort),
                })
                &&& pair.1@ == (PackageView {
                    id: request_id@,
                    payload: PayloadView::Command(CommandView::GetData(text@)),
                })
                &&& final(self)@ == (SessionView {
                    state: SessionState::AwaitingAck,
                    request: request_id@,
                    ..old(self)@
                })
            }),
            old(self)@.state != SessionState::Idle ==> sent is None && final(self)@ == old(self)@,
    {
        match self.state {
            SessionState::Idle => {
                let abort = Package::with_id(abort_id, Payload::Command(Command::Abort));
                let request = Package::with_id(
                    request_id.clone(),
                    Payload::Command(Command::GetData(text.to_owned())),
                );
                self.state = SessionState::AwaitingAck;
                self.request = request_id;
                Some((abort, request))
            },
            _ => None,
        }
    }

    /// Opens the round under fresh identifiers; see [`QuerySession::start_with`].
    pub fn start(&mut self, text: &str) -> (sent: Option<(Package, Package)>)
        ensures
            old(self)@.state == SessionState::Idle ==> ({
                &&& sent matches Some(pair)
                &&& pair.0@.payload == PayloadView::Command(CommandView::Abort)
                &&& pair.1@.payload == PayloadView::Command(CommandView::GetData(text@))
                &&& is_random_uuid_text(pair.0@.id)
                &&& is_random_uuid_text(pair.1@.id)
                &&& final(self)@ == (SessionView {
                    state: SessionState::AwaitingAck,
                    request: pair.1@.id,
                    ..old(self)@
                })
            }),
            old(self)@.state != SessionState::Idle ==> sent is None && final(self)@ == old(self)@,
    {
        match self.state {
            SessionState::Idle => self.start_with(text, PackageId::new(), PackageId::new()),
            _ => None,
        }
    }

    /// Takes the next message that the connection delivered.
    pub fn receive(&mut self, message: &Package) -> (event: SessionEvent)
        ensures
            (final(self)@, event@) == session_step(old(self)@, message@),
    {
        match self.state {
            SessionState::AwaitingAck => {
                let acknowledged = match message.payload() {
                    Payload::Result(answer) => answer.1.is_ok() && answer.0 == self.request,
                    _ => false,
                };
                if acknowledged {
                    self.state = SessionState::Streaming;
                    SessionEvent::Acknowledged
                } else {
                    SessionEvent::Ignored
                }
            },
            SessionState::Streaming => match message.payload() {
                Payload::Hit(hit) => SessionEvent::Entry {
                    hit: hit.clone(),
                    reply: Payload::Result((message.get_id(), Ok(()))),
                },
                Payload::Command(Command::Abort) => {
                    self.state = SessionState::Done;
                    SessionEvent::Finished
                },
                _ => {
                    self.state = SessionState::Aborted;
                    SessionEvent::Violation
                },
            },
            _ => SessionEvent::Ignored,
        }
    }

    /// Ends the session because its connection failed, unless it is over
    /// already.
    pub fn abort(&mut self)
        ensures
            final(self)@ == session_abort(old(self)@),
    {
        match self.state {
            SessionState::Idle | SessionState::AwaitingAck | SessionState::Streaming => {
                self.state = SessionState::Aborted;
            },
            _ => {},
        }
    }

    /// Gives the session up, unless it is over already.
    pub fn cancel(&mut self)
        ensures
            final(self)@ == session_cancel(old(self)@),
    {
        match self.state {
            SessionState::Idle | SessionState::AwaitingAck | SessionState::Streaming => {
                self.state = SessionState::Cancelled;
            },
            _ => {},
        }
    }
}

} // verus!
