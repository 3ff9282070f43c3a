//! The plugin's side of the protocol: the loop that waits for a command,
//! serves it, and waits again.
//!
//! The loop touches neither the socket nor the plugin's own domain. It takes
//! each package that arrived and says what to do: search, send, perform an
//! activation, or end. Hits are streamed one at a time: the next one is handed
//! out only when the coordinator has acknowledged the one before.

use vstd::prelude::*;
use crate::package::{
    is_random_uuid_text, verdict_view, Command, CommandView, Hit, HitId, HitView, Package,
    PackageId, PackageView, Payload, PayloadView,
};

verus! {

/// Where the loop stands.
#[derive(Debug, Clone, Copy, PartialEq, Eq, Structural)]
pub enum LoopState {
    /// The next command is awaited.
    WaitCommand,
    /// A search was asked for; the plugin is looking for hits.
    Searching,
    /// A hit was sent; its acknowledgement is awaited.
    StreamResults,
    /// An activation was asked for; the plugin is performing it.
    RunActivation,
    /// The loop has ended.
    Terminated,
}

/// The loop of one plugin.
#[derive(Debug)]
pub struct CommandLoop {
    state: LoopState,
    hits: Vec<Hit>,
    cursor: usize,
    request: PackageId,
    pending: PackageId,
}

/// The mathematical value of a [`CommandLoop`].
pub ghost struct LoopView {
    pub state: LoopState,
    /// The hits of the latest search.
    pub hits: Seq<HitView>,
    /// The place of the hit whose acknowledgement is awaited.
    pub cursor: nat,
    /// The identifier of the command that is being served.
    pub request: Seq<char>,
    /// The identifier of the package whose acknowledgement is awaited.
    pub pending: Seq<char>,
}

impl LoopView {
    /// While a hit awaits its acknowledgement, there is such a hit.
    pub open spec fn well_formed(self) -> bool {
        self.state == LoopState::StreamResults ==> self.cursor < self.hits.len()
    }
}

/// What the plugin is to do next.
#[derive(Debug)]
pub enum LoopAction {
    /// Nothing to do: read the next package.
    Wait,
    /// Search for this text, then hand the hits to [`CommandLoop::results`].
    Search(String),
    /// Send this package, then read the next one.
    Send(Package),
    /// Perform the activation of the hit at this place, then hand its outcome
    /// to [`CommandLoop::activated`].
    Launch(usize),
    /// End the process.
    Terminate,
    /// The coordinator sent what has no place here: the connection is over.
    Violation,
}

/// The mathematical value of a [`LoopAction`].
pub ghost enum LoopActionView {
    Wait,
    Search(Seq<char>),
    Send(PackageView),
    Launch(nat),
    Terminate,
    Violation,
}

impl View for LoopAction {
    type V = LoopActionView;

    open spec fn view(&self) -> LoopActionView {
        match self {
            LoopAction::Wait => LoopActionView::Wait,
            LoopAction::Search(text) => LoopActionView::Search(text@),
            LoopAction::Send(package) => LoopActionView::Send(package@),
            LoopAction::Launch(place) => LoopActionView::Launch(*place as nat),
            LoopAction::Terminate => LoopActionView::Terminate,
            LoopAction::Violation => LoopActionView::Violation,
        }
    }
}

/// The value of each hit, in order.
pub open spec fn hit_views(hits: Seq<Hit>) -> Seq<HitView> {
    hits.map_values(|hit: Hit| hit@)
}

/// The value of each package, in order.
pub open spec fn package_views(packages: Seq<Package>) -> Seq<PackageView> {
    packages.map_values(|package: Package| package@)
}

/// The first place at or after `from` whose hit has the identifier `id`.
pub open spec fn hit_from(hits: Seq<HitView>, id: Seq<char>, from: int) -> Option<int>
    decreases hits.len() - from,
{
    if from < 0 || from >= hits.len() {
        None
    } else if hits[from].id == id {
        Some(from)
    } else {
        hit_from(hits, id, from + 1)
    }
}

/// The first place whose hit has the identifier `id`.
pub open spec fn hit_place(hits: Seq<HitView>, id: Seq<char>) -> Option<int> {
    hit_from(hits, id, 0)
}

/// What `hit_from` finds lies among the hits.
pub proof fn lemma_hit_from(hits: Seq<HitView>, id: Seq<char>, from: int)
    requires
        0 <= from,
    ensures
        hit_from(hits, id, from) matches Some(at) ==> from <= at < hits.len() && hits[at].id == id,
    decreases hits.len() - from,
{
    if from < hits.len() && hits[from].id != id {
        lemma_hit_from(hits, id, from + 1);
    }
}

/// Whether `message` acknowledges the package `pending`: it answers `Ok`
/// to that very package.
pub open spec fn acknowledges(message: PackageView, pending: Seq<char>) -> bool {
    message.payload == PayloadView::Result(pending, Ok(()))
}

/// What the plugin answers to an `Activate` that names none of its hits.
pub const NO_SUCH_HIT: &'static str = "no hit has this identifier";

/// Whether an action sends a hit.
pub open spec fn sends_hit(action: LoopActionView) -> bool {
    action matches LoopActionView::Send(package) && package.payload is Hit
}

/// The loop after `message` arrived, and what the plugin is to do. A package
/// that goes out carries the identifier `fresh`.
///
/// Waiting for a command: `GetData` starts a search, `Activate` starts the
/// activation of the hit it names, `Abort` does nothing, `Quit` ends the loop.
/// An `Activate` that names no hit of the latest search is answered at once
/// with `Err` and [`NO_SUCH_HIT`], so that the coordinator does not wait in
/// vain. Anything but a command breaks the protocol.
///
/// Waiting for an acknowledgement: only `Ok` for the hit that was sent moves
/// the stream. It hands out the next hit, or `Abort` where there is none
/// left. Any other answer (to another package, or `Err`) is dropped: the
/// same hit stays awaited and nothing goes out. `Abort` ends the stream at
/// once. Anything else breaks the protocol.
///
/// While the plugin searches or performs an activation, and after the loop
/// has ended, nothing is read.
pub open spec fn loop_step(state: LoopView, message: PackageView, fresh: Seq<char>) -> (
    LoopView,
    LoopActionView,
) {
    match state.state {
        LoopState::WaitCommand => match message.payload {
            PayloadView::Command(CommandView::GetData(text)) => (
                LoopView { state: LoopState::Searching, request: message.id, ..state },
                LoopActionView::Search(text),
            ),
            PayloadView::Command(CommandView::Activate(id)) => match hit_place(state.hits, id) {
                Some(place) => (
                    LoopView { state: LoopState::RunActivation, request: message.id, ..state },
                    LoopActionView::Launch(place as nat),
                ),
                None => (
                    state,
                    LoopActionView::Send(
                        PackageView {
                            id: fresh,
                            payload: PayloadView::Result(message.id, Err(NO_SUCH_HIT@)),
                        },
                    ),
                ),
            },
            PayloadView::Command(CommandView::Abort) => (state, LoopActionView::Wait),
            PayloadView::Command(CommandView::Quit) => (
                LoopView { state: LoopState::Terminated, ..state },
                LoopActionView::Terminate,
            ),
            _ => (LoopView { state: LoopState::Terminated, ..state }, LoopActionView::Violation),
        },
        LoopState::StreamResults => match message.payload {
            PayloadView::Result(id, verdict) => if id != state.pending || verdict is Err {
                (state, LoopActionView::Wait)
            } else if state.cursor + 1 < state.hits.len() {
                (
                    LoopView { cursor: (state.cursor + 1) as nat, pending: fresh, ..state },
                    LoopActionView::Send(
                        PackageView {
                            id: fresh,
                            payload: PayloadView::Hit(state.hits[state.cursor as int + 1]),
                        },
                    ),
                )
            } else {
                (
                    LoopView { state: LoopState::WaitCommand, ..state },
                    LoopActionView::Send(
                        PackageView {
                            id: fresh,
                            payload: PayloadView::Command(CommandView::Abort),
                        },
                    ),
                )
            },
            PayloadView::Command(CommandView::Abort) => (
                LoopView { state: LoopState::WaitCommand, ..state },
                LoopActionView::Wait,
            ),
            _ => (LoopView { state: LoopState::Terminated, ..state }, LoopActionView::Violation),
        },
        _ => (state, LoopActionView::Wait),
    }
}

/// The loop after the search came back with `hits`, and what is to be sent,
/// in order: the acknowledgement of the search under `ack`, then the first
/// hit under `first`, or `Abort` under `first` where there is no hit. A loop
/// that is not searching stays as it is and sends nothing.
pub open spec fn results_step(
    state: LoopView,
    hits: Seq<HitView>,
    ack: Seq<char>,
    first: Seq<char>,
) -> (LoopView, Seq<PackageView>) {
    if state.state != LoopState::Searching {
        (state, Seq::empty())
    } else {
        let acknowledgement = PackageView {
            id: ack,
            payload: PayloadView::Result(state.request, Ok(())),
        };
        if hits.len() > 0 {
            (
                LoopView {
                    state: LoopState::StreamResults,
                    hits,
                    cursor: 0,
                    pending: first,
                    ..state
                },
                seq![acknowledgement, PackageView { id: first, payload: PayloadView::Hit(hits[0]) }],
            )
        } else {
            (
                LoopView { state: LoopState::WaitCommand, hits, cursor: 0, ..state },
                seq![
                    acknowledgement,
                    PackageView { id: first, payload: PayloadView::Command(CommandView::Abort) },
                ],
            )
        }
    }
}

/// The loop after an activation ended with `verdict`, and the answer that
/// goes out under `reply`. A loop that performs no activation stays as it is
/// and sends nothing.
pub open spec fn activated_step(
    state: LoopView,
    verdict: Result<(), Seq<char>>,
    reply: Seq<char>,
) -> (LoopView, Option<PackageView>) {
    if state.state != LoopState::RunActivation {
        (state, None)
    } else {
        (
            LoopView { state: LoopState::WaitCommand, ..state },
            Some(PackageView { id: reply, payload: PayloadView::Result(state.request, verdict) }),
        )
    }
}

/// The loop after each of `messages` arrived in turn, and the actions that
/// they led to. The package that answers to the `i`th message carries the
/// `i`th of `fresh`.
pub open spec fn loop_run(state: LoopView, messages: Seq<PackageView>, fresh: Seq<Seq<char>>) -> (
    LoopView,
    Seq<LoopActionView>,
)
    decreases messages.len(),
{
    if messages.len() == 0 || fresh.len() != messages.len() {
        (state, Seq::empty())
    } else {
        let (before, actions) = loop_run(state, messages.drop_last(), fresh.drop_last());
        let (after, action) = loop_step(before, messages.last(), fresh.last());
        (after, actions.push(action))
    }
}

/// A step keeps a well-formed loop well formed.
pub proof fn lemma_step_keeps_well_formed(state: LoopView, message: PackageView, fresh: Seq<char>)
    requires
        state.well_formed(),
    ensures
        loop_step(state, message, fresh).0.well_formed(),
{
}

/// Without the acknowledgement of the hit that was sent, a step hands out no
/// hit, and the stream stays where it is for as long as it lasts. That holds
/// of every package but `Ok` for the awaited hit: of `Err` for it too.
pub proof fn lemma_no_hit_without_acknowledgement(
    state: LoopView,
    message: PackageView,
    fresh: Seq<char>,
)
    requires
        state.state == LoopState::StreamResults,
        !acknowledges(message, state.pending),
    ensures
        !sends_hit(loop_step(state, message, fresh).1),
        loop_step(state, message, fresh).0.state == LoopState::StreamResults ==> loop_step(
            state,
            message,
            fresh,
        ).0 == state,
{
    if let PayloadView::Result(id, Ok(nothing)) = message.payload {
        assert(nothing == ());
    }
}

/// The acknowledgement of the hit that was sent hands out the next hit,
/// exactly one, and none where none is left.
pub proof fn lemma_acknowledgement_sends_next(
    state: LoopView,
    message: PackageView,
    fresh: Seq<char>,
)
    requires
        state.well_formed(),
        state.state == LoopState::StreamResults,
        message.payload == PayloadView::Result(state.pending, Ok(())),
    ensures
        state.cursor + 1 < state.hits.len() ==> loop_step(state, message, fresh) == (
            LoopView { cursor: (state.cursor + 1) as nat, pending: fresh, ..state },
            LoopActionView::Send(
                PackageView { id: fresh, payload: PayloadView::Hit(state.hits[state.cursor as int + 1]) },
            ),
        ),
        state.cursor + 1 >= state.hits.len() ==> !sends_hit(loop_step(state, message, fresh).1)
            && loop_step(state, message, fresh).0.state == LoopState::WaitCommand,
{
}

/// A loop that does not await an acknowledgement hands out no hit, whatever
/// arrives, and does not come to await one.
pub proof fn lemma_no_hit_outside_stream(state: LoopView, message: PackageView, fresh: Seq<char>)
    requires
        state.state != LoopState::StreamResults,
    ensures
        !sends_hit(loop_step(state, message, fresh).1),
        loop_step(state, message, fresh).0.state != LoopState::StreamResults,
{
}

/// As long as the coordinator withholds the acknowledgement of the hit that
/// was sent, the plugin sends no further hit, whatever else arrives (a
/// refusal of that hit too) and however much of it: no hit is lost, and none
/// is sent twice.
pub proof fn lemma_withheld_acknowledgement_blocks(
    state: LoopView,
    messages: Seq<PackageView>,
    fresh: Seq<Seq<char>>,
)
    requires
        state.state == LoopState::StreamResults,
        forall|i: int| 0 <= i < messages.len() ==> !acknowledges(#[trigger] messages[i], state.pending),
    ensures
        forall|i: int|
            0 <= i < loop_run(state, messages, fresh).1.len() ==> !sends_hit(
                #[trigger] loop_run(state, messages, fresh).1[i],
            ),
        loop_run(state, messages, fresh).0.state == LoopState::StreamResults ==> loop_run(
            state,
            messages,
            fresh,
        ).0 == state,
    decreases messages.len(),
{
    if messages.len() == 0 || fresh.len() != messages.len() {
    } else {
        lemma_withheld_acknowledgement_blocks(state, messages.drop_last(), fresh.drop_last());
        let (before, actions) = loop_run(state, messages.drop_last(), fresh.drop_last());
        if before.state == LoopState::StreamResults {
            assert(before == state);
            lemma_no_hit_without_acknowledgement(before, messages.last(), fresh.last());
        } else {
            lemma_no_hit_outside_stream(before, messages.last(), fresh.last());
        }
        let (after, action) = loop_step(before, messages.last(), fresh.last());
        assert forall|i: int| 0 <= i < actions.push(action).len() implies !sends_hit(
            #[trigger] actions.push(action)[i],
        ) by {
            if i < actions.len() {
                assert(actions.push(action)[i] == actions[i]);
            }
        }
    }
}

/// Whether the coordinator acknowledges each hit as it comes: every one of
/// `messages` answers `Ok` to the package that went out before it, the first
/// to the one that the loop awaits.
pub open spec fn acknowledges_in_turn(
    state: LoopView,
    messages: Seq<PackageView>,
    fresh: Seq<Seq<char>>,
) -> bool {
    &&& messages.len() == fresh.len()
    &&& forall|i: int|
        0 <= i < messages.len() ==> (#[trigger] messages[i]).payload == PayloadView::Result(
            if i == 0 {
                state.pending
            } else {
                fresh[i - 1]
            },
            Ok(()),
        )
}

/// Where the coordinator acknowledges each hit as it comes, the hits go out
/// one for each acknowledgement, in their order, none left out and none
/// twice.
pub proof fn lemma_acknowledged_hits_follow_in_order(
    state: LoopView,
    messages: Seq<PackageView>,
    fresh: Seq<Seq<char>>,
)
    requires
        state.state == LoopState::StreamResults,
        acknowledges_in_turn(state, messages, fresh),
        state.cursor + messages.len() < state.hits.len(),
    ensures
        loop_run(state, messages, fresh).0 == (LoopView {
            cursor: state.cursor + messages.len(),
            pending: if messages.len() == 0 {
                state.pending
            } else {
                fresh.last()
            },
            ..state
        }),
        loop_run(state, messages, fresh).1.len() == messages.len(),
        forall|i: int|
            0 <= i < messages.len() ==> #[trigger] loop_run(state, messages, fresh).1[i]
                == LoopActionView::Send(
                PackageView {
                    id: fresh[i],
                    payload: PayloadView::Hit(state.hits[state.cursor + 1 + i]),
                },
            ),
    decreases messages.len(),
{
    if messages.len() > 0 {
        let earlier = messages.drop_last();
        let ids = fresh.drop_last();
        assert forall|i: int| 0 <= i < earlier.len() implies (#[trigger] earlier[i]).payload
            == PayloadView::Result(
            if i == 0 {
                state.pending
            } else {
                ids[i - 1]
            },
            Ok(()),
        ) by {
            assert(earlier[i] == messages[i]);
        }
        lemma_acknowledged_hits_follow_in_order(state, earlier, ids);
        let (before, actions) = loop_run(state, earlier, ids);
        let last = messages.len() - 1;
        assert(messages.last() == messages[last]);
        assert(before.pending == if last == 0 {
            state.pending
        } else {
            fresh[last - 1]
        });
        let (after, action) = loop_step(before, messages.last(), fresh.last());
        assert forall|i: int| 0 <= i < messages.len() implies #[trigger] actions.push(action)[i]
            == LoopActionView::Send(
            PackageView {
                id: fresh[i],
                payload: PayloadView::Hit(state.hits[state.cursor + 1 + i]),
            },
        ) by {
            if i < last {
                assert(actions.push(action)[i] == actions[i]);
                assert(ids[i] == fresh[i]);
            }
        }
    }
}

/// The hits that `actions` send, in order.
pub open spec fn hits_sent(actions: Seq<LoopActionView>) -> Seq<HitView>
    decreases actions.len(),
{
    if actions.len() == 0 {
        Seq::empty()
    } else {
        let earlier = hits_sent(actions.drop_last());
        match actions.last() {
            LoopActionView::Send(package) => match package.payload {
                PayloadView::Hit(hit) => earlier.push(hit),
                _ => earlier,
            },
            _ => earlier,
        }
    }
}

/// Whatever the coordinator sends, acknowledgements and refusals in any mix:
/// the hits that go out are the ones that follow the awaited hit, each once,
/// in their order and without a gap, and the stream stands at the last of
/// them for as long as it lasts. A loop that awaits no acknowledgement sends
/// no hit at all.
pub proof fn lemma_hits_go_out_once_and_in_order(
    state: LoopView,
    messages: Seq<PackageView>,
    fresh: Seq<Seq<char>>,
)
    requires
        state.well_formed(),
    ensures
        ({
            let (after, actions) = loop_run(state, messages, fresh);
            let sent = hits_sent(actions);
            &&& after.well_formed()
            &&& after.hits == state.hits
            &&& state.state != LoopState::StreamResults ==> sent.len() == 0 && after.state
                != LoopState::StreamResults
            &&& state.state == LoopState::StreamResults ==> state.cursor + sent.len()
                < state.hits.len() && sent == state.hits.subrange(
                state.cursor as int + 1,
                state.cursor as int + 1 + sent.len(),
            )
            &&& after.state == LoopState::StreamResults ==> after.cursor == state.cursor
                + sent.len()
        }),
    decreases messages.len(),
{
    if messages.len() == 0 || fresh.len() != messages.len() {
        assert(hits_sent(Seq::<LoopActionView>::empty()).len() == 0);
        if state.state == LoopState::StreamResults {
            assert(hits_sent(Seq::<LoopActionView>::empty()) =~= state.hits.subrange(
                state.cursor as int + 1,
                state.cursor as int + 1,
            ));
        }
    } else {
        lemma_hits_go_out_once_and_in_order(state, messages.drop_last(), fresh.drop_last());
        let (before, actions) = loop_run(state, messages.drop_last(), fresh.drop_last());
        let (after, action) = loop_step(before, messages.last(), fresh.last());
        let earlier = hits_sent(actions);
        let sent = hits_sent(actions.push(action));
        assert(actions.push(action).drop_last() =~= actions);
        lemma_step_keeps_well_formed(before, messages.last(), fresh.last());
        if before.state == LoopState::StreamResults {
            if sends_hit(action) {
                assert(sent == earlier.push(state.hits[before.cursor as int + 1]));
                assert(sent =~= state.hits.subrange(
                    state.cursor as int + 1,
                    state.cursor as int + 1 + sent.len(),
                ));
            } else {
                assert(sent == earlier);
            }
        } else {
            lemma_no_hit_outside_stream(before, messages.last(), fresh.last());
            assert(sent == earlier);
        }
    }
}

/// How many of `messages` answer `Ok` to some package.
pub open spec fn acknowledgements(messages: Seq<PackageView>) -> nat
    decreases messages.len(),
{
    if messages.len() == 0 {
        0
    } else {
        acknowledgements(messages.drop_last()) + if messages.last().payload matches PayloadView::Result(
            _,
            Ok(_),
        ) {
            1nat
        } else {
            0nat
        }
    }
}

/// At every point of a run the plugin has sent no more hits than it has read
/// acknowledgements: with the hit that opens the stream, it is never more
/// than one hit ahead of the coordinator.
pub proof fn lemma_no_more_hits_than_acknowledgements(
    state: LoopView,
    messages: Seq<PackageView>,
    fresh: Seq<Seq<char>>,
)
    ensures
        hits_sent(loop_run(state, messages, fresh).1).len() <= acknowledgements(messages),
    decreases messages.len(),
{
    if messages.len() == 0 || fresh.len() != messages.len() {
    } else {
        lemma_no_more_hits_than_acknowledgements(state, messages.drop_last(), fresh.drop_last());
        let (before, actions) = loop_run(state, messages.drop_last(), fresh.drop_last());
        let (after, action) = loop_step(before, messages.last(), fresh.last());
        assert(actions.push(action).drop_last() =~= actions);
    }
}

impl View for CommandLoop {
    type V = LoopView;

    closed spec fn view(&self) -> LoopView {
        LoopView {
            state: self.state,
            hits: hit_views(self.hits@),
            cursor: self.cursor as nat,
            request: self.request@,
            pending: self.pending@,
        }
    }
}

impl CommandLoop {
    /// A loop that waits for its first command and has no hits.
    pub fn new() -> (r: CommandLoop)
        ensures
            r@.well_formed(),
            r@ == (LoopView {
                state: LoopState::WaitCommand,
                hits: Seq::empty(),
                cursor: 0,
                request: Seq::empty(),
                pending: Seq::empty(),
            }),
    {
        proof {
            reveal_strlit("");
        }
        let request = PackageId::from("");
        let pending = PackageId::from("");
        assert(request@ =~= Seq::<char>::empty());
        assert(pending@ =~= Seq::<char>::empty());
        let r = CommandLoop {
            state: LoopState::WaitCommand,
            hits: Vec::new(),
            cursor: 0,
            request,
            pending,
        };
        assert(r@.hits =~= Seq::empty());
        r
    }

    /// Where the loop stands.
    pub fn state(&self) -> (state: LoopState)
        ensures
            state == self@.state,
    {
        self.state
    }

    /// The hits of the latest search.
    pub fn hits(&self) -> (hits: &Vec<Hit>)
        ensures
            hit_views(hits@) == self@.hits,
            hits@.len() == self@.hits.len(),
    {
        &self.hits
    }

    /// The place of the first hit with the identifier `id`.
    fn place_of(&self, id: &HitId) -> (place: Option<usize>)
        ensures
            match place {
                Some(place) => hit_place(self@.hits, id@) == Some(place as int) && place
                    < self.hits@.len(),
                None => hit_place(self@.hits, id@).is_none(),
            },
    {
        let mut i: usize = 0;
        while i < self.hits.len()
            invariant
                i <= self.hits.len(),
                hit_place(self@.hits, id@) == hit_from(self@.hits, id@, i as int),
            decreases self.hits.len() - i,
        {
            if self.hits[i].id == *id {
                return Some(i);
            }
            i = i + 1;
        }
        None
    }

    /// Takes the next package that the coordinator sent. A package that goes
    /// out in answer carries the identifier `fresh`.
    pub fn receive_with(&mut self, message: &Package, fresh: PackageId) -> (action: LoopAction)
        requires
            old(self)@.well_formed(),
        ensures
            final(self)@.well_formed(),
            (final(self)@, action@) == loop_step(old(self)@, message@, fresh@),
            action matches LoopAction::Launch(place) ==> place < final(self)@.hits.len(),
    {
        proof {
            lemma_step_keeps_well_formed(self@, message@, fresh@);
            if let PayloadView::Command(CommandView::Activate(id)) = message@.payload {
                lemma_hit_from(self@.hits, id, 0);
            }
        }
        match self.state {
            LoopState::WaitCommand => match message.payload() {
                Payload::Command(Command::GetData(text)) => {
                    self.state = LoopState::Searching;
                    self.request = message.get_id();
                    LoopAction::Search(text.clone())
                },
                Payload::Command(Command::Activate(id)) => match self.place_of(id) {
                    Some(place) => {
                        self.state = LoopState::RunActivation;
                        self.request = message.get_id();
                        LoopAction::Launch(place)
                    },
                    None => LoopAction::Send(
                        Package::with_id(
                            fresh,
                            Payload::Result((message.get_id(), Err(NO_SUCH_HIT.to_owned()))),
                        ),
                    ),
                },
                Payload::Command(Command::Abort) => LoopAction::Wait,
                Payload::Command(Command::Quit) => {
                    self.state = LoopState::Terminated;
                    LoopAction::Terminate
                },
                _ => {
                    self.state = LoopState::Terminated;
                    LoopAction::Violation
                },
            },
            LoopState::StreamResults => match message.payload() {
                Payload::Result(answer) => {
                    let total = self.hits.len();
                    assert(self.cursor < total) by {
                        assert(self@.cursor < self@.hits.len());
                    }
                    if !(answer.0 == self.pending) || answer.1.is_err() {
                        LoopAction::Wait
                    } else if self.cursor + 1 < total {
                        self.cursor = self.cursor + 1;
                        let hit = self.hits[self.cursor].clone();
                        self.pending = fresh.clone();
                        LoopAction::Send(Package::with_id(fresh, Payload::Hit(hit)))
                    } else {
                        self.state = LoopState::WaitCommand;
                        LoopAction::Send(Package::with_id(fresh, Payload::Command(Command::Abort)))
                    }
                },
                Payload::Command(Command::Abort) => {
                    self.state = LoopState::WaitCommand;
                    LoopAction::Wait
                },
                _ => {
                    self.state = LoopState::Terminated;
                    LoopAction::Violation
                },
            },
            _ => LoopAction::Wait,
        }
    }

    /// Takes the next package that the coordinator sent; see
    /// [`CommandLoop::receive_with`]. A package that goes out in answer carries
    /// a fresh identifier.
    pub fn receive(&mut self, message: &Package) -> (action: LoopAction)
        requires
            old(self)@.well_formed(),
        ensures
            final(self)@.well_formed(),
            exists|fresh: Seq<char>|
                is_random_uuid_text(fresh) && (final(self)@, action@) == #[trigger] loop_step(
                    old(self)@,
                    message@,
                    fresh,
                ),
            action matches LoopAction::Launch(place) ==> place < final(self)@.hits.len(),
    {
        let fresh = PackageId::new();
        let ghost id = fresh@;
        let action = self.receive_with(message, fresh);
        assert((self@, action@) == loop_step(old(self)@, message@, id));
        action
    }

    /// Takes the hits that the search came back with, and hands back what is
    /// to be sent, in order: the acknowledgement of the search under `ack`,
    /// then the first hit, or `Abort`, under `first`.
    pub fn results_with(&mut self, hits: Vec<Hit>, ack: PackageId, first: PackageId) -> (sent: Vec<
        Package,
    >)
        requires
            old(self)@.well_formed(),
        ensures
            final(self)@.well_formed(),
            (final(self)@, package_views(sent@)) == results_step(
                old(self)@,
                hit_views(hits@),
                ack@,
                first@,
            ),
            sent@.len() == if old(self)@.state == LoopState::Searching {
                2nat
            } else {
                0nat
            },
    {
        let mut sent: Vec<Package> = Vec::new();
        match self.state {
            LoopState::Searching => {
                sent.push(Package::with_id(ack, Payload::Result((self.request.clone(), Ok(())))));
                if hits.len() > 0 {
                    let hit = hits[0].clone();
                    self.pending = first.clone();
                    self.state = LoopState::StreamResults;
                    sent.push(Package::with_id(first, Payload::Hit(hit)));
                } else {
                    self.state = LoopState::WaitCommand;
                    sent.push(Package::with_id(first, Payload::Command(Command::Abort)));
                }
                self.hits = hits;
                self.cursor = 0;
                assert(package_views(sent@) =~= results_step(
                    old(self)@,
                    hit_views(hits@),
                    ack@,
                    first@,
                ).1);
            },
            _ => {
                assert(package_views(sent@) =~= Seq::empty());
            },
        }
        sent
    }

    /// Takes the hits that the search came back with; see
    /// [`CommandLoop::results_with`]. The packages carry fresh identifiers.
    pub fn results(&mut self, hits: Vec<Hit>) -> (sent: Vec<Package>)
        requires
            old(self)@.well_formed(),
        ensures
            final(self)@.well_formed(),
            exists|ack: Seq<char>, first: Seq<char>|
                is_random_uuid_text(ack) && is_random_uuid_text(first) && (
                final(self)@,
                package_views(sent@),
            ) == #[trigger] results_step(old(self)@, hit_views(hits@), ack, first),
            sent@.len() == if old(self)@.state == LoopState::Searching {
                2nat
            } else {
                0nat
            },
    {
        let ack = PackageId::new();
        let first = PackageId::new();
        let ghost ids = (ack@, first@);
        let ghost found = hit_views(hits@);
        let sent = self.results_with(hits, ack, first);
        assert((self@, package_views(sent@)) == results_step(old(self)@, found, ids.0, ids.1));
        sent
    }

    /// Takes the outcome of the activation, and hands back the answer that
    /// goes to the coordinator under `reply`.
    pub fn activated_with(&mut self, verdict: Result<(), String>, reply: PackageId) -> (sent:
        Option<Package>)
        requires
            old(self)@.well_formed(),
        ensures
            final(self)@.well_formed(),
            (final(self)@, reply_view(sent)) == activated_step(
                old(self)@,
                verdict_view(verdict),
                reply@,
            ),
    {
        match self.state {
            LoopState::RunActivation => {
                self.state = LoopState::WaitCommand;
                Some(Package::with_id(reply, Payload::Result((self.request.clone(), verdict))))
            },
            _ => None,
        }
    }

    /// Takes the outcome of the activation; see
    /// [`CommandLoop::activated_with`]. The answer carries a fresh identifier.
    pub fn activated(&mut self, verdict: Result<(), String>) -> (sent: Option<Package>)
        requires
            old(self)@.well_formed(),
        ensures
            final(self)@.well_formed(),
            exists|reply: Seq<char>|
                is_random_uuid_text(reply) && (final(self)@, reply_view(sent))
                    == #[trigger] activated_step(old(self)@, verdict_view(verdict), reply),
    {
        let reply = PackageId::new();
        let ghost id = reply@;
        let ghost outcome = verdict_view(verdict);
        let sent = self.activated_with(verdict, reply);
        assert((self@, reply_view(sent)) == activated_step(old(self)@, outcome, id));
        sent
    }
}

/// Whether a search for `text` is to give everything that the plugin has:
/// the empty text asks for the full listing.
pub fn wants_all(text: &str) -> (all: bool)
    ensures
        all == (text@.len() == 0),
{
    text.unicode_len() == 0
}

/// The value of an optional package.
pub open spec fn reply_view(sent: Option<Package>) -> Option<PackageView> {
    match sent {
        Some(package) => Some(package@),
        None => None,
    }
}

} // verus!
