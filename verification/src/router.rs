//! The router: decides for each frame where it goes.
//!
//! A request goes to the subsystem that serves the prefix of its call, or to the
//! handler registered for the call. Its responses go to every subscriber, until
//! one of them ends the stream or the request is cancelled.
use crate::backpressure::StreamController;
use crate::channel::Handing;
use crate::channel::Ledger;
use crate::channel::TrySend;
use crate::error::KernelError;
use crate::frame::Frame;
use crate::frame::FrameId;
use crate::frame::FrameView;
use crate::frame::Status;
use crate::sigcall::Handler;
use crate::sigcall::SigcallRegistry;
use crate::stamp::Draws;
use crate::table::NameTable;
use crate::tokens::TokenTable;
use crate::tokens::Tokens;
use crate::value::Data;
use crate::value::Json;
use crate::value::Value;
use std::collections::HashMap;
use std::collections::HashSet;
use tokio::sync::mpsc;
use tokio_util::sync::CancellationToken;
use vstd::prelude::*;
use vstd::string::StringExecFns;

verus! {

broadcast use vstd::std_specs::hash::group_hash_axioms;

/// A request that was handed to a subsystem and may still be cancelled.
pub struct ActiveEntry {
    /// Where the request went.
    pub subsystem_tx: mpsc::Sender<Frame>,
    /// Triggered when the request is cancelled.
    pub cancel: CancellationToken,
    /// Which token table knows the request.
    pub hook: Option<usize>,
}

/// What the router knows.
#[verifier::ext_equal]
pub struct Routing {
    /// The subsystems by the prefix that they serve.
    pub routes: Map<Seq<char>, mpsc::Sender<Frame>>,
    /// The token tables of the subsystems that keep one, by prefix.
    pub hooks: Map<Seq<char>, usize>,
    /// The handlers by the call that they serve.
    pub registry: Map<Seq<char>, Handler>,
    /// How many subscribers there are.
    pub subscribers: nat,
    /// The requests whose responses go to the subscribers.
    pub pending: Set<FrameId>,
    /// The requests that can be cancelled.
    pub active: Map<FrameId, ActiveEntry>,
    /// The token tables.
    pub tokens: Seq<Tokens>,
    /// What the router has done at once about cancel frames, in order.
    pub record: Seq<Handing>,
    /// The identifiers that were drawn for the answers of the kernel itself.
    pub drawn: Seq<FrameId>,
}

/// What each of some token tables holds.
pub open spec fn tables_view(tables: Seq<TokenTable>) -> Seq<Tokens> {
    tables.map_values(|table: TokenTable| table@)
}

/// The runtime of a kernel.
pub struct Router {
    routes: NameTable<mpsc::Sender<Frame>>,
    cancel_hooks: NameTable<usize>,
    tokens: Vec<TokenTable>,
    subscribers: Vec<StreamController>,
    sigcalls: SigcallRegistry,
    pending: HashSet<FrameId>,
    active: HashMap<FrameId, ActiveEntry>,
    ledger: Ledger,
    draws: Draws,
}

impl View for Router {
    type V = Routing;

    closed spec fn view(&self) -> Routing {
        Routing {
            routes: self.routes@,
            hooks: self.cancel_hooks@,
            registry: self.sigcalls@,
            subscribers: self.subscribers@.len(),
            pending: self.pending@,
            active: self.active@,
            tokens: tables_view(self.tokens@),
            record: self.ledger@,
            drawn: self.draws@,
        }
    }
}

/// Something that is left to do about a frame.
pub enum Action {
    /// Send the frame to a subscriber, through its controller.
    Deliver { subscriber: usize, frame: Frame },
    /// Send the frame to a subsystem, and wait until it has room.
    Forward { to: mpsc::Sender<Frame>, frame: Frame },
}

/// What an action holds.
pub enum ActionView {
    Deliver { subscriber: int, frame: FrameView },
    Forward { to: mpsc::Sender<Frame>, frame: FrameView },
}

impl View for Action {
    type V = ActionView;

    open spec fn view(&self) -> ActionView {
        match self {
            Action::Deliver { subscriber, frame } => ActionView::Deliver {
                subscriber: *subscriber as int,
                frame: frame@,
            },
            Action::Forward { to, frame } => ActionView::Forward { to: *to, frame: frame@ },
        }
    }
}

/// What actions hold.
pub open spec fn actions_view(actions: Seq<Action>) -> Seq<ActionView> {
    actions.map_values(|action: Action| action@)
}

/// `frame` goes to each of the first `subscribers` subscribers, in order.
pub open spec fn delivery(frame: FrameView, subscribers: nat) -> Seq<ActionView> {
    Seq::new(subscribers, |i: int| ActionView::Deliver { subscriber: i, frame })
}

/// Each of `frames` goes to each of the first `subscribers` subscribers: one
/// frame after the other.
pub open spec fn deliveries(frames: Seq<FrameView>, subscribers: nat) -> Seq<ActionView>
    decreases frames.len(),
{
    if frames.len() == 0 {
        seq![]
    } else {
        deliveries(frames.drop_last(), subscribers) + delivery(frames.last(), subscribers)
    }
}

// ---- What the router decides ----

/// The request is one to the kernel itself, about the registry of handlers.
pub open spec fn is_management(call: Seq<char>) -> bool {
    crate::text::before_separator(call) == "sigcall"@
}

impl Routing {
    /// Only requests that can be cancelled have responses to wait for, and the
    /// token tables that subsystems and active requests refer to are there.
    pub open spec fn consistent(self) -> bool {
        &&& self.pending.subset_of(self.active.dom())
        &&& forall|prefix: Seq<char>| #[trigger]
            self.hooks.contains_key(prefix) ==> self.hooks[prefix] < self.tokens.len()
        &&& forall|id: FrameId| #[trigger]
            self.active.contains_key(id) ==> match self.active[id].hook {
                Some(hook) => hook < self.tokens.len(),
                None => true,
            }
    }

    /// Where a request for `call` goes: to the subsystem of its prefix, else to
    /// the handler registered for the call.
    pub open spec fn destination(self, call: Seq<char>) -> Option<mpsc::Sender<Frame>> {
        if self.routes.contains_key(crate::text::before_separator(call)) {
            Some(self.routes[crate::text::before_separator(call)])
        } else if self.registry.contains_key(call) {
            Some(self.registry[call].tx)
        } else {
            None
        }
    }

    /// The token table that knows the requests for `call`.
    pub open spec fn hook_of(self, call: Seq<char>) -> Option<usize> {
        if self.hooks.contains_key(crate::text::before_separator(call)) {
            Some(self.hooks[crate::text::before_separator(call)])
        } else {
            None
        }
    }

    /// After a request was handed to a subsystem.
    pub open spec fn begun(self, id: FrameId, entry: ActiveEntry) -> Routing {
        Routing { pending: self.pending.insert(id), active: self.active.insert(id, entry), ..self }
    }

    /// After the last response to a request.
    pub open spec fn ended(self, id: FrameId) -> Routing {
        Routing { pending: self.pending.remove(id), active: self.active.remove(id), ..self }
    }

    /// The token table that knows the active request `id`.
    pub open spec fn active_hook(self, id: FrameId) -> Option<usize> {
        if self.active.contains_key(id) {
            self.active[id].hook
        } else {
            None
        }
    }

    /// After a request was cancelled.
    pub open spec fn cancelled(self, id: FrameId) -> Routing {
        Routing {
            tokens: match self.active_hook(id) {
                Some(hook) => self.tokens.update(
                    hook as int,
                    self.tokens[hook as int].cancelled(id),
                ),
                None => self.tokens,
            },
            ..self.ended(id)
        }
    }

    /// The subscribers wait for `frame`.
    pub open spec fn awaits(self, frame: FrameView) -> bool {
        frame.parent_id is Some && self.pending.contains(frame.parent_id->0)
    }

    /// After a response was handed to the subscribers.
    pub open spec fn responded(self, frame: FrameView) -> Routing {
        if self.awaits(frame) && frame.status.ends_stream() {
            self.ended(frame.parent_id->0)
        } else {
            self
        }
    }
}

/// The payload of an item that names a handler and its owner.
pub open spec fn handler_data(name: Seq<char>, owner: Seq<char>) -> Map<Seq<char>, Json> {
    map![
        "name"@ => Json::String(name),
        "owner"@ => Json::String(owner),
    ]
}

/// `frames` name the handlers in `list`, one item for each, and then end.
pub open spec fn listing(
    frames: Seq<FrameView>,
    request: FrameView,
    list: Seq<(String, String)>,
) -> bool {
    &&& frames.len() == list.len() + 1
    &&& forall|i: int|
        0 <= i < list.len() ==> crate::frame::is_response(
            #[trigger] frames[i],
            request,
            Status::Item,
            handler_data(list[i].0@, list[i].1@),
        )
    &&& crate::frame::is_response(
        frames.last(),
        request,
        Status::Done,
        crate::value::empty_data(),
    )
}

/// `frames` is the internal error with the given message.
pub open spec fn refusal(
    frames: Seq<FrameView>,
    request: FrameView,
    message: Seq<char>,
) -> bool {
    &&& frames.len() == 1
    &&& crate::frame::is_response(
        frames[0],
        request,
        Status::Error,
        crate::frame::error_data("E_INTERNAL"@, message, false),
    )
}

/// `frames` answer a request about the registry of handlers.
pub open spec fn management_answer(
    frames: Seq<FrameView>,
    request: FrameView,
    registry: Map<Seq<char>, Handler>,
) -> bool {
    let verb = crate::text::after_separator(request.call);
    if verb == "list"@ {
        exists|list: Seq<(String, String)>|
            crate::sigcall::lists(list, registry) && #[trigger] listing(frames, request, list)
    } else if verb == "register"@ || verb == "unregister"@ {
        refusal(
            frames,
            request,
            "sigcall:register and sigcall:unregister must be called through the SigcallRegistry API directly"@,
        )
    } else {
        refusal(frames, request, "unknown sigcall operation: "@ + verb)
    }
}

/// `frame` tells that nobody serves the request.
pub open spec fn is_no_route(frame: FrameView, request: FrameView) -> bool {
    crate::frame::is_response(
        frame,
        request,
        Status::Error,
        crate::frame::error_data(
            "E_NO_ROUTE"@,
            "E_NO_ROUTE"@ + ": "@ + ("no handler for syscall: "@ + request.call),
            false,
        ),
    )
}

/// A request was routed: answered if it is one to the kernel itself or nobody
/// serves it, and otherwise begun and forwarded. Each frame of an answer has an
/// identifier that was drawn for it.
pub open spec fn request_routed(
    before: Routing,
    after: Routing,
    frame: FrameView,
    actions: Seq<ActionView>,
) -> bool {
    if is_management(frame.call) {
        exists|answer: Seq<FrameView>|
            {
                &&& #[trigger] management_answer(answer, frame, before.registry)
                &&& actions == deliveries(answer, before.subscribers)
                &&& after == (Routing {
                    pending: before.pending.remove(frame.id),
                    drawn: before.drawn + crate::frame::frame_ids(answer),
                    ..before
                })
            }
    } else {
        match before.destination(frame.call) {
            Some(to) => {
                &&& exists|cancel: CancellationToken| #[trigger]
                    crate::channel::token_made(cancel) && after == before.begun(
                        frame.id,
                        (ActiveEntry {
                            subsystem_tx: to,
                            cancel,
                            hook: before.hook_of(frame.call),
                        }),
                    )
                &&& actions == seq![ActionView::Forward { to, frame }]
            },
            None => exists|answer: FrameView|
                {
                    &&& #[trigger] is_no_route(answer, frame)
                    &&& actions == delivery(answer, before.subscribers)
                    &&& after == (Routing { drawn: before.drawn.push(answer.id), ..before })
                },
        }
    }
}

/// A response was routed: to all subscribers if they wait for it, and otherwise
/// dropped.
pub open spec fn response_routed(
    before: Routing,
    after: Routing,
    frame: FrameView,
    actions: Seq<ActionView>,
) -> bool {
    &&& after == before.responded(frame)
    &&& actions == (if before.awaits(frame) {
        delivery(frame, before.subscribers)
    } else {
        seq![]
    })
}

/// What is done at once to cancel an active request: its token is triggered, and
/// the frame is handed to its subsystem once.
pub open spec fn cancel_record(
    entry: ActiveEntry,
    frame: FrameView,
    outcome: TrySend,
) -> Seq<Handing> {
    seq![
        Handing::Triggered { token: entry.cancel },
        Handing::Tried { tx: entry.subsystem_tx, frame, outcome },
    ]
}

/// A cancel frame was routed: the request that it names was cancelled, if it is
/// active.
pub open spec fn cancel_routed(before: Routing, after: Routing, frame: FrameView) -> bool {
    match frame.parent_id {
        Some(target) => {
            &&& if before.active.contains_key(target) {
                &&& crate::channel::triggered(before.active[target].cancel)
                &&& exists|outcome: TrySend|
                    {
                        &&& #[trigger] crate::channel::tried(
                            before.active[target].subsystem_tx,
                            frame,
                            outcome,
                        )
                        &&& after == (Routing {
                            record: before.record + cancel_record(
                                before.active[target],
                                frame,
                                outcome,
                            ),
                            ..before.cancelled(target)
                        })
                    }
            } else {
                after == before.cancelled(target)
            }
            &&& before.active_hook(target) matches Some(hook)
                ==> before.tokens[hook as int].live.contains_key(target) ==> crate::channel::triggered(
                before.tokens[hook as int].live[target],
            )
        },
        None => after == before,
    }
}

/// A frame was routed.
pub open spec fn routed(
    before: Routing,
    after: Routing,
    frame: FrameView,
    actions: Seq<ActionView>,
) -> bool {
    match frame.status {
        Status::Request => request_routed(before, after, frame, actions),
        Status::Cancel => cancel_routed(before, after, frame) && actions.len() == 0,
        _ => response_routed(before, after, frame, actions),
    }
}

// ---- Routing ----

/// Adds the delivery of `frame` to each of `count` subscribers.
fn push_delivery(actions: &mut Vec<Action>, frame: &Frame, count: usize)
    ensures
        actions_view(final(actions)@) == actions_view(old(actions)@) + delivery(
            frame@,
            count as nat,
        ),
{
    let ghost before = actions_view(actions@);
    for i in 0..count
        invariant
            actions_view(actions@) == before + delivery(frame@, i as nat),
    {
        let action = Action::Deliver { subscriber: i, frame: frame.clone() };
        let ghost earlier = actions@;
        actions.push(action);
        assert(actions_view(actions@) =~= actions_view(earlier).push(action@));
        assert(before + delivery(frame@, (i + 1) as nat) =~= (before + delivery(
            frame@,
            i as nat,
        )).push(action@));
    }
}

/// The delivery of each of `frames` to each of `count` subscribers.
fn deliver_all(frames: &Vec<Frame>, count: usize) -> (actions: Vec<Action>)
    ensures
        actions_view(actions@) == deliveries(
            crate::pipe::frames_view(frames@),
            count as nat,
        ),
{
    let mut actions: Vec<Action> = Vec::new();
    let ghost all = crate::pipe::frames_view(frames@);
    assert(all.take(0) =~= Seq::<FrameView>::empty());
    let mut i: usize = 0;
    while i < frames.len()
        invariant
            i <= frames@.len(),
            all == crate::pipe::frames_view(frames@),
            actions_view(actions@) == deliveries(all.take(i as int), count as nat),
        decreases frames@.len() - i,
    {
        push_delivery(&mut actions, &frames[i], count);
        assert(all.take(i + 1).drop_last() =~= all.take(i as int));
        assert(all.take(i + 1).last() == frames@[i as int]@);
        i += 1;
    }
    assert(all.take(frames@.len() as int) =~= all);
    actions
}

/// Answers a request about the registry of handlers.
///
/// The handlers can be listed. To register and unregister them is refused, since
/// a frame cannot carry the sender that registering takes.
///
/// Each frame of the answer has an identifier that is drawn for it, and entered in
/// `draws`.
pub fn answer_management(sigcalls: &SigcallRegistry, frame: &Frame, draws: &mut Draws) -> (answer:
    Vec<Frame>)
    ensures
        management_answer(crate::pipe::frames_view(answer@), frame@, sigcalls@),
        final(draws)@ == old(draws)@ + crate::frame::frame_ids(
            crate::pipe::frames_view(answer@),
        ),
{
    let verb = frame.verb();
    if crate::text::str_eq(verb, "list") {
        let list = sigcalls.list();
        let mut answer: Vec<Frame> = Vec::new();
        let mut i: usize = 0;
        assert(draws@ =~= old(draws)@ + crate::frame::frame_ids(
            crate::pipe::frames_view(answer@),
        ));
        while i < list.len()
            invariant
                i <= list@.len(),
                answer@.len() == i,
                draws@ == old(draws)@ + crate::frame::frame_ids(
                    crate::pipe::frames_view(answer@),
                ),
                forall|j: int|
                    0 <= j < i ==> crate::frame::is_response(
                        (#[trigger] answer@[j])@,
                        frame@,
                        Status::Item,
                        handler_data(list@[j].0@, list@[j].1@),
                    ),
            decreases list@.len() - i,
        {
            let mut data: Data = Data::new();
            data.insert("name".to_owned(), Value::String(list[i].0.clone()));
            data.insert("owner".to_owned(), Value::String(list[i].1.clone()));
            assert(crate::value::data_view(data@) =~= handler_data(
                list@[i as int].0@,
                list@[i as int].1@,
            ));
            let item = frame.draw_response(draws, Status::Item, data);
            answer.push(item);
            assert(draws@ =~= old(draws)@ + crate::frame::frame_ids(
                crate::pipe::frames_view(answer@),
            ));
            i += 1;
        }
        let done = frame.draw_response(draws, Status::Done, crate::value::no_data());
        answer.push(done);
        assert(draws@ =~= old(draws)@ + crate::frame::frame_ids(
            crate::pipe::frames_view(answer@),
        ));
        assert(listing(crate::pipe::frames_view(answer@), frame@, list@));
        answer
    } else {
        let mut message: String = "unknown sigcall operation: ".to_owned();
        if crate::text::str_eq(verb, "register") || crate::text::str_eq(verb, "unregister") {
            message =
            "sigcall:register and sigcall:unregister must be called through the SigcallRegistry API directly".to_owned();
        } else {
            message.append(verb);
        }
        let mut answer: Vec<Frame> = Vec::new();
        let data = crate::frame::make_error_data("E_INTERNAL", message, false);
        let refused = frame.draw_response(draws, Status::Error, data);
        answer.push(refused);
        assert(draws@ =~= old(draws)@ + crate::frame::frame_ids(
            crate::pipe::frames_view(answer@),
        ));
        answer
    }
}

/// The answer to a request that nobody serves.
fn no_route(frame: &Frame, draws: &mut Draws) -> (answer: Frame)
    ensures
        is_no_route(answer@, frame@),
        final(draws)@ == old(draws)@.push(answer@.id),
{
    let mut message: String = "no handler for syscall: ".to_owned();
    message.append(frame.call.as_str());
    let err = KernelError::no_route(message.as_str());
    frame.draw_error_from(draws, &err)
}

impl Router {
    /// The controllers of the subscribers.
    pub closed spec fn controllers(self) -> Seq<StreamController> {
        self.subscribers@
    }

    /// Decides where a request goes, or answers it.
    fn route_request(&mut self, frame: &Frame) -> (actions: Vec<Action>)
        requires
            old(self)@.consistent(),
        ensures
            final(self)@.consistent(),
            final(self).controllers() == old(self).controllers(),
            request_routed(old(self)@, final(self)@, frame@, actions_view(actions@)),
    {
        let count = self.subscribers.len();
        let prefix = frame.prefix();
        if crate::text::str_eq(prefix, "sigcall") {
            let answer = answer_management(&self.sigcalls, frame, &mut self.draws);
            self.pending.remove(&frame.id);
            return deliver_all(&answer, count);
        }
        let subsystem_tx = match self.routes.get(prefix) {
            Some(tx) => Some(tx.clone()),
            None => self.sigcalls.lookup(frame.call.as_str()),
        };
        match subsystem_tx {
            None => {
                let answer = no_route(frame, &mut self.draws);
                let mut actions: Vec<Action> = Vec::new();
                push_delivery(&mut actions, &answer, count);
                assert(actions_view(actions@) =~= delivery(answer@, count as nat));
                actions
            },
            Some(to) => {
                let cancel = CancellationToken::new();
                let hook = match self.cancel_hooks.get(prefix) {
                    Some(hook) => Some(*hook),
                    None => None,
                };
                self.pending.insert(frame.id);
                let entry = ActiveEntry { subsystem_tx: to.clone(), cancel, hook };
                self.active.insert(frame.id, entry);
                let mut actions: Vec<Action> = Vec::new();
                actions.push(Action::Forward { to, frame: frame.clone() });
                proof {
                    assert(crate::channel::token_made(cancel));
                    assert(self@ =~= old(self)@.begun(frame@.id, entry));
                    assert(actions_view(actions@) =~= seq![
                        ActionView::Forward { to, frame: frame@ },
                    ]);
                }
                actions
            },
        }
    }

    /// Decides where a response goes.
    fn route_response(&mut self, frame: &Frame) -> (actions: Vec<Action>)
        requires
            old(self)@.consistent(),
        ensures
            final(self)@.consistent(),
            final(self).controllers() == old(self).controllers(),
            response_routed(old(self)@, final(self)@, frame@, actions_view(actions@)),
    {
        let mut actions: Vec<Action> = Vec::new();
        assert(actions_view(actions@) =~= seq![]);
        if let Some(parent) = frame.parent_id {
            if self.pending.contains(&parent) {
                push_delivery(&mut actions, frame, self.subscribers.len());
                assert(actions_view(actions@) =~= delivery(frame@, self@.subscribers));
                if frame.status.is_terminal() {
                    self.pending.remove(&parent);
                    self.active.remove(&parent);
                }
            }
        }
        assert(self@ =~= old(self)@.responded(frame@));
        actions
    }

    /// Cancels the request that `frame` names: triggers its tokens, and passes
    /// the frame on to the subsystem if that has room.
    fn route_cancel(&mut self, frame: &Frame)
        requires
            old(self)@.consistent(),
        ensures
            final(self)@.consistent(),
            final(self).controllers() == old(self).controllers(),
            cancel_routed(old(self)@, final(self)@, frame@),
    {
        if let Some(target) = frame.parent_id {
            if let Some(entry) = self.active.remove(&target) {
                self.ledger.cancel(&entry.cancel);
                if let Some(hook) = entry.hook {
                    self.tokens[hook].cancel(target);
                }
                let outcome = self.ledger.try_send(&entry.subsystem_tx, frame.clone());
                self.pending.remove(&target);
                assert(self@ =~= (Routing {
                    record: old(self)@.record + cancel_record(entry, frame@, outcome),
                    ..old(self)@.cancelled(target)
                }));
            } else {
                self.pending.remove(&target);
                assert(self@ =~= old(self)@.cancelled(target));
            }
        }
    }

    /// Decides what to do about a frame that has arrived.
    ///
    /// The actions are to be taken in order, before the next frame is routed.
    /// What is left of cancelling is done at once.
    pub fn route(&mut self, frame: &Frame) -> (actions: Vec<Action>)
        requires
            old(self)@.consistent(),
        ensures
            final(self)@.consistent(),
            final(self).controllers() == old(self).controllers(),
            routed(old(self)@, final(self)@, frame@, actions_view(actions@)),
    {
        match frame.status {
            Status::Request => self.route_request(frame),
            Status::Cancel => {
                self.route_cancel(frame);
                Vec::new()
            },
            _ => self.route_response(frame),
        }
    }

    /// A router that has routed nothing yet.
    pub fn new(
        routes: NameTable<mpsc::Sender<Frame>>,
        cancel_hooks: NameTable<usize>,
        tokens: Vec<TokenTable>,
        subscribers: Vec<StreamController>,
        sigcalls: SigcallRegistry,
    ) -> (router: Self)
        requires
            forall|name: Seq<char>| #[trigger]
                cancel_hooks@.contains_key(name) ==> cancel_hooks@[name] < tokens@.len(),
        ensures
            router@.consistent(),
            router.controllers() == subscribers@,
            router@ == (Routing {
                routes: routes@,
                hooks: cancel_hooks@,
                registry: sigcalls@,
                subscribers: subscribers@.len(),
                pending: Set::empty(),
                active: Map::empty(),
                tokens: tables_view(tokens@),
                record: Seq::empty(),
                drawn: Seq::empty(),
            }),
    {
        Router {
            routes,
            cancel_hooks,
            tokens,
            subscribers,
            sigcalls,
            pending: HashSet::new(),
            active: HashMap::new(),
            ledger: Ledger::new(),
            draws: Draws::new(),
        }
    }

    /// Ends routing: lets go of all that frames were sent to, so that the other
    /// ends learn that no more come. The registry and the token tables stay, for
    /// those who still hold on to them.
    #[must_use]
    pub fn shut_down(self) -> (halted: Router)
        ensures
            halted@ == (Routing {
                routes: Map::empty(),
                hooks: Map::empty(),
                subscribers: 0,
                pending: Set::empty(),
                active: Map::empty(),
                record: Seq::empty(),
                drawn: Seq::empty(),
                ..self@
            }),
            halted@.consistent(),
            halted.controllers() == Seq::<StreamController>::empty(),
    {
        Router::new(NameTable::new(), NameTable::new(), self.tokens, Vec::new(), self.sigcalls)
    }

    /// How many subscribers there are.
    #[must_use]
    pub fn subscribers(&self) -> (count: usize)
        ensures
            count == self@.subscribers,
            count == self.controllers().len(),
    {
        self.subscribers.len()
    }

    /// The controller of a subscriber.
    pub fn controller(&mut self, subscriber: usize) -> (controller: &mut StreamController)
        requires
            subscriber < old(self)@.subscribers,
        ensures
            *controller == old(self).controllers()[subscriber as int],
            final(self).controllers() == old(self).controllers().update(
                subscriber as int,
                *final(controller),
            ),
            final(self)@ == old(self)@,
    {
        &mut self.subscribers[subscriber]
    }

    /// The registry of handlers.
    pub fn sigcalls(&mut self) -> (sigcalls: &mut SigcallRegistry)
        ensures
            sigcalls@ == old(self)@.registry,
            final(self)@ == (Routing { registry: final(sigcalls)@, ..old(self)@ }),
            final(self).controllers() == old(self).controllers(),
    {
        &mut self.sigcalls
    }

    /// A token table.
    pub fn token_table(&mut self, hook: usize) -> (table: &mut TokenTable)
        requires
            hook < old(self)@.tokens.len(),
        ensures
            table@ == old(self)@.tokens[hook as int],
            final(self)@ == (Routing {
                tokens: old(self)@.tokens.update(hook as int, final(table)@),
                ..old(self)@
            }),
            final(self).controllers() == old(self).controllers(),
    {
        &mut self.tokens[hook]
    }
}

// ---- Laws ----

/// The request that `frame` is about: a request is about itself, any other frame
/// about the request that it names.
pub open spec fn subject(frame: FrameView) -> Option<FrameId> {
    if frame.status == Status::Request {
        Some(frame.id)
    } else {
        frame.parent_id
    }
}

/// Routing changes neither the subsystems, nor their token tables, nor the
/// registered handlers, nor the subscribers, and keeps what the router knows
/// consistent.
pub proof fn law_setup_is_fixed(
    before: Routing,
    after: Routing,
    frame: FrameView,
    actions: Seq<ActionView>,
)
    requires
        before.consistent(),
        routed(before, after, frame, actions),
    ensures
        after.routes == before.routes,
        after.hooks == before.hooks,
        after.registry == before.registry,
        after.subscribers == before.subscribers,
        after.tokens.len() == before.tokens.len(),
        after.consistent(),
{
}

/// Routing a frame leaves all requests alone that it is not about.
pub proof fn law_other_requests_untouched(
    before: Routing,
    after: Routing,
    frame: FrameView,
    actions: Seq<ActionView>,
    other: FrameId,
)
    requires
        before.consistent(),
        routed(before, after, frame, actions),
        subject(frame) != Some(other),
    ensures
        after.pending.contains(other) == before.pending.contains(other),
        after.active.contains_key(other) == before.active.contains_key(other),
        before.active.contains_key(other) ==> after.active[other] == before.active[other],
        forall|i: int| #![trigger after.tokens[i]]
            0 <= i < before.tokens.len() && before.tokens[i].live.contains_key(other)
                ==> after.tokens[i].live.contains_key(other) && after.tokens[i].live[other]
                == before.tokens[i].live[other],
{
}

/// A subsystem takes precedence over a handler registered for the call.
pub proof fn law_subsystems_come_first(routing: Routing, call: Seq<char>)
    requires
        routing.routes.contains_key(crate::text::before_separator(call)),
    ensures
        routing.destination(call) == Some(
            routing.routes[crate::text::before_separator(call)],
        ),
{
}

/// A handler gets the requests for exactly the call that it is registered for,
/// if no subsystem serves the prefix.
pub proof fn law_handlers_serve_exact_calls(routing: Routing, call: Seq<char>)
    requires
        !routing.routes.contains_key(crate::text::before_separator(call)),
    ensures
        routing.destination(call) is Some <==> routing.registry.contains_key(call),
        routing.registry.contains_key(call) ==> routing.destination(call) == Some(
            routing.registry[call].tx,
        ),
{
}

/// Every action of delivering frames delivers one of them.
proof fn lemma_deliveries_deliver(frames: Seq<FrameView>, subscribers: nat, i: int)
    requires
        0 <= i < deliveries(frames, subscribers).len(),
    ensures
        deliveries(frames, subscribers)[i] is Deliver,
        frames.contains(deliveries(frames, subscribers)[i]->Deliver_frame),
    decreases frames.len(),
{
    if frames.len() > 0 {
        let front = deliveries(frames.drop_last(), subscribers);
        if i < front.len() {
            lemma_deliveries_deliver(frames.drop_last(), subscribers, i);
            let frame = front[i]->Deliver_frame;
            let j = choose|j: int|
                0 <= j < frames.drop_last().len() && frames.drop_last()[j] == frame;
            assert(frames[j] == frame);
        } else {
            assert(frames[frames.len() - 1] == frames.last());
        }
    }
}

/// A request to the kernel itself goes to no subsystem and to no handler, whatever
/// is registered. Its answer goes to the subscribers.
pub proof fn law_management_is_not_forwarded(
    before: Routing,
    after: Routing,
    frame: FrameView,
    actions: Seq<ActionView>,
)
    requires
        routed(before, after, frame, actions),
        frame.status == Status::Request,
        is_management(frame.call),
    ensures
        forall|i: int| 0 <= i < actions.len() ==> (#[trigger] actions[i]) is Deliver,
        after.active == before.active,
{
    let answer = choose|answer: Seq<FrameView>| #[trigger]
        management_answer(answer, frame, before.registry) && actions == deliveries(
            answer,
            before.subscribers,
        );
    assert forall|i: int| 0 <= i < actions.len() implies (#[trigger] actions[i]) is Deliver by {
        lemma_deliveries_deliver(answer, before.subscribers, i);
    }
}

/// The reserved names are those of requests to the kernel itself. So a handler
/// can never be registered for one of them and be passed over.
pub proof fn law_reserved_names_are_management(call: Seq<char>)
    requires
        crate::sigcall::is_reserved(call),
    ensures
        is_management(call),
{
    crate::sigcall::lemma_reserved(call);
}

/// What the kernel itself answers ends with the one frame that ends a stream, and
/// all of it belongs to the request: it names the request and its call, and
/// carries its trace.
pub proof fn law_answers_end_once(
    answer: Seq<FrameView>,
    request: FrameView,
    registry: Map<Seq<char>, Handler>,
)
    requires
        management_answer(answer, request, registry) || (answer.len() == 1 && is_no_route(
            answer[0],
            request,
        )),
    ensures
        answer.len() > 0,
        answer.last().status.ends_stream(),
        crate::pipe::open_ended(answer.drop_last()),
        forall|i: int|
            0 <= i < answer.len() ==> {
                &&& (#[trigger] answer[i]).parent_id == Some(request.id)
                &&& answer[i].call == request.call
                &&& answer[i].trace == request.trace
            },
{
    let verb = crate::text::after_separator(request.call);
    if management_answer(answer, request, registry) && verb == "list"@ {
        let list = choose|list: Seq<(String, String)>|
            crate::sigcall::lists(list, registry) && #[trigger] listing(answer, request, list);
        assert forall|i: int| 0 <= i < answer.len() implies {
            &&& (#[trigger] answer[i]).parent_id == Some(request.id)
            &&& answer[i].call == request.call
            &&& answer[i].trace == request.trace
        } by {
            if i < list.len() {
                assert(crate::frame::is_response(
                    answer[i],
                    request,
                    Status::Item,
                    handler_data(list[i].0@, list[i].1@),
                ));
            } else {
                assert(answer[i] == answer.last());
            }
        }
    }
}

/// The subscribers wait for responses to a request once it was forwarded.
pub proof fn law_forwarded_requests_are_awaited(
    before: Routing,
    after: Routing,
    frame: FrameView,
    actions: Seq<ActionView>,
    response: FrameView,
)
    requires
        routed(before, after, frame, actions),
        frame.status == Status::Request,
        actions.len() > 0,
        actions[0] is Forward,
        response.parent_id == Some(frame.id),
    ensures
        after.awaits(response),
        after.active.contains_key(frame.id),
        actions == seq![
            ActionView::Forward { to: after.active[frame.id].subsystem_tx, frame },
        ],
{
    if is_management(frame.call) {
        law_management_is_not_forwarded(before, after, frame, actions);
    }
}

/// An awaited response goes to each subscriber once, as it is.
pub proof fn law_responses_reach_each_subscriber(
    before: Routing,
    after: Routing,
    response: FrameView,
    actions: Seq<ActionView>,
)
    requires
        routed(before, after, response, actions),
        response.status != Status::Request,
        response.status != Status::Cancel,
        before.awaits(response),
    ensures
        actions.len() == before.subscribers,
        forall|i: int|
            0 <= i < actions.len() ==> (#[trigger] actions[i]) == (ActionView::Deliver {
                subscriber: i,
                frame: response,
            }),
{
}

/// Cancelling a request that is not active does nothing.
pub proof fn law_cancelling_the_inactive_does_nothing(
    before: Routing,
    after: Routing,
    frame: FrameView,
    actions: Seq<ActionView>,
)
    requires
        before.consistent(),
        routed(before, after, frame, actions),
        frame.status == Status::Cancel,
        frame.parent_id matches Some(id) ==> !before.active.contains_key(id),
    ensures
        after == before,
        actions.len() == 0,
{
    assert(after =~= before);
}

// ---- Laws of whole runs ----

/// What else can happen to what the router knows between two frames: handlers
/// are registered and unregistered, and subsystems enter and take out tokens.
pub open spec fn meanwhile(before: Routing, after: Routing) -> bool {
    &&& after == (Routing { registry: after.registry, tokens: after.tokens, ..before })
    &&& after.tokens.len() == before.tokens.len()
}

/// From one frame to the next: the frame is routed, and then other things happen.
pub open spec fn step(
    before: Routing,
    after: Routing,
    frame: FrameView,
    actions: Seq<ActionView>,
) -> bool {
    exists|between: Routing| #[trigger]
        routed(before, between, frame, actions) && meanwhile(between, after)
}

/// `frames` were routed one after the other: `states` are what the router knew
/// when each of them came and at the end, and `actions` what came of each.
pub open spec fn is_run(
    states: Seq<Routing>,
    frames: Seq<FrameView>,
    actions: Seq<Seq<ActionView>>,
) -> bool {
    &&& states.len() == frames.len() + 1
    &&& actions.len() == frames.len()
    &&& states[0].consistent()
    &&& forall|k: int|
        0 <= k < frames.len() ==> #[trigger] step(states[k], states[k + 1], frames[k], actions[k])
}

/// What the router knew right after routing the frame of a step.
spec fn right_after(
    before: Routing,
    after: Routing,
    frame: FrameView,
    actions: Seq<ActionView>,
) -> Routing {
    choose|between: Routing| #[trigger]
        routed(before, between, frame, actions) && meanwhile(between, after)
}

/// What the router knows stays consistent, and the subsystems and subscribers
/// the same, over a whole run.
pub proof fn law_runs_stay_consistent(
    states: Seq<Routing>,
    frames: Seq<FrameView>,
    actions: Seq<Seq<ActionView>>,
    k: int,
)
    requires
        is_run(states, frames, actions),
        0 <= k <= frames.len(),
    ensures
        states[k].consistent(),
        states[k].routes == states[0].routes,
        states[k].hooks == states[0].hooks,
        states[k].subscribers == states[0].subscribers,
    decreases k,
{
    if k > 0 {
        let j = k - 1;
        law_runs_stay_consistent(states, frames, actions, j);
        assert(step(states[j], states[j + 1], frames[j], actions[j]));
        let between = right_after(states[j], states[k], frames[j], actions[j]);
        law_setup_is_fixed(states[j], between, frames[j], actions[j]);
    }
}

/// As long as neither the end of its stream nor its cancellation has come, nor a
/// request under the same id, a pending request stays pending, and every response
/// to it goes to every subscriber.
pub proof fn law_streams_stay_open(
    states: Seq<Routing>,
    frames: Seq<FrameView>,
    actions: Seq<Seq<ActionView>>,
    id: FrameId,
    from: int,
    to: int,
)
    requires
        is_run(states, frames, actions),
        0 <= from <= to <= frames.len(),
        states[from].pending.contains(id),
        forall|k: int|
            from <= k < to && #[trigger] subject(frames[k]) == Some(id) ==> frames[k].status
                != Status::Request && !frames[k].status.ends_stream(),
    ensures
        states[to].pending.contains(id),
        forall|k: int|
            from <= k < to && #[trigger] subject(frames[k]) == Some(id) ==> actions[k] == delivery(
                frames[k],
                states[0].subscribers,
            ),
    decreases to - from,
{
    if from < to {
        let last = to - 1;
        law_streams_stay_open(states, frames, actions, id, from, last);
        law_runs_stay_consistent(states, frames, actions, last);
        assert(step(states[last], states[last + 1], frames[last], actions[last]));
        let between = right_after(states[last], states[to], frames[last], actions[last]);
        if subject(frames[last]) != Some(id) {
            law_other_requests_untouched(states[last], between, frames[last], actions[last], id);
        }
    }
}

/// A request that is not pending stays so until a request comes under its id, and
/// every response to it is dropped until then. If it is not active either, it
/// stays so, too.
pub proof fn law_streams_stay_closed(
    states: Seq<Routing>,
    frames: Seq<FrameView>,
    actions: Seq<Seq<ActionView>>,
    id: FrameId,
    from: int,
    to: int,
)
    requires
        is_run(states, frames, actions),
        0 <= from <= to <= frames.len(),
        !states[from].pending.contains(id),
        forall|k: int|
            from <= k < to && #[trigger] subject(frames[k]) == Some(id) ==> frames[k].status
                != Status::Request,
    ensures
        !states[to].pending.contains(id),
        !states[from].active.contains_key(id) ==> !states[to].active.contains_key(id),
        forall|k: int|
            from <= k < to && #[trigger] subject(frames[k]) == Some(id) ==> actions[k].len() == 0,
    decreases to - from,
{
    if from < to {
        let last = to - 1;
        law_streams_stay_closed(states, frames, actions, id, from, last);
        law_runs_stay_consistent(states, frames, actions, last);
        assert(step(states[last], states[last + 1], frames[last], actions[last]));
        let between = right_after(states[last], states[to], frames[last], actions[last]);
        if subject(frames[last]) != Some(id) {
            law_other_requests_untouched(states[last], between, frames[last], actions[last], id);
        }
    }
}

/// A forwarded request is pending from then on: the next frame finds it so.
pub proof fn law_requests_open_streams(
    states: Seq<Routing>,
    frames: Seq<FrameView>,
    actions: Seq<Seq<ActionView>>,
    at: int,
)
    requires
        is_run(states, frames, actions),
        0 <= at < frames.len(),
        frames[at].status == Status::Request,
        !is_management(frames[at].call),
        states[at].destination(frames[at].call) is Some,
    ensures
        states[at + 1].pending.contains(frames[at].id),
        states[at + 1].active.contains_key(frames[at].id),
        actions[at] == seq![
            ActionView::Forward {
                to: states[at].destination(frames[at].call)->0,
                frame: frames[at],
            },
        ],
{
    assert(step(states[at], states[at + 1], frames[at], actions[at]));
    let between = right_after(states[at], states[at + 1], frames[at], actions[at]);
    assert(routed(states[at], between, frames[at], actions[at]));
}

/// After the end of a stream, and after a request was cancelled, every further
/// response to the request is dropped and cancelling it finds nothing to do,
/// until a request comes under its id.
pub proof fn law_nothing_follows_the_end(
    states: Seq<Routing>,
    frames: Seq<FrameView>,
    actions: Seq<Seq<ActionView>>,
    id: FrameId,
    end: int,
    to: int,
)
    requires
        is_run(states, frames, actions),
        0 <= end < to <= frames.len(),
        frames[end].parent_id == Some(id),
        frames[end].status.ends_stream(),
        frames[end].status == Status::Cancel || states[end].pending.contains(id),
        forall|k: int|
            end < k < to && #[trigger] subject(frames[k]) == Some(id) ==> frames[k].status
                != Status::Request,
    ensures
        !states[to].pending.contains(id),
        !states[to].active.contains_key(id),
        forall|k: int|
            end < k < to && #[trigger] subject(frames[k]) == Some(id) ==> actions[k].len() == 0,
{
    law_runs_stay_consistent(states, frames, actions, end);
    assert(step(states[end], states[end + 1], frames[end], actions[end]));
    let between = right_after(states[end], states[end + 1], frames[end], actions[end]);
    assert(routed(states[end], between, frames[end], actions[end]));
    assert(!between.pending.contains(id));
    assert(!between.active.contains_key(id));
    law_streams_stay_closed(states, frames, actions, id, end + 1, to);
}

} // verus!
