//! The kernel: registers subsystems, handlers and subscribers, and then hands
//! all of it over to a router.
use crate::backpressure::BackpressureConfig;
use crate::backpressure::Flow;
use crate::backpressure::StreamController;
use crate::backpressure::Subscriber;
use crate::channel::Handing;
use crate::frame::Frame;
use crate::frame::FrameId;
use crate::pipe::PipeEnd;
use crate::router::Router;
use crate::router::Routing;
use crate::sigcall::Handler;
use crate::sigcall::SigcallRegistry;
use crate::table::NameTable;
use crate::tokens::TokenTable;
use crate::tokens::Tokens;
use tokio::sync::mpsc;
use vstd::prelude::*;

verus! {

/// How many frames each channel of the kernel holds.
pub const CHANNEL_BUFFER: usize = 256;

/// What is registered with a kernel.
#[verifier::ext_equal]
pub struct Setup {
    /// Where frames enter the kernel.
    pub inbound_tx: mpsc::Sender<Frame>,
    /// Where the kernel takes them.
    pub inbound_rx: mpsc::Receiver<Frame>,
    /// The subsystems by the prefix that they serve.
    pub routes: Map<Seq<char>, mpsc::Sender<Frame>>,
    /// The token tables of the subsystems that keep one, by prefix.
    pub hooks: Map<Seq<char>, usize>,
    /// The token tables.
    pub tokens: Seq<Tokens>,
    /// The kernel's ends of the pipes to the subsystems.
    pub pipe_ends: Seq<PipeEnd>,
    /// The controllers of the subscribers.
    pub controllers: Seq<StreamController>,
    /// The handlers by the call that they serve.
    pub registry: Map<Seq<char>, Handler>,
    /// The settings of new controllers.
    pub backpressure: BackpressureConfig,
}

impl Setup {
    /// Every subsystem refers to a token table that is there.
    pub open spec fn consistent(self) -> bool {
        forall|prefix: Seq<char>| #[trigger]
            self.hooks.contains_key(prefix) ==> self.hooks[prefix] < self.tokens.len()
    }

    /// Nothing is registered.
    pub open spec fn is_blank(self) -> bool {
        &&& self.routes == Map::<Seq<char>, mpsc::Sender<Frame>>::empty()
        &&& self.hooks == Map::<Seq<char>, usize>::empty()
        &&& self.tokens.len() == 0
        &&& self.pipe_ends.len() == 0
        &&& self.controllers.len() == 0
        &&& self.registry == Map::<Seq<char>, Handler>::empty()
    }

    /// With a subsystem that serves `prefix`, reached through the pipe end `end`.
    pub open spec fn with_subsystem(self, prefix: Seq<char>, end: PipeEnd) -> Setup {
        Setup {
            routes: self.routes.insert(prefix, end.tx),
            pipe_ends: self.pipe_ends.push(end),
            ..self
        }
    }

    /// With an empty token table for the subsystem that serves `prefix`.
    pub open spec fn with_table(self, prefix: Seq<char>) -> Setup {
        Setup {
            hooks: self.hooks.insert(prefix, self.tokens.len() as usize),
            tokens: self.tokens.push(Tokens::blank()),
            ..self
        }
    }

    /// What a router knows that starts from here.
    pub open spec fn routing(self) -> Routing {
        Routing {
            routes: self.routes,
            hooks: self.hooks,
            registry: self.registry,
            subscribers: self.controllers.len(),
            pending: Set::empty(),
            active: Map::empty(),
            tokens: self.tokens,
            record: Seq::empty(),
            drawn: Seq::empty(),
        }
    }
}

/// A kernel that is being set up.
///
/// Register subsystems and subscribe to responses first. Then start it.
pub struct Kernel {
    inbound_tx: mpsc::Sender<Frame>,
    inbound_rx: mpsc::Receiver<Frame>,
    routes: NameTable<mpsc::Sender<Frame>>,
    cancel_hooks: NameTable<usize>,
    tokens: Vec<TokenTable>,
    pipe_ends: Vec<PipeEnd>,
    subscribers: Vec<StreamController>,
    sigcalls: SigcallRegistry,
    backpressure: BackpressureConfig,
}

/// What a started kernel runs on.
///
/// Each bridge passes the frames that arrive at its pipe end on to `inbound_tx`.
/// The router takes the frames that arrive at `inbound_rx`.
pub struct Startup {
    pub inbound_tx: mpsc::Sender<Frame>,
    pub inbound_rx: mpsc::Receiver<Frame>,
    pub bridges: Vec<PipeEnd>,
    pub router: Router,
}

impl View for Kernel {
    type V = Setup;

    closed spec fn view(&self) -> Setup {
        Setup {
            inbound_tx: self.inbound_tx,
            inbound_rx: self.inbound_rx,
            routes: self.routes@,
            hooks: self.cancel_hooks@,
            tokens: crate::router::tables_view(self.tokens@),
            pipe_ends: self.pipe_ends@,
            controllers: self.subscribers@,
            registry: self.sigcalls@,
            backpressure: self.backpressure,
        }
    }
}

/// `controller` is a new one of `tx` under the given settings, through which
/// nothing was sent yet.
pub open spec fn is_new_controller(
    controller: StreamController,
    tx: mpsc::Sender<Frame>,
    config: BackpressureConfig,
) -> bool {
    &&& controller.guarded() == tx
    &&& controller.settings() == config
    &&& controller.record() == Seq::<Handing>::empty()
    &&& controller@ == (Flow {
        counts: Map::empty(),
        paused: Set::empty(),
        high: config.high_watermark,
        low: config.low_watermark,
    })
}

impl Kernel {
    /// A kernel with the default settings.
    #[must_use]
    pub fn new() -> (kernel: Self)
        ensures
            kernel@.is_blank(),
            kernel@.consistent(),
            crate::channel::opened(CHANNEL_BUFFER, kernel@.inbound_tx, kernel@.inbound_rx),
            kernel@.backpressure.high_watermark == 1000,
            kernel@.backpressure.low_watermark == 100,
            kernel@.backpressure.stall_timeout == crate::backpressure::seconds_span(5),
    {
        Kernel::with_backpressure(BackpressureConfig::default())
    }

    /// A kernel whose subscribers get the given settings.
    #[must_use]
    pub fn with_backpressure(config: BackpressureConfig) -> (kernel: Self)
        ensures
            kernel@.is_blank(),
            kernel@.consistent(),
            crate::channel::opened(CHANNEL_BUFFER, kernel@.inbound_tx, kernel@.inbound_rx),
            kernel@.backpressure == config,
    {
        let (inbound_tx, inbound_rx) = mpsc::channel::<Frame>(CHANNEL_BUFFER);
        Kernel {
            inbound_tx,
            inbound_rx,
            routes: NameTable::new(),
            cancel_hooks: NameTable::new(),
            tokens: Vec::new(),
            pipe_ends: Vec::new(),
            subscribers: Vec::new(),
            sigcalls: SigcallRegistry::new(),
            backpressure: config,
        }
    }

    /// Where frames are submitted to the kernel.
    #[must_use]
    pub fn sender(&self) -> (tx: mpsc::Sender<Frame>)
        ensures
            tx == self@.inbound_tx,
    {
        self.inbound_tx.clone()
    }

    /// The registry of handlers.
    pub fn sigcalls(&mut self) -> (sigcalls: &mut SigcallRegistry)
        ensures
            sigcalls@ == old(self)@.registry,
            final(self)@ == (Setup { registry: final(sigcalls)@, ..old(self)@ }),
    {
        &mut self.sigcalls
    }

    /// A token table.
    pub fn token_table(&mut self, hook: usize) -> (table: &mut TokenTable)
        requires
            hook < old(self)@.tokens.len(),
        ensures
            table@ == old(self)@.tokens[hook as int],
            final(self)@ == (Setup {
                tokens: old(self)@.tokens.update(hook as int, final(table)@),
                ..old(self)@
            }),
    {
        &mut self.tokens[hook]
    }

    /// The controller of a subscriber.
    pub fn controller(&mut self, subscriber: usize) -> (controller: &mut StreamController)
        requires
            subscriber < old(self)@.controllers.len(),
        ensures
            *controller == old(self)@.controllers[subscriber as int],
            final(self)@ == (Setup {
                controllers: old(self)@.controllers.update(
                    subscriber as int,
                    *final(controller),
                ),
                ..old(self)@
            }),
    {
        &mut self.subscribers[subscriber]
    }

    /// Registers a subsystem that serves all calls with the given prefix.
    ///
    /// The subsystem takes requests from the pipe end and sends responses to it.
    pub fn register(&mut self, prefix: &str) -> (sub_end: PipeEnd)
        ensures
            exists|end: PipeEnd| #[trigger]
                crate::pipe::crossed(sub_end, end, CHANNEL_BUFFER) && final(self)@ == old(
                    self,
                )@.with_subsystem(prefix@, end),
            old(self)@.consistent() ==> final(self)@.consistent(),
    {
        let (sub_end, kernel_end) = crate::pipe::pipe(CHANNEL_BUFFER);
        self.routes.insert(prefix.to_owned(), kernel_end.sender());
        let ghost end = kernel_end;
        self.pipe_ends.push(kernel_end);
        assert(self@ =~= old(self)@.with_subsystem(prefix@, end));
        sub_end
    }

    /// Registers a subsystem as [`Kernel::register`] does, with a token table for
    /// the requests that it works on. Says which table that is.
    pub fn register_syscall(&mut self, prefix: &str) -> (registered: (PipeEnd, usize))
        ensures
            exists|end: PipeEnd| #[trigger]
                crate::pipe::crossed(registered.0, end, CHANNEL_BUFFER) && final(self)@ == old(
                    self,
                )@.with_subsystem(prefix@, end).with_table(prefix@),
            registered.1 == old(self)@.tokens.len(),
            old(self)@.consistent() ==> final(self)@.consistent(),
    {
        let sub_end = self.register(prefix);
        let ghost middle = self@;
        let ghost end = choose|end: PipeEnd| #[trigger]
            crate::pipe::crossed(sub_end, end, CHANNEL_BUFFER) && middle == old(
                self,
            )@.with_subsystem(prefix@, end);
        let hook = self.tokens.len();
        self.cancel_hooks.insert(prefix.to_owned(), hook);
        self.tokens.push(TokenTable::new());
        assert(self@ =~= middle.with_table(prefix@));
        let registered = (sub_end, hook);
        assert(crate::pipe::crossed(registered.0, end, CHANNEL_BUFFER));
        registered
    }

    /// Subscribes to all responses.
    pub fn subscribe(&mut self) -> (subscriber: Subscriber)
        ensures
            subscriber.index == old(self)@.controllers.len(),
            final(self)@.controllers.len() == old(self)@.controllers.len() + 1,
            final(self)@ == (Setup {
                controllers: old(self)@.controllers.push(final(self)@.controllers.last()),
                ..old(self)@
            }),
            is_new_controller(
                final(self)@.controllers.last(),
                final(self)@.controllers.last().guarded(),
                old(self)@.backpressure,
            ),
            crate::channel::opened(
                CHANNEL_BUFFER,
                final(self)@.controllers.last().guarded(),
                subscriber.rx,
            ),
            old(self)@.consistent() ==> final(self)@.consistent(),
    {
        let (tx, rx) = mpsc::channel::<Frame>(CHANNEL_BUFFER);
        let controller = StreamController::new(tx, self.backpressure);
        let index = self.subscribers.len();
        self.subscribers.push(controller);
        Subscriber::new(rx, index)
    }

    /// Ends the setup, and hands all that is registered over to a router.
    #[must_use]
    pub fn start(self) -> (startup: Startup)
        requires
            self@.consistent(),
        ensures
            startup.inbound_tx == self@.inbound_tx,
            startup.inbound_rx == self@.inbound_rx,
            startup.bridges@ == self@.pipe_ends,
            startup.router@ == self@.routing(),
            startup.router@.consistent(),
            startup.router.controllers() == self@.controllers,
    {
        assert(self@.consistent());
        assert forall|name: Seq<char>| #[trigger]
            self.cancel_hooks@.contains_key(name) implies self.cancel_hooks@[name]
            < self.tokens@.len() by {
            assert(self@.hooks.contains_key(name));
        }
        let router = Router::new(
            self.routes,
            self.cancel_hooks,
            self.tokens,
            self.subscribers,
            self.sigcalls,
        );
        Startup {
            inbound_tx: self.inbound_tx,
            inbound_rx: self.inbound_rx,
            bridges: self.pipe_ends,
            router,
        }
    }
}

impl Default for Kernel {
    /// A kernel with the default settings.
    fn default() -> (kernel: Self)
        ensures
            kernel@.is_blank(),
            kernel@.consistent(),
            crate::channel::opened(CHANNEL_BUFFER, kernel@.inbound_tx, kernel@.inbound_rx),
            kernel@.backpressure.high_watermark == 1000,
            kernel@.backpressure.low_watermark == 100,
            kernel@.backpressure.stall_timeout == crate::backpressure::seconds_span(5),
    {
        Kernel::new()
    }
}

// ---- Laws ----

/// The requests with a registered prefix go to its subsystem, and all others
/// where they went before. Registering a prefix again replaces its subsystem.
pub proof fn law_subsystem_serves_its_prefix(
    setup: Setup,
    prefix: Seq<char>,
    end: PipeEnd,
    call: Seq<char>,
)
    ensures
        setup.with_subsystem(prefix, end).routing().destination(call) == (
        if crate::text::before_separator(call) == prefix {
            Some(end.tx)
        } else {
            setup.routing().destination(call)
        }),
        setup.with_subsystem(prefix, end).routing().hook_of(call) == setup.routing().hook_of(call),
{
}

/// The requests with the prefix of a new token table are entered in it, and all
/// others where they were entered before. Where requests go does not change.
pub proof fn law_token_table_knows_its_prefix(setup: Setup, prefix: Seq<char>, call: Seq<char>)
    requires
        setup.tokens.len() <= usize::MAX,
    ensures
        setup.consistent() ==> setup.with_table(prefix).consistent(),
        setup.with_table(prefix).routing().hook_of(call) == (
        if crate::text::before_separator(call) == prefix {
            Some(setup.tokens.len() as usize)
        } else {
            setup.routing().hook_of(call)
        }),
        setup.with_table(prefix).routing().destination(call) == setup.routing().destination(call),
{
}

/// A kernel with which nothing is registered serves no call but those to itself.
pub proof fn law_blank_kernel_serves_nothing(setup: Setup, call: Seq<char>)
    requires
        setup.is_blank(),
    ensures
        setup.routing().destination(call) is None,
{
}

/// From its start on, a kernel delivers no response to a request that it has not
/// seen.
pub proof fn law_no_response_without_request(
    setup: Setup,
    states: Seq<Routing>,
    frames: Seq<crate::frame::FrameView>,
    actions: Seq<Seq<crate::router::ActionView>>,
    id: FrameId,
    to: int,
)
    requires
        crate::router::is_run(states, frames, actions),
        states[0] == setup.routing(),
        0 <= to <= frames.len(),
        forall|k: int|
            0 <= k < to && #[trigger] crate::router::subject(frames[k]) == Some(id)
                ==> frames[k].status != crate::frame::Status::Request,
    ensures
        forall|k: int|
            0 <= k < to && #[trigger] crate::router::subject(frames[k]) == Some(id)
                ==> actions[k].len() == 0,
{
    crate::router::law_streams_stay_closed(states, frames, actions, id, 0, to);
}

} // verus!
