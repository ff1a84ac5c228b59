//! Laws of setting a kernel up and starting it.
use crate::backpressure::BackpressureConfig;
use crate::backpressure::StreamController;
use crate::backpressure::Subscriber;
use crate::channel::Handing;
use crate::frame::Frame;
use crate::frame::FrameId;
use crate::kernel::Kernel;
use crate::kernel::Setup;
use crate::kernel::Startup;
use crate::pipe::PipeEnd;
use crate::router::Router;
use crate::router::Routing;
use crate::sigcall::SigcallRegistry;
use crate::table::NameTable;
use crate::tokens::TokenTable;
use tokio::sync::mpsc;
use vstd::prelude::*;

verus! {

/// A new kernel has an inbound channel for 256 frames, the given settings, or the
/// default ones, and nothing is registered with it.
pub proof fn law_new_kernels(
    config: BackpressureConfig,
    kernel: Kernel,
    plain: Kernel,
    name: Seq<char>,
)
    requires
        call_ensures(Kernel::with_backpressure, (config,), kernel),
        call_ensures(Kernel::new, (), plain) || call_ensures(
            <Kernel as Default>::default,
            (),
            plain,
        ),
    ensures
        kernel@.backpressure.high_watermark == config.high_watermark,
        kernel@.backpressure.low_watermark == config.low_watermark,
        kernel@.backpressure.stall_timeout == config.stall_timeout,
        plain@.backpressure.high_watermark == 1000,
        plain@.backpressure.low_watermark == 100,
        plain@.backpressure.stall_timeout == crate::backpressure::seconds_span(5),
        forall|k: Kernel| #![trigger k@]
            k == kernel || k == plain ==> {
                &&& call_ensures(
                    mpsc::channel::<Frame>,
                    (256usize,),
                    (k@.inbound_tx, k@.inbound_rx),
                )
                &&& !k@.routes.contains_key(name)
                &&& !k@.hooks.contains_key(name)
                &&& !k@.registry.contains_key(name)
                &&& k@.tokens.len() == 0
                &&& k@.pipe_ends.len() == 0
                &&& k@.controllers.len() == 0
            },
{
}

/// Frames are submitted where the kernel takes them.
pub proof fn law_submitting(kernel: Kernel, tx: mpsc::Sender<Frame>)
    requires
        call_ensures(Kernel::sender, (&kernel,), tx),
    ensures
        tx == kernel@.inbound_tx,
{
}

/// Registering a subsystem makes a pipe of two channels for 256 frames. The
/// subsystem gets one end; the kernel keeps the other, and sends what has the
/// prefix there. No other prefix changes, and nothing else.
pub proof fn law_registering_subsystems(
    kernel: &mut Kernel,
    prefix: &str,
    end: PipeEnd,
    hook: usize,
    other: Seq<char>,
)
    requires
        call_ensures(Kernel::register, (kernel, prefix), end) || call_ensures(
            Kernel::register_syscall,
            (kernel, prefix),
            (end, hook),
        ),
    ensures
        final(kernel)@.pipe_ends.len() == old(kernel)@.pipe_ends.len() + 1,
        final(kernel)@.pipe_ends.drop_last() == old(kernel)@.pipe_ends,
        ({
            let kept = final(kernel)@.pipe_ends.last();
            &&& end.state is Direct
            &&& kept.state is Direct
            &&& call_ensures(
                mpsc::channel::<Frame>,
                (256usize,),
                (kept.tx, end.state->Direct_0),
            )
            &&& call_ensures(
                mpsc::channel::<Frame>,
                (256usize,),
                (end.tx, kept.state->Direct_0),
            )
            &&& final(kernel)@.routes.contains_key(prefix@)
            &&& final(kernel)@.routes[prefix@] == kept.tx
        }),
        other != prefix@ ==> final(kernel)@.routes.contains_key(other) == old(kernel)@.routes.contains_key(other) && (old(kernel)@.routes.contains_key(other) ==> final(kernel)@.routes[other] == old(kernel)@.routes[other]),
        final(kernel)@.inbound_tx == old(kernel)@.inbound_tx,
        final(kernel)@.inbound_rx == old(kernel)@.inbound_rx,
        final(kernel)@.controllers == old(kernel)@.controllers,
        final(kernel)@.registry == old(kernel)@.registry,
        final(kernel)@.backpressure == old(kernel)@.backpressure,
{
    if call_ensures(Kernel::register, (kernel, prefix), end) {
        let kept = choose|kept: PipeEnd| #[trigger]
            crate::pipe::crossed(end, kept, crate::kernel::CHANNEL_BUFFER) && final(kernel)@ == old(kernel)@.with_subsystem(prefix@, kept);
        assert(final(kernel)@.pipe_ends == old(kernel)@.pipe_ends.push(kept));
    } else {
        let registered = (end, hook);
        let kept = choose|kept: PipeEnd| #[trigger]
            crate::pipe::crossed(registered.0, kept, crate::kernel::CHANNEL_BUFFER) && final(kernel)@ == old(kernel)@.with_subsystem(prefix@, kept).with_table(prefix@);
        assert(final(kernel)@.pipe_ends == old(kernel)@.pipe_ends.push(kept));
    }
    assert(final(kernel)@.pipe_ends.drop_last() =~= old(kernel)@.pipe_ends);
}

/// Only registering a subsystem with a token table adds one: an empty one, for its
/// prefix and for no other.
pub proof fn law_registering_token_tables(
    kernel: &mut Kernel,
    prefix: &str,
    end: PipeEnd,
    hook: usize,
    plain: &mut Kernel,
    plain_end: PipeEnd,
    other: Seq<char>,
    id: FrameId,
)
    requires
        call_ensures(Kernel::register_syscall, (kernel, prefix), (end, hook)),
        call_ensures(Kernel::register, (plain, prefix), plain_end),
    ensures
        hook == old(kernel)@.tokens.len(),
        final(kernel)@.tokens.len() == old(kernel)@.tokens.len() + 1,
        final(kernel)@.tokens.drop_last() == old(kernel)@.tokens,
        !final(kernel)@.tokens.last().live.contains_key(id),
        final(kernel)@.tokens.last().record == Seq::<Handing>::empty(),
        final(kernel)@.hooks.contains_key(prefix@),
        final(kernel)@.hooks[prefix@] == hook,
        other != prefix@ ==> final(kernel)@.hooks.contains_key(other) == old(kernel)@.hooks.contains_key(other) && (old(kernel)@.hooks.contains_key(other) ==> final(kernel)@.hooks[other] == old(kernel)@.hooks[other]),
        final(plain)@.tokens == old(plain)@.tokens,
        final(plain)@.hooks == old(plain)@.hooks,
{
    assert(final(kernel)@.tokens.drop_last() =~= old(kernel)@.tokens);
}

/// Subscribing opens a channel for 256 frames. Its sender is guarded by a new
/// controller, which has the kernel's settings in all of their fields, and through
/// which nothing was sent. The subscriber gets the receiver and the number of the
/// controller. No earlier controller changes, and nothing else.
pub proof fn law_subscribing(kernel: &mut Kernel, subscriber: Subscriber, stream: FrameId)
    requires
        call_ensures(Kernel::subscribe, (kernel,), subscriber),
    ensures
        final(kernel)@.controllers.len() == old(kernel)@.controllers.len() + 1,
        final(kernel)@.controllers.drop_last() == old(kernel)@.controllers,
        subscriber.index == old(kernel)@.controllers.len(),
        ({
            let controller = final(kernel)@.controllers.last();
            let config = old(kernel)@.backpressure;
            &&& call_ensures(
                mpsc::channel::<Frame>,
                (256usize,),
                (controller.guarded(), subscriber.rx),
            )
            &&& controller.settings().high_watermark == config.high_watermark
            &&& controller.settings().low_watermark == config.low_watermark
            &&& controller.settings().stall_timeout == config.stall_timeout
            &&& controller@.high == config.high_watermark
            &&& controller@.low == config.low_watermark
            &&& !controller@.counts.contains_key(stream)
            &&& !controller@.paused.contains(stream)
            &&& controller.record() == Seq::<Handing>::empty()
        }),
        final(kernel)@.inbound_tx == old(kernel)@.inbound_tx,
        final(kernel)@.inbound_rx == old(kernel)@.inbound_rx,
        final(kernel)@.routes == old(kernel)@.routes,
        final(kernel)@.hooks == old(kernel)@.hooks,
        final(kernel)@.tokens == old(kernel)@.tokens,
        final(kernel)@.pipe_ends == old(kernel)@.pipe_ends,
        final(kernel)@.registry == old(kernel)@.registry,
        final(kernel)@.backpressure == old(kernel)@.backpressure,
{
    assert(final(kernel)@.controllers.drop_last() =~= old(kernel)@.controllers);
}

/// All controllers of a kernel have the settings that it was made with: so it is at
/// first, and no way of setting a kernel up changes it. Reaching into the kernel
/// for its registry or a token table does not either.
pub proof fn law_settings_reach_every_subscriber(
    config: BackpressureConfig,
    blank: Kernel,
    kernel: &mut Kernel,
    prefix: &str,
    end: PipeEnd,
    hook: usize,
    subscriber: Subscriber,
    sigcalls: &mut SigcallRegistry,
    table: &mut TokenTable,
    i: int,
)
    requires
        call_ensures(Kernel::with_backpressure, (config,), blank),
        ({
            ||| call_ensures(Kernel::register, (kernel, prefix), end)
            ||| call_ensures(Kernel::register_syscall, (kernel, prefix), (end, hook))
            ||| call_ensures(Kernel::subscribe, (kernel,), subscriber)
            ||| call_ensures(Kernel::sigcalls, (kernel,), sigcalls)
            ||| call_ensures(Kernel::token_table, (kernel, hook), table)
        }),
        old(kernel)@.backpressure == config,
        forall|j: int|
            0 <= j < old(kernel)@.controllers.len() ==> (#[trigger] old(kernel)@.controllers[j]).settings() == config,
    ensures
        blank@.backpressure == config,
        blank@.controllers.len() == 0,
        final(kernel)@.backpressure == config,
        0 <= i < final(kernel)@.controllers.len() ==> final(kernel)@.controllers[i].settings()
            == config,
{
    if call_ensures(Kernel::subscribe, (kernel,), subscriber) && i == old(kernel)@.controllers.len() {
        let controller = final(kernel)@.controllers.last();
        assert(final(kernel)@.controllers[i] == controller);
    }
}

/// Starting hands all that is registered over as it is. Nothing is pending or
/// active, nothing was sent and nothing drawn.
pub proof fn law_starting(kernel: Kernel, startup: Startup, id: FrameId)
    requires
        call_ensures(Kernel::start, (kernel,), startup),
    ensures
        startup.inbound_tx == kernel@.inbound_tx,
        startup.inbound_rx == kernel@.inbound_rx,
        startup.bridges@ == kernel@.pipe_ends,
        startup.router.controllers() == kernel@.controllers,
        startup.router@.subscribers == kernel@.controllers.len(),
        startup.router@.routes == kernel@.routes,
        startup.router@.hooks == kernel@.hooks,
        startup.router@.registry == kernel@.registry,
        startup.router@.tokens == kernel@.tokens,
        !startup.router@.pending.contains(id),
        !startup.router@.active.contains_key(id),
        startup.router@.record.len() == 0,
        startup.router@.drawn.len() == 0,
{
}

/// A router knows what it was made of, and one that was shut down keeps only its
/// registry and its token tables.
pub proof fn law_routers(
    routes: NameTable<mpsc::Sender<Frame>>,
    hooks: NameTable<usize>,
    tokens: Vec<TokenTable>,
    subscribers: Vec<StreamController>,
    sigcalls: SigcallRegistry,
    router: Router,
    running: Router,
    halted: Router,
    count: usize,
    id: FrameId,
    name: Seq<char>,
    i: int,
)
    requires
        call_ensures(Router::new, (routes, hooks, tokens, subscribers, sigcalls), router),
        call_ensures(Router::shut_down, (running,), halted),
        call_ensures(Router::subscribers, (&router,), count),
    ensures
        router@.routes == routes@,
        router@.hooks == hooks@,
        router@.registry == sigcalls@,
        router@.subscribers == subscribers@.len(),
        count == subscribers@.len(),
        router.controllers() == subscribers@,
        router@.tokens.len() == tokens@.len(),
        0 <= i < tokens@.len() ==> router@.tokens[i] == tokens@[i]@,
        !router@.pending.contains(id),
        !router@.active.contains_key(id),
        router@.record.len() == 0,
        router@.drawn.len() == 0,
        halted@.registry == running@.registry,
        halted@.tokens == running@.tokens,
        halted@.subscribers == 0,
        !halted@.routes.contains_key(name),
        !halted@.hooks.contains_key(name),
        !halted@.pending.contains(id),
        !halted@.active.contains_key(id),
{
}

/// Reaching into a router for a controller, the registry or a token table leads to
/// the one that is there, and what is done to it is done there and nowhere else.
pub proof fn law_reaching_into_routers(
    router: &mut Router,
    subscriber: usize,
    controller: &mut StreamController,
    sigcalls: &mut SigcallRegistry,
    hook: usize,
    table: &mut TokenTable,
    i: int,
)
    requires
        subscriber < old(router).controllers().len(),
        hook < old(router)@.tokens.len(),
    ensures
        call_ensures(Router::controller, (router, subscriber), controller) ==> {
            &&& *old(controller) == old(router).controllers()[subscriber as int]
            &&& final(router).controllers().len() == old(router).controllers().len()
            &&& final(router).controllers()[subscriber as int] == *final(controller)
            &&& 0 <= i < old(router).controllers().len() && i != subscriber ==> final(router).controllers()[i] == old(router).controllers()[i]
            &&& final(router)@ == old(router)@
        },
        call_ensures(Router::sigcalls, (router,), sigcalls) ==> {
            &&& old(sigcalls)@ == old(router)@.registry
            &&& final(router)@.registry == final(sigcalls)@
            &&& final(router)@.routes == old(router)@.routes
            &&& final(router)@.hooks == old(router)@.hooks
            &&& final(router)@.subscribers == old(router)@.subscribers
            &&& final(router)@.pending == old(router)@.pending
            &&& final(router)@.active == old(router)@.active
            &&& final(router)@.tokens == old(router)@.tokens
            &&& final(router)@.record == old(router)@.record
            &&& final(router)@.drawn == old(router)@.drawn
            &&& final(router).controllers() == old(router).controllers()
        },
        call_ensures(Router::token_table, (router, hook), table) ==> {
            &&& old(table)@ == old(router)@.tokens[hook as int]
            &&& final(router)@.tokens.len() == old(router)@.tokens.len()
            &&& final(router)@.tokens[hook as int] == final(table)@
            &&& 0 <= i < old(router)@.tokens.len() && i != hook ==> final(router)@.tokens[i] == old(router)@.tokens[i]
            &&& final(router)@.routes == old(router)@.routes
            &&& final(router)@.hooks == old(router)@.hooks
            &&& final(router)@.registry == old(router)@.registry
            &&& final(router)@.subscribers == old(router)@.subscribers
            &&& final(router)@.pending == old(router)@.pending
            &&& final(router)@.active == old(router)@.active
            &&& final(router)@.record == old(router)@.record
            &&& final(router)@.drawn == old(router)@.drawn
            &&& final(router).controllers() == old(router).controllers()
        },
{
}

/// Reaching into a kernel for a controller, the registry or a token table leads to
/// the one that is there, and what is done to it is done there and nowhere else.
pub proof fn law_reaching_into_kernels(
    kernel: &mut Kernel,
    subscriber: usize,
    controller: &mut StreamController,
    sigcalls: &mut SigcallRegistry,
    hook: usize,
    table: &mut TokenTable,
    i: int,
)
    requires
        subscriber < old(kernel)@.controllers.len(),
        hook < old(kernel)@.tokens.len(),
    ensures
        call_ensures(Kernel::controller, (kernel, subscriber), controller) ==> {
            &&& *old(controller) == old(kernel)@.controllers[subscriber as int]
            &&& final(kernel)@.controllers.len() == old(kernel)@.controllers.len()
            &&& final(kernel)@.controllers[subscriber as int] == *final(controller)
            &&& 0 <= i < old(kernel)@.controllers.len() && i != subscriber ==> final(kernel)@.controllers[i] == old(kernel)@.controllers[i]
            &&& final(kernel)@.registry == old(kernel)@.registry
            &&& final(kernel)@.tokens == old(kernel)@.tokens
        },
        call_ensures(Kernel::sigcalls, (kernel,), sigcalls) ==> {
            &&& old(sigcalls)@ == old(kernel)@.registry
            &&& final(kernel)@.registry == final(sigcalls)@
            &&& final(kernel)@.controllers == old(kernel)@.controllers
            &&& final(kernel)@.tokens == old(kernel)@.tokens
        },
        call_ensures(Kernel::token_table, (kernel, hook), table) ==> {
            &&& old(table)@ == old(kernel)@.tokens[hook as int]
            &&& final(kernel)@.tokens.len() == old(kernel)@.tokens.len()
            &&& final(kernel)@.tokens[hook as int] == final(table)@
            &&& 0 <= i < old(kernel)@.tokens.len() && i != hook ==> final(kernel)@.tokens[i] == old(kernel)@.tokens[i]
            &&& final(kernel)@.registry == old(kernel)@.registry
            &&& final(kernel)@.controllers == old(kernel)@.controllers
        },
        call_ensures(Kernel::controller, (kernel, subscriber), controller) || call_ensures(
            Kernel::sigcalls,
            (kernel,),
            sigcalls,
        ) || call_ensures(Kernel::token_table, (kernel, hook), table) ==> {
            &&& final(kernel)@.inbound_tx == old(kernel)@.inbound_tx
            &&& final(kernel)@.inbound_rx == old(kernel)@.inbound_rx
            &&& final(kernel)@.routes == old(kernel)@.routes
            &&& final(kernel)@.hooks == old(kernel)@.hooks
            &&& final(kernel)@.pipe_ends == old(kernel)@.pipe_ends
            &&& final(kernel)@.backpressure == old(kernel)@.backpressure
        },
{
}

/// When what a kernel and a router know is consistent: every token table that is
/// referred to is there, and only active requests are pending.
pub proof fn law_consistency(setup: Setup, routing: Routing)
    ensures
        setup.consistent() <==> forall|prefix: Seq<char>| #[trigger]
            setup.hooks.contains_key(prefix) ==> setup.hooks[prefix] < setup.tokens.len(),
        routing.consistent() <==> {
            &&& routing.pending.subset_of(routing.active.dom())
            &&& forall|prefix: Seq<char>| #[trigger]
                routing.hooks.contains_key(prefix) ==> routing.hooks[prefix] < routing.tokens.len()
            &&& forall|id: FrameId| #[trigger]
                routing.active.contains_key(id) ==> match routing.active[id].hook {
                    Some(hook) => hook < routing.tokens.len(),
                    None => true,
                }
        },
{
}

} // verus!
