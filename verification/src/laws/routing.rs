//! Laws of the router.
use crate::channel::Handing;
use crate::channel::TrySend;
use crate::frame::Frame;
use crate::frame::FrameId;
use crate::frame::FrameView;
use crate::frame::Status;
use crate::router::Action;
use crate::router::ActionView;
use crate::router::Router;
use crate::router::Routing;
use crate::sigcall::SigcallRegistry;
use crate::stamp::Draws;
use crate::value::Json;
use tokio::sync::mpsc;
use tokio_util::sync::CancellationToken;
use vstd::prelude::*;

verus! {

/// The view of an action holds what the action holds.
pub proof fn law_view_of_an_action(action: Action)
    ensures
        action matches Action::Deliver { subscriber, frame } ==> action@ == (ActionView::Deliver {
            subscriber: subscriber as int,
            frame: frame@,
        }),
        action matches Action::Forward { to, frame } ==> action@ == (ActionView::Forward {
            to,
            frame: frame@,
        }),
{
}

/// Routing changes neither the subsystems, their token tables, the handlers, nor
/// the subscribers and their controllers.
pub proof fn law_routing_keeps_the_setup(router: &mut Router, frame: &Frame, actions: Vec<Action>)
    requires
        call_ensures(Router::route, (router, frame), actions),
        old(router)@.consistent(),
    ensures
        final(router)@.routes == old(router)@.routes,
        final(router)@.hooks == old(router)@.hooks,
        final(router)@.registry == old(router)@.registry,
        final(router)@.subscribers == old(router)@.subscribers,
        final(router).controllers() == old(router).controllers(),
        final(router)@.tokens.len() == old(router)@.tokens.len(),
        frame.status != Status::Cancel ==> final(router)@.tokens == old(router)@.tokens && final(router)@.record == old(router)@.record,
        frame.status != Status::Request ==> final(router)@.drawn == old(router)@.drawn,
        final(router)@.pending.subset_of(final(router)@.active.dom()),
{
    assert(crate::router::routed(
        old(router)@,
        final(router)@,
        frame@,
        crate::router::actions_view(actions@),
    ));
    crate::router::law_setup_is_fixed(
        old(router)@,
        final(router)@,
        frame@,
        crate::router::actions_view(actions@),
    );
}

/// A request is forwarded, once and unchanged, to the subsystem that serves its
/// prefix, whatever its verb; and if none does, to the handler registered for its
/// call. The subscribers get nothing yet. From then on the request is pending and
/// can be cancelled: with a token of its own, where it was forwarded to, and in the
/// token table of its prefix. No prefix but `sigcall` is treated otherwise.
pub proof fn law_requests_are_forwarded(
    router: &mut Router,
    frame: &Frame,
    actions: Vec<Action>,
    prefix: Seq<char>,
    verb: Seq<char>,
    to: mpsc::Sender<Frame>,
)
    requires
        call_ensures(Router::route, (router, frame), actions),
        frame.status == Status::Request,
        !prefix.contains(':'),
        frame.call@ == prefix || frame.call@ == prefix + seq![':'] + verb,
        prefix != "sigcall"@,
        if old(router)@.routes.contains_key(prefix) {
            to == old(router)@.routes[prefix]
        } else {
            old(router)@.registry.contains_key(frame.call@) && to == old(router)@.registry[frame.call@].tx
        },
    ensures
        actions@.len() == 1,
        actions@[0] matches Action::Forward { to: place, frame: sent } && place == to && sent@
            == frame@,
        final(router)@.pending == old(router)@.pending.insert(frame.id),
        final(router)@.active.dom() == old(router)@.active.dom().insert(frame.id),
        final(router)@.active[frame.id].subsystem_tx == to,
        call_ensures(CancellationToken::new, (), final(router)@.active[frame.id].cancel),
        old(router)@.hooks.contains_key(prefix) ==> final(router)@.active[frame.id].hook == Some(
            old(router)@.hooks[prefix],
        ),
        !old(router)@.hooks.contains_key(prefix) ==> final(router)@.active[frame.id].hook is None,
        final(router)@.drawn == old(router)@.drawn,
{
    crate::laws::frames::lemma_split_at(prefix, verb);
    let views = crate::router::actions_view(actions@);
    assert(crate::router::routed(old(router)@, final(router)@, frame@, views));
    assert(views == seq![ActionView::Forward { to, frame: frame@ }]);
    assert(views.len() == actions@.len());
    assert(views[0] == actions@[0]@);
    assert(final(router)@.active.dom() =~= old(router)@.active.dom().insert(frame.id));
}

/// A request that nobody serves is answered to every subscriber, in order, with
/// one and the same error frame; nothing is begun.
pub proof fn law_requests_without_route(
    router: &mut Router,
    frame: &Frame,
    actions: Vec<Action>,
    prefix: Seq<char>,
    verb: Seq<char>,
    i: int,
    name: Seq<char>,
)
    requires
        call_ensures(Router::route, (router, frame), actions),
        frame.status == Status::Request,
        !prefix.contains(':'),
        frame.call@ == prefix || frame.call@ == prefix + seq![':'] + verb,
        prefix != "sigcall"@,
        !old(router)@.routes.contains_key(prefix),
        !old(router)@.registry.contains_key(frame.call@),
    ensures
        actions@.len() == old(router)@.subscribers,
        final(router)@.pending == old(router)@.pending,
        final(router)@.active == old(router)@.active,
        final(router)@.drawn.len() == old(router)@.drawn.len() + 1,
        0 <= i < actions@.len() ==> {
            &&& actions@[i] is Deliver
            &&& actions@[i]->subscriber == i
            &&& actions@[i]->Deliver_frame@ == actions@[0]->Deliver_frame@
            &&& final(router)@.drawn.last() == actions@[i]->Deliver_frame.id
            &&& crate::stamp::id_drawn(actions@[i]->Deliver_frame.id)
            &&& actions@[i]->Deliver_frame.status == Status::Error
            &&& actions@[i]->Deliver_frame.parent_id == Some(frame.id)
            &&& actions@[i]->Deliver_frame.call@ == frame.call@
            &&& actions@[i]->Deliver_frame.from is None
            &&& actions@[i]->Deliver_frame@.trace == frame@.trace
            &&& actions@[i]->Deliver_frame.data@.contains_key(name) <==> name == "code"@ || name
                == "message"@ || name == "retryable"@
            &&& actions@[i]->Deliver_frame.data@["code"@]@ == Json::String("E_NO_ROUTE"@)
            &&& actions@[i]->Deliver_frame.data@["message"@]@ == Json::String(
                "E_NO_ROUTE"@ + ": "@ + ("no handler for syscall: "@ + frame.call@),
            )
            &&& actions@[i]->Deliver_frame.data@["retryable"@]@ == Json::Bool(false)
        },
{
    crate::laws::frames::lemma_split_at(prefix, verb);
    let views = crate::router::actions_view(actions@);
    assert(crate::router::routed(old(router)@, final(router)@, frame@, views));
    let answer = choose|answer: FrameView|
        {
            &&& #[trigger] crate::router::is_no_route(answer, frame@)
            &&& views == crate::router::delivery(answer, old(router)@.subscribers)
            &&& final(router)@ == (Routing {
                drawn: old(router)@.drawn.push(answer.id),
                ..old(router)@
            })
        };
    assert(views.len() == actions@.len());
    if 0 <= i < actions@.len() {
        assert(views[i] == actions@[i]@);
        assert(views[0] == actions@[0]@);
        let sent = actions@[i]->Deliver_frame;
        assert(sent@ == answer);
        assert(crate::frame::text_view(sent.from) == None::<Seq<char>>);
        crate::laws::frames::lemma_error_entries(
            sent.data,
            "E_NO_ROUTE"@,
            "E_NO_ROUTE"@ + ": "@ + ("no handler for syscall: "@ + frame.call@),
            false,
            name,
        );
    }
}

/// Where the delivery of a frame to a subscriber stands among the deliveries of
/// several frames.
proof fn lemma_deliveries_at(frames: Seq<FrameView>, subscribers: nat, k: int, j: int)
    requires
        0 <= k < frames.len(),
        0 <= j < subscribers,
    ensures
        0 <= k * subscribers + j < crate::router::deliveries(frames, subscribers).len(),
        crate::router::deliveries(frames, subscribers)[k * subscribers + j]
            == (ActionView::Deliver { subscriber: j, frame: frames[k] }),
        crate::router::deliveries(frames, subscribers).len() == frames.len() * subscribers,
    decreases frames.len(),
{
    let front = frames.drop_last();
    let n = subscribers as int;
    lemma_deliveries_len(front, subscribers);
    lemma_deliveries_len(frames, subscribers);
    assert(0 <= k * n) by (nonlinear_arith)
        requires
            0 <= k,
            0 <= n,
    ;
    if k < front.len() {
        lemma_deliveries_at(front, subscribers, k, j);
        assert(front[k] == frames[k]);
    } else {
        assert(k == front.len());
        assert(crate::router::deliveries(frames, subscribers)[k * n + j]
            == crate::router::delivery(frames.last(), subscribers)[j]);
    }
}

/// How many deliveries of frames there are.
proof fn lemma_deliveries_len(frames: Seq<FrameView>, subscribers: nat)
    ensures
        crate::router::deliveries(frames, subscribers).len() == frames.len() * subscribers,
    decreases frames.len(),
{
    if frames.len() > 0 {
        lemma_deliveries_len(frames.drop_last(), subscribers);
        let m = frames.drop_last().len() as int;
        let n = subscribers as int;
        assert((m + 1) * n == m * n + n) by (nonlinear_arith);
    } else {
        assert(0 * subscribers == 0) by (nonlinear_arith);
    }
}

/// The answer of the kernel itself, taken apart from its delivery: each of its
/// frames goes to each subscriber, one frame after the other.
proof fn lemma_answer(
    before: Routing,
    after: Routing,
    frame: &Frame,
    actions: Vec<Action>,
) -> (answer: Seq<FrameView>)
    requires
        crate::router::routed(before, after, frame@, crate::router::actions_view(actions@)),
        frame.status == Status::Request,
        crate::text::before_separator(frame.call@) == "sigcall"@,
    ensures
        crate::router::management_answer(answer, frame@, before.registry),
        actions@.len() == answer.len() * before.subscribers,
        forall|k: int, j: int|
            0 <= k < answer.len() && 0 <= j < before.subscribers ==> (
            #[trigger] actions@[k * before.subscribers + j])@ == (ActionView::Deliver {
                subscriber: j,
                frame: answer[k],
            }),
        after == (Routing {
            pending: before.pending.remove(frame.id),
            drawn: before.drawn + crate::frame::frame_ids(answer),
            ..before
        }),
{
    let views = crate::router::actions_view(actions@);
    let answer = choose|answer: Seq<FrameView>|
        {
            &&& #[trigger] crate::router::management_answer(
                answer,
                frame@,
                before.registry,
            )
            &&& views == crate::router::deliveries(answer, before.subscribers)
            &&& after == (Routing {
                pending: before.pending.remove(frame.id),
                drawn: before.drawn + crate::frame::frame_ids(answer),
                ..before
            })
        };
    let n = before.subscribers;
    lemma_deliveries_len(answer, n);
    assert(views.len() == actions@.len());
    assert forall|k: int, j: int| 0 <= k < answer.len() && 0 <= j < n implies (
    #[trigger] actions@[k * n + j])@ == (ActionView::Deliver { subscriber: j, frame: answer[k] }) by {
        lemma_deliveries_at(answer, n, k, j);
        assert(views[k * n + j] == actions@[k * n + j]@);
    }
    answer
}

/// What routing does is what the laws below say of `routed`.
pub proof fn law_routes_are_routed(router: &mut Router, frame: &Frame, actions: Vec<Action>)
    requires
        call_ensures(Router::route, (router, frame), actions),
    ensures
        crate::router::routed(
            old(router)@,
            final(router)@,
            frame@,
            crate::router::actions_view(actions@),
        ),
        crate::router::actions_view(actions@).len() == actions@.len(),
        forall|i: int|
            0 <= i < actions@.len() ==> (#[trigger] crate::router::actions_view(actions@)[i])
                == actions@[i]@,
{
}

/// A request to the kernel itself, with the prefix `sigcall`, is answered and goes
/// to no subsystem and no handler, whatever is registered. It is not begun. Every
/// frame of the answer goes to every subscriber, names the request and its call,
/// carries its trace, and has an identifier that was drawn for it.
pub proof fn law_requests_to_the_kernel(
    before: Routing,
    after: Routing,
    frame: &Frame,
    actions: Vec<Action>,
    verb: Seq<char>,
) -> (answer: Seq<FrameView>)
    requires
        crate::router::routed(before, after, frame@, crate::router::actions_view(actions@)),
        frame.status == Status::Request,
        frame.call@ == "sigcall"@ || frame.call@ == "sigcall"@ + seq![':'] + verb,
    ensures
        answer.len() > 0,
        actions@.len() == answer.len() * before.subscribers,
        forall|k: int, j: int|
            0 <= k < answer.len() && 0 <= j < before.subscribers ==> (
            #[trigger] actions@[k * before.subscribers + j])@ == (ActionView::Deliver {
                subscriber: j,
                frame: answer[k],
            }),
        forall|k: int|
            0 <= k < answer.len() ==> {
                &&& (#[trigger] answer[k]).parent_id == Some(frame.id)
                &&& answer[k].call == frame.call@
                &&& answer[k].trace == frame@.trace
                &&& answer[k].from is None
                &&& answer[k].expires_in == 0
                &&& crate::stamp::id_drawn(answer[k].id)
                &&& after.drawn[before.drawn.len() + k] == answer[k].id
                &&& (answer[k].status == Status::Done || answer[k].status == Status::Error) == (k
                    == answer.len() - 1)
            },
        after.drawn.len() == before.drawn.len() + answer.len(),
        after.active == before.active,
        after.pending == before.pending.remove(frame.id),
        // A refused operation is told why.
        frame.call@ == "sigcall"@ + seq![':'] + "register"@ || frame.call@ == "sigcall"@ + seq![
            ':',
        ] + "unregister"@ ==> answer.len() == 1 && answer[0].status == Status::Error
            && answer[0].data["code"@] == Json::String("E_INTERNAL"@) && answer[0].data["message"@]
            == Json::String(
            "sigcall:register and sigcall:unregister must be called through the SigcallRegistry API directly"@,
        ) && answer[0].data["retryable"@] == Json::Bool(false),
        // An unknown one, too.
        frame.call@ == "sigcall"@ + seq![':'] + verb && verb != "list"@ && verb != "register"@
            && verb != "unregister"@ ==> answer.len() == 1 && answer[0].status == Status::Error
            && answer[0].data["code"@] == Json::String("E_INTERNAL"@) && answer[0].data["message"@]
            == Json::String("unknown sigcall operation: "@ + verb) && answer[0].data["retryable"@]
            == Json::Bool(false),
        frame.call@ == "sigcall"@ ==> answer.len() == 1 && answer[0].status == Status::Error
            && answer[0].data["code"@] == Json::String("E_INTERNAL"@) && answer[0].data["message"@]
            == Json::String("unknown sigcall operation: "@),
        // The list is of the handlers.
        frame.call@ == "sigcall"@ + seq![':'] + "list"@ ==> {
            &&& forall|k: int|
                0 <= k < answer.len() - 1 ==> {
                    let name = (#[trigger] answer[k]).data["name"@]->String_0;
                    &&& answer[k].status == Status::Item
                    &&& before.registry.contains_key(name)
                    &&& answer[k].data == map![
                        "name"@ => Json::String(name),
                        "owner"@ => Json::String(before.registry[name].owner),
                    ]
                }
            &&& forall|name: Seq<char>| #[trigger]
                before.registry.contains_key(name) ==> exists|k: int|
                    0 <= k < answer.len() - 1 && (#[trigger] answer[k]).data["name"@]
                        == Json::String(name)
            &&& forall|k: int, l: int|
                0 <= k < l < answer.len() - 1 ==> (#[trigger] answer[k]).data["name"@] != (
                #[trigger] answer[l]).data["name"@]
            &&& answer.last().status == Status::Done
            &&& answer.last().data == Map::<Seq<char>, Json>::empty()
        },
{
    reveal_strlit("sigcall");
    reveal_strlit("list");
    reveal_strlit("register");
    reveal_strlit("unregister");
    reveal_strlit("code");
    reveal_strlit("message");
    reveal_strlit("retryable");
    assert(!"sigcall"@.contains(':'));
    assert("list"@.len() == 4 && "register"@.len() == 8 && "unregister"@.len() == 10);
    assert("code"@.len() == 4 && "message"@.len() == 7 && "retryable"@.len() == 9);
    crate::laws::frames::lemma_split_at("sigcall"@, verb);
    crate::laws::frames::lemma_split_at("sigcall"@, "list"@);
    crate::laws::frames::lemma_split_at("sigcall"@, "register"@);
    crate::laws::frames::lemma_split_at("sigcall"@, "unregister"@);
    let answer = lemma_answer(before, after, frame, actions);
    crate::router::law_answers_end_once(answer, frame@, before.registry);
    let operation = crate::text::after_separator(frame.call@);
    assert("unknown sigcall operation: "@ + Seq::<char>::empty()
        =~= "unknown sigcall operation: "@);
    assert forall|k: int| 0 <= k < answer.len() implies {
        &&& (#[trigger] answer[k]).parent_id == Some(frame.id)
        &&& answer[k].call == frame.call@
        &&& answer[k].trace == frame@.trace
        &&& answer[k].from is None
        &&& answer[k].expires_in == 0
        &&& crate::stamp::id_drawn(answer[k].id)
        &&& after.drawn[before.drawn.len() + k] == answer[k].id
        &&& (answer[k].status == Status::Done || answer[k].status == Status::Error) == (k
            == answer.len() - 1)
    } by {
        assert(crate::frame::frame_ids(answer)[k] == answer[k].id);
        lemma_answer_responds(answer, frame@, before.registry, k);
        if k < answer.len() - 1 {
            assert(answer.drop_last()[k] == answer[k]);
        } else {
            assert(answer[k] == answer.last());
        }
    }
    if operation == "list"@ {
        lemma_listing(answer, frame@, before.registry);
    }
    answer
}

/// Each frame of an answer is a new response to the request, and ends the stream
/// only as done or as an error.
proof fn lemma_answer_responds(
    answer: Seq<FrameView>,
    request: FrameView,
    registry: Map<Seq<char>, crate::sigcall::Handler>,
    k: int,
)
    requires
        crate::router::management_answer(answer, request, registry),
        0 <= k < answer.len(),
    ensures
        exists|status: Status, data: Map<Seq<char>, Json>| #[trigger]
            crate::frame::is_response(answer[k], request, status, data) && status
                != Status::Cancel,
{
    let operation = crate::text::after_separator(request.call);
    if operation == "list"@ {
        let list = choose|list: Seq<(String, String)>|
            crate::sigcall::lists(list, registry) && #[trigger] crate::router::listing(
                answer,
                request,
                list,
            );
        if k < list.len() {
            assert(crate::frame::is_response(
                answer[k],
                request,
                Status::Item,
                crate::router::handler_data(list[k].0@, list[k].1@),
            ));
        } else {
            assert(answer[k] == answer.last());
        }
    }
}

/// A list of the handlers is of the handlers.
proof fn lemma_listing(
    answer: Seq<FrameView>,
    request: FrameView,
    registry: Map<Seq<char>, crate::sigcall::Handler>,
)
    requires
        crate::router::management_answer(answer, request, registry),
        crate::text::after_separator(request.call) == "list"@,
    ensures
        answer.len() > 0,
        forall|k: int|
            0 <= k < answer.len() - 1 ==> {
                let name = (#[trigger] answer[k]).data["name"@]->String_0;
                &&& answer[k].status == Status::Item
                &&& registry.contains_key(name)
                &&& answer[k].data == map![
                    "name"@ => Json::String(name),
                    "owner"@ => Json::String(registry[name].owner),
                ]
            },
        forall|name: Seq<char>| #[trigger]
            registry.contains_key(name) ==> exists|k: int|
                0 <= k < answer.len() - 1 && (#[trigger] answer[k]).data["name"@] == Json::String(
                    name,
                ),
        forall|k: int, l: int|
            0 <= k < l < answer.len() - 1 ==> (#[trigger] answer[k]).data["name"@] != (
            #[trigger] answer[l]).data["name"@],
        answer.last().status == Status::Done,
        answer.last().data == Map::<Seq<char>, Json>::empty(),
{
    reveal_strlit("name");
    reveal_strlit("owner");
    assert("name"@.len() == 4 && "owner"@.len() == 5);
    let list = choose|list: Seq<(String, String)>|
        crate::sigcall::lists(list, registry) && #[trigger] crate::router::listing(
            answer,
            request,
            list,
        );
    assert forall|k: int| 0 <= k < answer.len() - 1 implies {
        let name = (#[trigger] answer[k]).data["name"@]->String_0;
        &&& answer[k].status == Status::Item
        &&& registry.contains_key(name)
        &&& answer[k].data == map![
            "name"@ => Json::String(name),
            "owner"@ => Json::String(registry[name].owner),
        ]
        &&& answer[k].data["name"@] == Json::String(list[k].0@)
    } by {
        assert(crate::frame::is_response(
            answer[k],
            request,
            Status::Item,
            crate::router::handler_data(list[k].0@, list[k].1@),
        ));
        assert(registry.contains_key(list[k].0@));
    }
    assert forall|name: Seq<char>| #[trigger] registry.contains_key(name) implies exists|k: int|
        0 <= k < answer.len() - 1 && (#[trigger] answer[k]).data["name"@] == Json::String(name) by {
        let k = choose|k: int| 0 <= k < list.len() && (#[trigger] list[k]).0@ == name;
        assert(answer[k].data["name"@] == Json::String(name));
    }
    assert forall|k: int, l: int| 0 <= k < l < answer.len() - 1 implies (
    #[trigger] answer[k]).data["name"@] != (#[trigger] answer[l]).data["name"@] by {
        assert(list[k].0@ != list[l].0@);
        assert(answer[k].data["name"@] == Json::String(list[k].0@));
        assert(answer[l].data["name"@] == Json::String(list[l].0@));
    }
}

/// A response to a pending request goes to each subscriber once, in order and
/// unchanged. If it ends the stream, the request is neither pending nor active any
/// more; otherwise nothing changes.
pub proof fn law_responses_to_pending_requests(
    router: &mut Router,
    frame: &Frame,
    actions: Vec<Action>,
    id: FrameId,
    i: int,
)
    requires
        call_ensures(Router::route, (router, frame), actions),
        frame.status != Status::Request,
        frame.status != Status::Cancel,
        frame.parent_id == Some(id),
        old(router)@.pending.contains(id),
    ensures
        actions@.len() == old(router)@.subscribers,
        0 <= i < actions@.len() ==> (actions@[i] matches Action::Deliver {
            subscriber,
            frame: sent,
        } && subscriber == i && sent@ == frame@),
        frame.status == Status::Done || frame.status == Status::Error ==> final(router)@.pending
            == old(router)@.pending.remove(id) && final(router)@.active == old(router)@.active.remove(id),
        frame.status == Status::Item || frame.status == Status::Bulk ==> final(router)@ == old(router)@,
{
    let views = crate::router::actions_view(actions@);
    assert(crate::router::routed(old(router)@, final(router)@, frame@, views));
    assert(views.len() == actions@.len());
    if 0 <= i < actions@.len() {
        assert(views[i] == actions@[i]@);
    }
}

/// Any other response is dropped, and nothing changes.
pub proof fn law_other_responses_are_dropped(
    router: &mut Router,
    frame: &Frame,
    actions: Vec<Action>,
)
    requires
        call_ensures(Router::route, (router, frame), actions),
        frame.status != Status::Request,
        frame.status != Status::Cancel,
        frame.parent_id is None || !old(router)@.pending.contains(frame.parent_id->0),
    ensures
        actions@.len() == 0,
        final(router)@ == old(router)@,
{
    let views = crate::router::actions_view(actions@);
    assert(crate::router::routed(old(router)@, final(router)@, frame@, views));
    assert(views.len() == actions@.len());
}

/// Cancelling an active request, whoever serves it: its token is triggered, and
/// then the cancel frame is handed once to the very sender that the request was
/// forwarded to. The token that its token table keeps for it is triggered, too,
/// and no other. The request is neither pending nor active any more, and no other
/// request changes. The subscribers get nothing.
pub proof fn law_cancelling_active_requests(
    router: &mut Router,
    frame: &Frame,
    actions: Vec<Action>,
    id: FrameId,
    table: int,
)
    requires
        call_ensures(Router::route, (router, frame), actions),
        frame.status == Status::Cancel,
        frame.parent_id == Some(id),
        old(router)@.active.contains_key(id),
        old(router)@.active[id].hook matches Some(hook) ==> hook < old(router)@.tokens.len(),
        0 <= table < old(router)@.tokens.len(),
    ensures
        actions@.len() == 0,
        crate::channel::triggered(old(router)@.active[id].cancel),
        exists|outcome: TrySend|
            {
                &&& #[trigger] crate::channel::tried(
                    old(router)@.active[id].subsystem_tx,
                    frame@,
                    outcome,
                )
                &&& final(router)@.record == old(router)@.record.push(
                    Handing::Triggered { token: old(router)@.active[id].cancel },
                ).push(
                    Handing::Tried {
                        tx: old(router)@.active[id].subsystem_tx,
                        frame: frame@,
                        outcome,
                    },
                )
            },
        final(router)@.pending == old(router)@.pending.remove(id),
        final(router)@.active == old(router)@.active.remove(id),
        ({
            let before = old(router)@.tokens[table];
            let after = final(router)@.tokens[table];
            let named = match old(router)@.active[id].hook {
                Some(hook) => hook == table,
                None => false,
            };
            &&& named && before.live.contains_key(id) ==> {
                &&& crate::channel::triggered(before.live[id])
                &&& after.record == before.record.push(
                    Handing::Triggered { token: before.live[id] },
                )
                &&& after.live == before.live.remove(id)
            }
            &&& !(named && before.live.contains_key(id)) ==> after == before
        }),
{
    let views = crate::router::actions_view(actions@);
    let before = old(router)@;
    assert(crate::router::routed(before, final(router)@, frame@, views));
    assert(views.len() == actions@.len());
    let outcome = choose|outcome: TrySend|
        {
            &&& #[trigger] crate::channel::tried(before.active[id].subsystem_tx, frame@, outcome)
            &&& final(router)@ == (Routing {
                record: before.record + crate::router::cancel_record(
                    before.active[id],
                    frame@,
                    outcome,
                ),
                ..before.cancelled(id)
            })
        };
    assert(crate::channel::tried(before.active[id].subsystem_tx, frame@, outcome));
    assert(final(router)@.record =~= before.record.push(
        Handing::Triggered { token: before.active[id].cancel },
    ).push(
        Handing::Tried { tx: before.active[id].subsystem_tx, frame: frame@, outcome },
    ));
}

/// Cancelling anything else does nothing.
pub proof fn law_cancelling_other_requests(
    router: &mut Router,
    frame: &Frame,
    actions: Vec<Action>,
)
    requires
        call_ensures(Router::route, (router, frame), actions),
        frame.status == Status::Cancel,
        frame.parent_id is None || (!old(router)@.active.contains_key(frame.parent_id->0) && !old(router)@.pending.contains(frame.parent_id->0)),
    ensures
        actions@.len() == 0,
        final(router)@ == old(router)@,
{
    let views = crate::router::actions_view(actions@);
    assert(crate::router::routed(old(router)@, final(router)@, frame@, views));
    assert(views.len() == actions@.len());
    assert(final(router)@ =~= old(router)@);
}

/// A frame leaves all requests alone but the one that it is, or names.
pub proof fn law_routing_leaves_other_requests(
    router: &mut Router,
    frame: &Frame,
    actions: Vec<Action>,
    other: FrameId,
)
    requires
        call_ensures(Router::route, (router, frame), actions),
        frame.status == Status::Request ==> frame.id != other,
        frame.status != Status::Request ==> frame.parent_id != Some(other),
    ensures
        final(router)@.pending.contains(other) == old(router)@.pending.contains(other),
        final(router)@.active.contains_key(other) == old(router)@.active.contains_key(other),
        old(router)@.active.contains_key(other) ==> final(router)@.active[other] == old(router)@.active[other],
{
    let views = crate::router::actions_view(actions@);
    assert(crate::router::routed(old(router)@, final(router)@, frame@, views));
}

/// A request and then its cancellation, whatever was routed in between that does
/// not concern it: the cancel frame is handed to where the request was forwarded
/// to, and the token that was made for the request is triggered.
pub proof fn law_cancel_follows_the_request(
    router: &mut Router,
    request: &Frame,
    forwarded: Vec<Action>,
    later: &mut Router,
    cancel: &Frame,
    nothing: Vec<Action>,
)
    requires
        call_ensures(Router::route, (router, request), forwarded),
        call_ensures(Router::route, (later, cancel), nothing),
        request.status == Status::Request,
        forwarded@.len() > 0,
        forwarded@[0] is Forward,
        old(later)@.active.contains_key(request.id),
        old(later)@.active[request.id] == final(router)@.active[request.id],
        cancel.status == Status::Cancel,
        cancel.parent_id == Some(request.id),
    ensures
        exists|outcome: TrySend|
            {
                &&& #[trigger] crate::channel::tried(forwarded@[0]->to, cancel@, outcome)
                &&& final(later)@.record.len() == old(later)@.record.len() + 2
                &&& final(later)@.record.last() == (Handing::Tried {
                    tx: forwarded@[0]->to,
                    frame: cancel@,
                    outcome,
                })
            },
        crate::channel::triggered(final(router)@.active[request.id].cancel),
        !final(later)@.pending.contains(request.id),
        !final(later)@.active.contains_key(request.id),
{
    let views = crate::router::actions_view(forwarded@);
    assert(crate::router::routed(old(router)@, final(router)@, request@, views));
    assert(views.len() == forwarded@.len());
    assert(views[0] == forwarded@[0]@);
    crate::router::law_forwarded_requests_are_awaited(
        old(router)@,
        final(router)@,
        request@,
        views,
        cancel@,
    );
    assert(views[0] == (ActionView::Forward {
        to: final(router)@.active[request.id].subsystem_tx,
        frame: request@,
    }));
    let before = old(later)@;
    assert(crate::router::routed(
        before,
        final(later)@,
        cancel@,
        crate::router::actions_view(nothing@),
    ));
}

/// The answer to a request to the kernel itself is of its handlers and of its call:
/// a list of them, or one error frame. Each frame has its own draw.
pub proof fn law_answers(
    sigcalls: SigcallRegistry,
    frame: &Frame,
    draws: &mut Draws,
    answer: Vec<Frame>,
    verb: Seq<char>,
    k: int,
    name: Seq<char>,
)
    requires
        call_ensures(crate::router::answer_management, (&sigcalls, frame, draws), answer),
        frame.call@ == "sigcall"@ + seq![':'] + verb,
    ensures
        answer@.len() > 0,
        final(draws)@.len() == old(draws)@.len() + answer@.len(),
        0 <= k < answer@.len() ==> answer@[k].parent_id == Some(frame.id) && answer@[k].call@
            == frame.call@ && answer@[k]@.trace == frame@.trace && answer@[k].from is None && final(draws)@[old(draws)@.len() + k] == answer@[k].id,
        verb == "list"@ ==> {
            &&& answer@.last().status == Status::Done
            &&& 0 <= k < answer@.len() - 1 ==> {
                let named = answer@[k]@.data["name"@]->String_0;
                &&& answer@[k].status == Status::Item
                &&& sigcalls@.contains_key(named)
                &&& answer@[k]@.data == map![
                    "name"@ => Json::String(named),
                    "owner"@ => Json::String(sigcalls@[named].owner),
                ]
            }
            &&& sigcalls@.contains_key(name) ==> exists|j: int|
                0 <= j < answer@.len() - 1 && (#[trigger] answer@[j])@.data["name"@]
                    == Json::String(name)
        },
        verb == "register"@ || verb == "unregister"@ ==> answer@.len() == 1
            && answer@[0].status == Status::Error && answer@[0]@.data["message"@] == Json::String(
            "sigcall:register and sigcall:unregister must be called through the SigcallRegistry API directly"@,
        ),
        verb != "list"@ && verb != "register"@ && verb != "unregister"@ ==> answer@.len() == 1
            && answer@[0].status == Status::Error && answer@[0]@.data["message"@] == Json::String(
            "unknown sigcall operation: "@ + verb,
        ),
{
    reveal_strlit("sigcall");
    reveal_strlit("list");
    reveal_strlit("register");
    reveal_strlit("unregister");
    reveal_strlit("code");
    reveal_strlit("message");
    reveal_strlit("retryable");
    assert(!"sigcall"@.contains(':'));
    assert("list"@.len() == 4 && "register"@.len() == 8 && "unregister"@.len() == 10);
    assert("code"@.len() == 4 && "message"@.len() == 7 && "retryable"@.len() == 9);
    crate::laws::frames::lemma_split_at("sigcall"@, verb);
    let views = crate::pipe::frames_view(answer@);
    assert(views.len() == answer@.len());
    crate::router::law_answers_end_once(views, frame@, sigcalls@);
    assert(views.last() == answer@.last()@);
    if 0 <= k < answer@.len() {
        assert(views[k] == answer@[k]@);
        assert(crate::frame::frame_ids(views)[k] == answer@[k].id);
        lemma_answer_responds(views, frame@, sigcalls@, k);
        assert(crate::frame::text_view(answer@[k].from) == None::<Seq<char>>);
    }
    assert(views[0] == answer@[0]@);
    if verb == "list"@ {
        lemma_listing(views, frame@, sigcalls@);
        if sigcalls@.contains_key(name) {
            let j = choose|j: int|
                0 <= j < views.len() - 1 && (#[trigger] views[j]).data["name"@] == Json::String(
                    name,
                );
            assert(answer@[j]@.data["name"@] == Json::String(name));
        }
    }
}

} // verus!
