//! The message bus: one end-to-end `handle(command)`.
//!
//! The command's type resolves to exactly one handler, which runs
//! inside its own unit of work; only a command failure surfaces to the
//! caller.  The events the commit queued are then drained breadth
//! first: each event's topic resolves to its registered handlers, run
//! in order — a `StopSentinel` truncates the remaining handlers of that
//! event only, any other handler failure is logged and skipped, and a
//! topic nobody registered for is skipped.  Nothing in the drain can
//! undo the committed command.

use vstd::prelude::*;

use crate::bootstrap::{CommandHandlerKind, Dependency, EventHandlerKind, CommandHandlerMap, EventHandlerMap};
use crate::commands::{spec_kind_of, ApplicationCommand, ApplicationCommandV, ServiceResponse, ServiceResponseV};
use crate::database::{ContextManager, ContextManagerV};
use crate::errors::ApplicationError;
use crate::entity::CommentV;
use crate::events::{spec_topic, BoardCreatedV, BoardEvent, BoardEventV};
use crate::json::json_created;
use crate::handlers::{
    created_event_of, spec_add_comment_ok, spec_board_statement_refused, spec_create_board_ok,
    spec_edit_board_ok, spec_edit_comment_ok, spec_marked_outbox, EventHandler, ServiceHandler,
};
use crate::repository::{has_board, has_comment};

verus! {

/// How many handlers of the list run (and are counted): all of them up
/// to, and not including, the first that signals the stop sentinel.
pub open spec fn runs_for(hs: Seq<EventHandlerKind>) -> nat
    decreases hs.len(),
{
    if hs.len() == 0 {
        0
    } else if hs[0] is StopHandler {
        0
    } else {
        1 + runs_for(hs.drop_first())
    }
}

/// One count of the book-keeper, which is saturating.
pub open spec fn bk_bump(b: u64) -> u64 {
    if b < u64::MAX {
        (b + 1) as u64
    } else {
        b
    }
}

/// `n` counts of the book-keeper.
pub open spec fn bk_add(b: u64, n: nat) -> u64
    decreases n,
{
    if n == 0 {
        b
    } else {
        bk_add(bk_bump(b), (n - 1) as nat)
    }
}

/// The handler runs one dispatched event causes.
pub open spec fn dispatch_count(map: EventHandlerMap, topic: Seq<char>) -> nat {
    match map.spec_lookup(topic) {
        None => 0,
        Some(hs) => runs_for(hs),
    }
}

/// The book-keeper after draining the queue front to back.
pub open spec fn bk_drain(b: u64, evs: Seq<BoardEventV>, map: EventHandlerMap) -> u64
    decreases evs.len(),
{
    if evs.len() == 0 {
        b
    } else {
        bk_drain(bk_add(b, dispatch_count(map, spec_topic(evs[0]))), evs.drop_first(), map)
    }
}

proof fn lemma_bk_add_snoc(b: u64, n: nat)
    ensures
        bk_add(b, n + 1) == bk_bump(bk_add(b, n)),
    decreases n,
{
    if n == 0 {
        assert(bk_add(b, 1) == bk_add(bk_bump(b), 0));
        assert(bk_add(bk_bump(b), 0) == bk_bump(b));
    } else {
        lemma_bk_add_snoc(bk_bump(b), (n - 1) as nat);
        assert(bk_add(b, n + 1) == bk_add(bk_bump(b), n));
        assert(bk_add(b, n) == bk_add(bk_bump(b), (n - 1) as nat));
    }
}

/// The count stops exactly at the first stop sentinel, or at the end.
pub proof fn lemma_runs_for_at(hs: Seq<EventHandlerKind>, k: int)
    requires
        0 <= k <= hs.len(),
        forall|j: int| 0 <= j < k ==> !((#[trigger] hs[j]) is StopHandler),
        k == hs.len() || hs[k] is StopHandler,
    ensures
        runs_for(hs) == k,
    decreases k,
{
    if k == 0 {
    } else {
        assert(!(hs[0] is StopHandler));
        let hs1 = hs.drop_first();
        assert(forall|j: int| 0 <= j < k - 1 ==> hs1[j] == hs[j + 1]);
        lemma_runs_for_at(hs1, k - 1);
    }
}

/// One invocation's context view with its queue replaced: what the
/// context looked like before the drain emptied it.
pub open spec fn with_queue(cm: ContextManagerV, evs: Seq<BoardEventV>) -> ContextManagerV {
    ContextManagerV { events: evs, ..cm }
}

/// Orchestrates command dispatch, the unit of work, and the event
/// drain.  `book_keeper` counts the event-handler runs, saturating.
/// `dispatched` is the journal of every event the drain dispatched, in
/// dispatch order: the queue is consumed from the front and anything an
/// event handler raises joins at the back, so the journal extends in
/// first-in, first-out order.
pub struct MessageBus {
    pub book_keeper: u64,
    pub command_handler: CommandHandlerMap,
    pub event_handler: EventHandlerMap,
    pub dispatched: Ghost<Seq<BoardEventV>>,
}

/// Every registered command handler is the one for its command type,
/// so a resolved handler can be executed without reflection.
pub open spec fn bus_wf(bus: MessageBus) -> bool {
    bus.command_handler.wf()
}

/// Runs one registered event handler on one event.  None of them
/// changes the context; which ones succeed is fixed by their kind.
fn run_event_handler(
    handler: EventHandlerKind,
    event: &BoardEvent,
    context: &mut ContextManager,
) -> (r: Result<ServiceResponse, ApplicationError>)
    requires
        old(context)@.executor.transaction is None,
    ensures
        final(context)@ == old(context)@,
        match handler {
            EventHandlerKind::TestEventHandler => r is Ok,
            EventHandlerKind::TestEventHandler2 => r is Ok,
            EventHandlerKind::StopHandler => r matches Err(e) && e is StopSentinel,
            EventHandlerKind::FailingHandler => r matches Err(e) && e is DatabaseConnectionError,
        },
{
    match handler {
        EventHandlerKind::TestEventHandler => {
            let dependency = Dependency::new();
            EventHandler::test_event_handler(event.message_clone(), context, &dependency)
        },
        EventHandlerKind::TestEventHandler2 => {
            EventHandler::test_event_handler2(event.message_clone(), context)
        },
        EventHandlerKind::StopHandler => Err(ApplicationError::StopSentinel),
        EventHandlerKind::FailingHandler => Err(
            ApplicationError::DatabaseConnectionError("event handler failure".to_owned()),
        ),
    }
}

impl MessageBus {
    pub fn new(command_handler: CommandHandlerMap, event_handler: EventHandlerMap) -> (r:
        MessageBus)
        ensures
            r.book_keeper == 0,
            r.command_handler == command_handler,
            r.event_handler == event_handler,
            r.dispatched@ == Seq::<BoardEventV>::empty(),
    {
        MessageBus {
            book_keeper: 0,
            command_handler,
            event_handler,
            dispatched: Ghost(Seq::empty()),
        }
    }

    /// Dispatches one event to its topic's handlers, in registration
    /// order.  A topic nobody registered for is the routing miss the
    /// drain loop skips; a stop sentinel truncates the remaining
    /// handlers of this event; any other handler failure is skipped.
    /// The book-keeper counts each handler that ran past the sentinel
    /// check.
    #[verifier::loop_isolation(false)]
    pub fn handle_event(&mut self, msg: &BoardEvent, context: &mut ContextManager) -> (r: Result<
        (),
        ApplicationError,
    >)
        requires
            old(context)@.executor.transaction is None,
        ensures
            final(self).command_handler == old(self).command_handler,
            final(self).event_handler == old(self).event_handler,
            final(self).dispatched@ == old(self).dispatched@.push(msg@),
            final(context)@ == old(context)@,
            match old(self).event_handler.spec_lookup(spec_topic(msg@)) {
                None => (r matches Err(e) && e is EventNotFound) && final(self).book_keeper
                    == old(self).book_keeper,
                Some(hs) => r is Ok && final(self).book_keeper == bk_add(
                    old(self).book_keeper,
                    runs_for(hs),
                ),
            },
    {
        self.dispatched = Ghost(self.dispatched@.push(msg@));
        let metadata = msg.metadata();
        let handlers = match self.event_handler.lookup_event(&metadata.topic) {
            Ok(hs) => hs,
            Err(e) => {
                return Err(e);
            },
        };
        let ghost hs = handlers@;
        let ghost b0 = self.book_keeper;
        let ghost pre = context@;
        let n = handlers.len();
        let mut i: usize = 0;
        while i < n
            invariant
                i <= n,
                n == handlers@.len(),
                hs == handlers@,
                context@ == pre,
                pre.executor.transaction is None,
                self.command_handler == old(self).command_handler,
                self.event_handler == old(self).event_handler,
                self.dispatched@ == old(self).dispatched@.push(msg@),
                self.book_keeper == bk_add(b0, i as nat),
                forall|j: int| 0 <= j < i ==> !((#[trigger] hs[j]) is StopHandler),
            decreases n - i,
        {
            let result = run_event_handler(handlers[i], msg, context);
            let mut halted = false;
            match &result {
                Err(ApplicationError::StopSentinel) => {
                    halted = true;
                },
                _ => {},
            }
            if halted {
                proof {
                    assert(hs[i as int] is StopHandler);
                    lemma_runs_for_at(hs, i as int);
                }
                return Ok(());
            }
            proof {
                assert(!(hs[i as int] is StopHandler));
                lemma_bk_add_snoc(b0, i as nat);
            }
            if self.book_keeper < u64::MAX {
                self.book_keeper = self.book_keeper + 1;
            }
            i = i + 1;
        }
        proof {
            lemma_runs_for_at(hs, n as int);
        }
        Ok(())
    }

    /// One end-to-end invocation: resolve the command's handler, run it
    /// in a unit of work, drain the event queue breadth first, return
    /// the command's response.  Only command-phase failures surface;
    /// the context always comes back with no open transaction and an
    /// empty queue.
    #[verifier::loop_isolation(false)]
    #[verifier::rlimit(60)]
    pub fn handle(&mut self, message: ApplicationCommand, context: &mut ContextManager) -> (r:
        Result<ServiceResponse, ApplicationError>)
        requires
            bus_wf(*old(self)),
            old(context)@.executor.transaction is None,
            old(context)@.events == Seq::<BoardEventV>::empty(),
        ensures
            final(self).command_handler == old(self).command_handler,
            final(self).event_handler == old(self).event_handler,
            bus_wf(*final(self)),
            final(context)@.executor.transaction is None,
            final(context)@.events == Seq::<BoardEventV>::empty(),
            !old(self).command_handler.spec_registered(spec_kind_of(message@)) ==> (
            r matches Err(e) && e is CommandNotFound) && final(context)@ == old(context)@
                && final(self).book_keeper == old(self).book_keeper && final(self).dispatched@
                == old(self).dispatched@,
            r is Err ==> final(self).dispatched@ == old(self).dispatched@,
            old(self).command_handler.spec_registered(spec_kind_of(message@)) ==> match message@ {
                ApplicationCommandV::CreateBoard(c) => match r {
                    Ok(resp) => resp@ matches ServiceResponseV::String(id) && spec_create_board_ok(
                        old(context)@,
                        with_queue(
                            final(context)@,
                            seq![BoardEventV::Created(created_event_of(c, id))],
                        ),
                        c,
                        id,
                    ) && final(self).book_keeper == bk_add(
                        old(self).book_keeper,
                        dispatch_count(old(self).event_handler, "BoardCreated"@),
                    ) && final(self).dispatched@ == old(self).dispatched@.push(
                        BoardEventV::Created(created_event_of(c, id)),
                    ),
                    Err(e) => final(context)@ == old(context)@ && e is DatabaseConnectionError
                        && final(self).book_keeper == old(self).book_keeper,
                },
                ApplicationCommandV::EditBoard(c) => final(self).book_keeper
                    == old(self).book_keeper && final(self).dispatched@ == old(self).dispatched@
                    && match r {
                    Ok(resp) => resp@ is Empty && spec_edit_board_ok(
                        old(context)@,
                        final(context)@,
                        c,
                    ),
                    Err(e) => final(context)@ == old(context)@ && ((e is EntityNotFound
                        && !has_board(old(context)@.executor.pool.boards, c.id)) || (
                    e is DatabaseConnectionError && spec_board_statement_refused(
                        old(context)@,
                        c.id,
                    ))),
                },
                ApplicationCommandV::AddComment(c) => final(self).book_keeper
                    == old(self).book_keeper && final(self).dispatched@ == old(self).dispatched@
                    && match r {
                    Ok(resp) => resp@ is Empty && spec_add_comment_ok(
                        old(context)@,
                        final(context)@,
                        c,
                    ),
                    Err(e) => final(context)@ == old(context)@ && ((e is EntityNotFound
                        && !has_board(old(context)@.executor.pool.boards, c.board_id)) || (
                    e is DatabaseConnectionError && has_board(
                        old(context)@.executor.pool.boards,
                        c.board_id,
                    ))),
                },
                ApplicationCommandV::EditComment(c) => final(self).book_keeper
                    == old(self).book_keeper && final(self).dispatched@ == old(self).dispatched@
                    && match r {
                    Ok(resp) => resp@ is Empty && spec_edit_comment_ok(
                        old(context)@,
                        final(context)@,
                        c,
                    ),
                    Err(e) => final(context)@ == old(context)@ && ((e is EntityNotFound && (
                    !has_board(old(context)@.executor.pool.boards, c.board_id) || !has_comment(
                        old(context)@.executor.pool.comments.filter(
                            (|x: CommentV| x.board_id == c.board_id),
                        ),
                        c.id,
                    ))) || (e is DatabaseConnectionError && spec_board_statement_refused(
                        old(context)@,
                        c.board_id,
                    ))),
                },
                ApplicationCommandV::HandleOutbox(o) => final(self).book_keeper
                    == old(self).book_keeper && final(self).dispatched@ == old(self).dispatched@
                    && (o.topic == "BoardCreated"@ && (exists|
                    v: BoardCreatedV,
                |
                    o.state == json_created(v)) ==> r is Ok) && match r {
                    Ok(resp) => resp@ == ServiceResponseV::Bool(true) && o.topic
                        == "BoardCreated"@ && final(context)@.executor.pool.boards
                        == old(context)@.executor.pool.boards
                        && final(context)@.executor.pool.comments
                        == old(context)@.executor.pool.comments
                        && final(context)@.executor.pool.outbox == spec_marked_outbox(
                        old(context)@.executor.pool.outbox,
                        o.id,
                    ),
                    Err(e) => final(context)@ == old(context)@ && ((e is EventNotFound && o.topic
                        != "BoardCreated"@) || (e is DeserializationError && o.topic
                        == "BoardCreated"@ && !(exists|v: BoardCreatedV|
                    o.state == json_created(v)))),
                },
            },
    {
        let ghost mv = message@;
        let ghost pre = context@;
        let kind = message.kind();
        let handler = match self.command_handler.lookup_command(kind) {
            Ok(h) => h,
            Err(e) => {
                return Err(e);
            },
        };
        proof {
            assert(crate::bootstrap::handler_matches(kind, handler));
        }
        let res = match (handler, message) {
            (CommandHandlerKind::CreateBoard, ApplicationCommand::CreateBoard(c)) => {
                match ServiceHandler::create_board(c, context) {
                    Ok(resp) => resp,
                    Err(e) => {
                        return Err(e);
                    },
                }
            },
            (CommandHandlerKind::EditBoard, ApplicationCommand::EditBoard(c)) => {
                match ServiceHandler::edit_board(c, context) {
                    Ok(resp) => resp,
                    Err(e) => {
                        return Err(e);
                    },
                }
            },
            (CommandHandlerKind::AddComment, ApplicationCommand::AddComment(c)) => {
                match ServiceHandler::add_comment(c, context) {
                    Ok(resp) => resp,
                    Err(e) => {
                        return Err(e);
                    },
                }
            },
            (CommandHandlerKind::EditComment, ApplicationCommand::EditComment(c)) => {
                match ServiceHandler::edit_comment(c, context) {
                    Ok(resp) => resp,
                    Err(e) => {
                        return Err(e);
                    },
                }
            },
            (CommandHandlerKind::HandleOutbox, ApplicationCommand::HandleOutbox(o)) => {
                match ServiceHandler::handle_outbox(o, context) {
                    Ok(resp) => resp,
                    Err(e) => {
                        return Err(e);
                    },
                }
            },
            _ => {
                proof {
                    assert(false);
                }
                return Err(ApplicationError::CommandNotFound);
            },
        };

        // Drain the queue breadth first: each event may, in principle,
        // cause new ones to be appended.
        let ghost mid = context@;
        let ghost drained = mid.events;
        let ghost b1 = self.book_keeper;
        let ghost d2 = self.dispatched@;
        let ghost exec1 = mid.executor;
        let mut queue: Vec<BoardEvent> = context.events();
        while queue.len() > 0
            invariant
                context.executor@ == exec1,
                exec1.transaction is None,
                context@.events == Seq::<BoardEventV>::empty(),
                self.command_handler == old(self).command_handler,
                self.event_handler == old(self).event_handler,
                self.dispatched@ + queue@.map_values(|e: BoardEvent| e@) == d2 + drained,
                bk_drain(
                    self.book_keeper,
                    queue@.map_values(|e: BoardEvent| e@),
                    old(self).event_handler,
                ) == bk_drain(b1, drained, old(self).event_handler),
            decreases queue@.len(),
        {
            let ghost qv = queue@.map_values(|e: BoardEvent| e@);
            let msg = queue.remove(0);
            proof {
                assert(queue@.map_values(|e: BoardEvent| e@) =~= qv.drop_first());
                assert(msg@ == qv[0]);
            }
            let ghost b_before = self.book_keeper;
            let ghost j_before = self.dispatched@;
            match self.handle_event(&msg, context) {
                _ => {},
            }
            proof {
                assert(self.book_keeper == bk_add(
                    b_before,
                    dispatch_count(old(self).event_handler, spec_topic(msg@)),
                ));
            }
            let mut fresh = context.events();
            queue.append(&mut fresh);
            proof {
                assert(queue@.map_values(|e: BoardEvent| e@) =~= qv.drop_first());
                assert(self.dispatched@ + qv.drop_first() =~= j_before + qv);
            }
        }
        proof {
            assert(queue@.map_values(|e: BoardEvent| e@) =~= Seq::<BoardEventV>::empty());
            assert(self.book_keeper == bk_drain(b1, drained, old(self).event_handler));
            assert(self.dispatched@ =~= d2 + drained);
            assert(context@ =~~= with_queue(mid, Seq::<BoardEventV>::empty()));
            if drained.len() == 0 {
                assert(context@ =~~= mid);
                assert(self.dispatched@ =~= d2);
                assert(bk_drain(b1, drained, old(self).event_handler) == b1);
            }
            match mv {
                ApplicationCommandV::CreateBoard(c) => {
                    let id0 = res@->String_0;
                    let ev = BoardEventV::Created(created_event_of(c, id0));
                    assert(spec_create_board_ok(pre, mid, c, id0));
                    assert(mid.events == pre.events.push(ev));
                    assert(drained =~= seq![ev]);
                    assert(self.dispatched@ =~= old(self).dispatched@.push(ev));
                    assert(with_queue(final(context)@, seq![ev]) =~~= mid);
                    assert(drained.drop_first() =~= Seq::<BoardEventV>::empty());
                    assert(spec_topic(ev) == "BoardCreated"@);
                    let n0 = dispatch_count(old(self).event_handler, "BoardCreated"@);
                    assert(drained[0] == ev);
                    assert(bk_drain(b1, drained, old(self).event_handler) == bk_drain(
                        bk_add(b1, n0),
                        drained.drop_first(),
                        old(self).event_handler,
                    ));
                    assert(bk_drain(
                        bk_add(b1, n0),
                        drained.drop_first(),
                        old(self).event_handler,
                    ) == bk_add(b1, n0));
                },
                _ => {
                    assert(drained =~= Seq::<BoardEventV>::empty());
                },
            }
        }
        Ok(res)
    }
}

} // verus!

verus! {

/// Law: a registered handler that signals the stop sentinel halts only
/// the handlers after it for that event's dispatch; the ones before it
/// all ran, and nothing else of the invocation is touched — the bus
/// contract keeps the command's response and committed state
/// independent of the event handlers.
pub proof fn lemma_sentinel_halts_rest(hs: Seq<EventHandlerKind>, k: int)
    requires
        0 <= k < hs.len(),
        hs[k] is StopHandler,
        forall|j: int| 0 <= j < k ==> !((#[trigger] hs[j]) is StopHandler),
    ensures
        runs_for(hs) == k,
{
    lemma_runs_for_at(hs, k);
}

} // verus!
