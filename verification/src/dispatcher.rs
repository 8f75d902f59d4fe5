use vstd::prelude::*;

use crate::context::Context;
use crate::data::{Data, Module};
use crate::middleware::Middleware;
use crate::router::{spec_subs_handled, spec_subs_plan, Action, Router};
use crate::update::Update;

verus! {

/// Whether the update was sent by the account the engine acts as: its
/// sender is a user whose id equals the resolved own identity's id.
pub open spec fn spec_is_own_update(update: Update, ctx: Context) -> bool {
    match (update.spec_sender(), ctx.me) {
        (Some(chat), Some(identity)) => chat.kind is User && chat.id == identity.id,
        _ => false,
    }
}

/// Whether an accepted update is discarded without dispatch: self-filtering
/// is on and the update comes from the engine's own account.
pub open spec fn spec_discards(d: Dispatcher, ctx: Context, update: Update) -> bool {
    d.ignore_updates_from_self && spec_is_own_update(update, ctx)
}

/// The state of the event-acceptance loop: whether new updates are still
/// accepted, and how many per-update tasks were spawned and completed.
#[derive(Clone, Copy, Debug, PartialEq, Eq, Structural)]
pub struct RunState {
    pub accepting: bool,
    pub spawned: u64,
    pub completed: u64,
}

impl RunState {
    /// No task outruns its spawning.
    pub open spec fn spec_wf(self) -> bool {
        self.completed <= self.spawned
    }

    /// The loop may return only when acceptance has stopped and every
    /// spawned task has completed.
    pub open spec fn spec_can_finish(self) -> bool {
        !self.accepting && self.completed == self.spawned
    }

    /// The state at the start of the run loop.
    pub fn start() -> (r: RunState)
        ensures
            r.accepting,
            r.spawned == 0,
            r.completed == 0,
            r.spec_wf(),
    {
        RunState { accepting: true, spawned: 0, completed: 0 }
    }

    /// React to the shutdown signal: stop accepting new updates; tasks
    /// already spawned keep running.
    pub fn on_shutdown(self) -> (r: RunState)
        ensures
            r == spec_step(self, LoopEvent::Shutdown),
            !r.accepting,
            r.spawned == self.spawned,
            r.completed == self.completed,
            self.spec_wf() ==> r.spec_wf(),
    {
        RunState { accepting: false, ..self }
    }

    /// React to a per-update task finishing.
    pub fn on_task_done(self) -> (r: RunState)
        requires
            self.completed < self.spawned,
        ensures
            r == spec_step(self, LoopEvent::TaskDone),
            r.accepting == self.accepting,
            r.spawned == self.spawned,
            r.completed == self.completed + 1,
            r.spec_wf(),
    {
        RunState { completed: self.completed + 1, ..self }
    }

    /// Whether the loop may return.
    pub fn can_finish(&self) -> (r: bool)
        ensures
            r == self.spec_can_finish(),
    {
        !self.accepting && self.completed == self.spawned
    }
}


/// One observable step of the acceptance loop, for stating its laws.
#[derive(Clone, Copy, Debug, PartialEq, Eq, Structural)]
pub enum LoopEvent {
    /// An update was accepted and its task spawned.
    Accept,
    /// The shutdown signal arrived.
    Shutdown,
    /// One per-update task finished.
    TaskDone,
}

/// How one event moves the loop state; an event whose guard does not hold
/// leaves the state unchanged.
pub open spec fn spec_step(s: RunState, ev: LoopEvent) -> RunState {
    match ev {
        LoopEvent::Accept => if s.accepting && s.spawned < u64::MAX {
            RunState { spawned: (s.spawned + 1) as u64, ..s }
        } else {
            s
        },
        LoopEvent::Shutdown => RunState { accepting: false, ..s },
        LoopEvent::TaskDone => if s.completed < s.spawned {
            RunState { completed: (s.completed + 1) as u64, ..s }
        } else {
            s
        },
    }
}

/// The state after a whole sequence of events.
pub open spec fn spec_replay(s: RunState, events: Seq<LoopEvent>) -> RunState
    decreases events.len(),
{
    if events.len() == 0 {
        s
    } else {
        spec_replay(spec_step(s, events[0]), events.drop_first())
    }
}

/// Law: shutdown is final. Once acceptance has stopped, no sequence of
/// later events accepts another update — the spawned count never moves
/// again — and tasks already spawned may still complete.
pub proof fn lemma_shutdown_is_final(s: RunState, events: Seq<LoopEvent>)
    requires
        !s.accepting,
    ensures
        !spec_replay(s, events).accepting,
        spec_replay(s, events).spawned == s.spawned,
    decreases events.len(),
{
    if events.len() > 0 {
        lemma_shutdown_is_final(spec_step(s, events[0]), events.drop_first());
    }
}

/// Law: no task outruns its spawning, whatever the event order.
pub proof fn lemma_replay_wf(s: RunState, events: Seq<LoopEvent>)
    requires
        s.spec_wf(),
    ensures
        spec_replay(s, events).spec_wf(),
    decreases events.len(),
{
    if events.len() > 0 {
        lemma_replay_wf(spec_step(s, events[0]), events.drop_first());
    }
}

/// Law: the loop returns only once every spawned per-update task has
/// completed; none is dropped.
pub proof fn lemma_finish_drains(state: RunState)
    requires
        state.spec_can_finish(),
    ensures
        state.completed == state.spawned,
        !state.accepting,
{
}

/// The root of the dispatch tree: top-level routers, middlewares and
/// modules, and the self-filtering toggle for the event loop.
#[derive(Debug, PartialEq)]
pub struct Dispatcher {
    pub data: Data,
    pub middlewares: Vec<Middleware>,
    pub routers: Vec<Router>,
    pub ignore_updates_from_self: bool,
}

impl Default for Dispatcher {
    fn default() -> (r: Self)
        ensures
            r.data.modules@ =~= Seq::<Module>::empty(),
            r.middlewares@ =~= Seq::<Middleware>::empty(),
            r.routers@ =~= Seq::<Router>::empty(),
            !r.ignore_updates_from_self,
    {
        Dispatcher {
            data: Data::new(),
            middlewares: Vec::new(),
            routers: Vec::new(),
            ignore_updates_from_self: false,
        }
    }
}

impl Dispatcher {
    pub fn new() -> (r: Self)
        ensures
            r.data.modules@ =~= Seq::<Module>::empty(),
            r.middlewares@ =~= Seq::<Middleware>::empty(),
            r.routers@ =~= Seq::<Router>::empty(),
            !r.ignore_updates_from_self,
    {
        Dispatcher {
            data: Data::new(),
            middlewares: Vec::new(),
            routers: Vec::new(),
            ignore_updates_from_self: false,
        }
    }

    /// Attach a middleware; routers attached later inherit it. It has no
    /// effect on routers attached earlier.
    pub fn add_middleware(self, middleware: Middleware) -> (r: Dispatcher)
        ensures
            r.data == self.data,
            r.middlewares@ == self.middlewares@.push(middleware),
            r.routers@ == self.routers@,
            r.ignore_updates_from_self == self.ignore_updates_from_self,
    {
        let mut this = self;
        this.middlewares.push(middleware);
        this
    }

    /// Attach a module; routers attached later inherit it. It has no
    /// effect on routers attached earlier.
    pub fn add_module(self, module: Module) -> (r: Dispatcher)
        ensures
            r.data.modules@ == self.data.modules@.push(module),
            r.middlewares@ == self.middlewares@,
            r.routers@ == self.routers@,
            r.ignore_updates_from_self == self.ignore_updates_from_self,
    {
        let mut this = self;
        this.data.push_module(module);
        this
    }

    /// Attach a top-level router. It inherits copies of the dispatcher's
    /// current modules and middlewares, after its own; later attachments
    /// do not propagate to it.
    pub fn add_router(self, router: Router) -> (r: Dispatcher)
        ensures
            r.data == self.data,
            r.middlewares@ == self.middlewares@,
            r.ignore_updates_from_self == self.ignore_updates_from_self,
            r.routers@.len() == self.routers@.len() + 1,
            forall|i: int| 0 <= i < self.routers@.len() ==> r.routers@[i] == self.routers@[i],
            ({
                let child = r.routers@.last();
                &&& child.data.modules@ == router.data.modules@ + self.data.modules@
                &&& child.handlers@ == router.handlers@
                &&& child.middlewares@ == router.middlewares@ + self.middlewares@
                &&& child.sub_routers@ == router.sub_routers@
            }),
    {
        let mut this = self;
        let mut child = router;
        let ghost child_mods = child.data.modules@;
        let ghost child_mids = child.middlewares@;
        let ghost child_hs = child.handlers@;
        let ghost child_subs = child.sub_routers@;
        proof {
            assert(child.data.modules@ =~= child_mods + this.data.modules@.take(0));
        }
        let mut i: usize = 0;
        while i < this.data.modules.len()
            invariant
                0 <= i <= this.data.modules@.len(),
                child.data.modules@ == child_mods + this.data.modules@.take(i as int),
                child.handlers@ == child_hs,
                child.middlewares@ == child_mids,
                child.sub_routers@ == child_subs,
            decreases this.data.modules@.len() - i,
        {
            child.data.push_module(this.data.modules[i]);
            proof {
                assert((child_mods + this.data.modules@.take(i as int)).push(
                    this.data.modules@[i as int],
                ) =~= child_mods + this.data.modules@.take(i as int + 1));
            }
            i = i + 1;
        }
        proof {
            assert(this.data.modules@.take(this.data.modules@.len() as int) =~= this.data.modules@);
            assert(child_mids =~= child_mids + this.middlewares@.take(0));
        }
        let mut j: usize = 0;
        while j < this.middlewares.len()
            invariant
                0 <= j <= this.middlewares@.len(),
                child.data.modules@ == child_mods + this.data.modules@,
                child.handlers@ == child_hs,
                child.middlewares@ == child_mids + this.middlewares@.take(j as int),
                child.sub_routers@ == child_subs,
            decreases this.middlewares@.len() - j,
        {
            child.middlewares.push(this.middlewares[j]);
            proof {
                assert((child_mids + this.middlewares@.take(j as int)).push(
                    this.middlewares@[j as int],
                ) =~= child_mids + this.middlewares@.take(j as int + 1));
            }
            j = j + 1;
        }
        proof {
            assert(this.middlewares@.take(this.middlewares@.len() as int) =~= this.middlewares@);
        }
        this.routers.push(child);
        this
    }

    /// Toggle self-filtering: when on, updates sent by the engine's own
    /// account are discarded without dispatch.
    pub fn ignore_updates_from_self(self, value: bool) -> (r: Dispatcher)
        ensures
            r.data == self.data,
            r.middlewares@ == self.middlewares@,
            r.routers@ == self.routers@,
            r.ignore_updates_from_self == value,
    {
        let mut this = self;
        this.ignore_updates_from_self = value;
        this
    }

    /// Whether the update was sent by the engine's own account.
    pub fn is_own_update(&self, ctx: &Context, update: &Update) -> (r: bool)
        ensures
            r == spec_is_own_update(*update, *ctx),
    {
        match update.get_sender() {
            Some(chat) => {
                match &ctx.me {
                    Some(identity) => matches!(chat.kind, crate::update::ChatKind::User)
                        && chat.id == identity.id,
                    None => false,
                }
            },
            None => false,
        }
    }

    /// Dispatch one update over the top-level routers, in attachment
    /// order, stopping at the first that handles it.
    pub fn handle_update(&self, ctx: &Context, update: &Update, actions: &mut Vec<Action>) -> (
        handled: bool)
        ensures
            handled == spec_subs_handled(self.routers@, *ctx, *update),
            final(actions)@ == old(actions)@ + spec_subs_plan(self.routers@, *ctx, *update),
    {
        proof {
            assert(self.routers@.skip(0) =~= self.routers@);
        }
        Router::handle_subs(&self.routers, 0, ctx, update, actions)
    }

    /// Accept one update from the source: discard it when self-filtering
    /// applies, otherwise spawn its dispatch. Returns the next loop state
    /// and, when dispatched, whether some handler took the update.
    pub fn accept_update(
        &self,
        state: RunState,
        ctx: &Context,
        update: &Update,
        actions: &mut Vec<Action>,
    ) -> (r: (RunState, Option<bool>))
        requires
            state.accepting,
            state.spawned < u64::MAX,
        ensures
            spec_discards(*self, *ctx, *update) ==> r.0 == state && r.1 is None
                && final(actions)@ == old(actions)@,
            !spec_discards(*self, *ctx, *update) ==> {
                &&& r.0 == spec_step(state, LoopEvent::Accept)
                &&& r.0 == (RunState { spawned: (state.spawned + 1) as u64, ..state })
                &&& r.1 == Some(spec_subs_handled(self.routers@, *ctx, *update))
                &&& final(actions)@ == old(actions)@ + spec_subs_plan(self.routers@, *ctx, *update)
            },
            state.spec_wf() ==> r.0.spec_wf(),
            r.0.accepting,
    {
        if self.ignore_updates_from_self && self.is_own_update(ctx, update) {
            (state, None)
        } else {
            let handled = self.handle_update(ctx, update, actions);
            (RunState { spawned: state.spawned + 1, ..state }, Some(handled))
        }
    }
}

/// Law: a self-update is discarded whole — nothing is scheduled for it, so
/// no handler, middleware or module hook runs anywhere in the tree. With
/// self-filtering off, every update is dispatched normally.
pub proof fn lemma_self_filter(d: Dispatcher, ctx: Context, update: Update)
    ensures
        d.ignore_updates_from_self && spec_is_own_update(update, ctx) ==> spec_discards(
            d,
            ctx,
            update,
        ),
        !d.ignore_updates_from_self ==> !spec_discards(d, ctx, update),
{
}

} // verus!
