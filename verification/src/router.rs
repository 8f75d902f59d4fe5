use vstd::prelude::*;

use crate::context::Context;
use crate::data::{Data, Module};
use crate::handler::Handler;
use crate::middleware::{Middleware, MiddlewareType};
use crate::update::Update;

verus! {

/// One call the engine schedules while handling an update. Running the
/// named application callbacks, and surviving their failures, is the
/// embedding program's part; the engine fixes which calls happen and in
/// which order.
#[derive(Clone, Copy, Debug, PartialEq, Eq, Structural)]
pub enum Action {
    /// Run a module's before-update hook.
    ModuleAnte(Module),
    /// Run a before-middleware's callback.
    CallBefore(u64),
    /// Run the matched handler's callback.
    RunHandler(u64),
    /// Run an after-middleware's callback.
    CallAfter(u64),
    /// Run a module's after-update hook.
    ModulePost(Module),
}

/// Before-update hooks of the modules, in attachment order.
pub open spec fn antes(modules: Seq<Module>) -> Seq<Action>
    decreases modules.len(),
{
    if modules.len() == 0 {
        Seq::empty()
    } else {
        seq![Action::ModuleAnte(modules[0])] + antes(modules.drop_first())
    }
}

/// After-update hooks of the modules, in attachment order.
pub open spec fn posts(modules: Seq<Module>) -> Seq<Action>
    decreases modules.len(),
{
    if modules.len() == 0 {
        Seq::empty()
    } else {
        seq![Action::ModulePost(modules[0])] + posts(modules.drop_first())
    }
}

/// The before-phase middleware calls, in attachment order.
pub open spec fn befores(middlewares: Seq<Middleware>) -> Seq<Action>
    decreases middlewares.len(),
{
    if middlewares.len() == 0 {
        Seq::empty()
    } else {
        (if middlewares[0].mtype is Before {
            seq![Action::CallBefore(middlewares[0].mid)]
        } else {
            Seq::empty()
        }) + befores(middlewares.drop_first())
    }
}

/// The after-phase middleware calls, in attachment order.
pub open spec fn afters(middlewares: Seq<Middleware>) -> Seq<Action>
    decreases middlewares.len(),
{
    if middlewares.len() == 0 {
        Seq::empty()
    } else {
        (if middlewares[0].mtype is After {
            seq![Action::CallAfter(middlewares[0].mid)]
        } else {
            Seq::empty()
        }) + afters(middlewares.drop_first())
    }
}

/// The first handler that takes the update, if any.
pub open spec fn spec_matched(handlers: Seq<Handler>, ctx: Context, update: Update) -> Option<
    Handler,
>
    decreases handlers.len(),
{
    if handlers.len() == 0 {
        None
    } else if handlers[0].spec_handles(ctx, update) {
        Some(handlers[0])
    } else {
        spec_matched(handlers.drop_first(), ctx, update)
    }
}

/// A node of the dispatch tree: ordered handlers, middlewares, modules and
/// sub-routers. The tree is built by chained attach calls and is not
/// changed while updates are dispatched.
#[derive(Debug, PartialEq)]
pub struct Router {
    pub data: Data,
    pub handlers: Vec<Handler>,
    pub middlewares: Vec<Middleware>,
    pub sub_routers: Vec<Router>,
}

/// Whether some sub-router, tried in attachment order, handles the update.
pub open spec fn spec_subs_handled(subs: Seq<Router>, ctx: Context, update: Update) -> bool
    decreases subs, 0int,
{
    if subs.len() == 0 {
        false
    } else {
        subs[0].spec_handled(ctx, update) || spec_subs_handled(subs.drop_first(), ctx, update)
    }
}

/// The calls the sub-routers make for the update: each is tried in
/// attachment order, and the first that handles the update stops the
/// trials.
pub open spec fn spec_subs_plan(subs: Seq<Router>, ctx: Context, update: Update) -> Seq<Action>
    decreases subs, 1int,
{
    if subs.len() == 0 {
        Seq::empty()
    } else {
        subs[0].spec_plan(ctx, update) + if subs[0].spec_handled(ctx, update) {
            Seq::empty()
        } else {
            spec_subs_plan(subs.drop_first(), ctx, update)
        }
    }
}

impl Router {
    /// Whether this router handles the update: a local handler takes it,
    /// or a sub-router does.
    pub open spec fn spec_handled(self, ctx: Context, update: Update) -> bool
        decreases self, 1int,
    {
        spec_matched(self.handlers@, ctx, update) is Some || spec_subs_handled(
            self.sub_routers@,
            ctx,
            update,
        )
    }

    /// The calls this router makes for the update, in order: every local
    /// module's before-update hook; then, for the first matching handler,
    /// the before-middlewares, its callback and the after-middlewares — or,
    /// with no local match, the sub-routers' calls; and every local
    /// module's after-update hook, whatever the outcome.
    pub open spec fn spec_plan(self, ctx: Context, update: Update) -> Seq<Action>
        decreases self, 2int,
    {
        antes(self.data.modules@) + (match spec_matched(self.handlers@, ctx, update) {
            Some(h) => befores(self.middlewares@) + seq![Action::RunHandler(h.func)] + afters(
                self.middlewares@,
            ),
            None => spec_subs_plan(self.sub_routers@, ctx, update),
        }) + posts(self.data.modules@)
    }
}

impl Default for Router {
    fn default() -> (r: Self)
        ensures
            r.data.modules@ =~= Seq::<Module>::empty(),
            r.handlers@ =~= Seq::<Handler>::empty(),
            r.middlewares@ =~= Seq::<Middleware>::empty(),
            r.sub_routers@ =~= Seq::<Router>::empty(),
    {
        Router {
            data: Data::new(),
            handlers: Vec::new(),
            middlewares: Vec::new(),
            sub_routers: Vec::new(),
        }
    }
}

impl Router {
    pub fn new() -> (r: Self)
        ensures
            r.data.modules@ =~= Seq::<Module>::empty(),
            r.handlers@ =~= Seq::<Handler>::empty(),
            r.middlewares@ =~= Seq::<Middleware>::empty(),
            r.sub_routers@ =~= Seq::<Router>::empty(),
    {
        Router {
            data: Data::new(),
            handlers: Vec::new(),
            middlewares: Vec::new(),
            sub_routers: Vec::new(),
        }
    }

    /// Attach a handler; handlers run first-match-wins in attachment
    /// order.
    pub fn add_handler(self, handler: Handler) -> (r: Router)
        ensures
            r.data == self.data,
            r.handlers@ == self.handlers@.push(handler),
            r.middlewares@ == self.middlewares@,
            r.sub_routers@ == self.sub_routers@,
    {
        let mut this = self;
        this.handlers.push(handler);
        this
    }

    /// Attach a middleware; it runs around each matched handler at this
    /// level.
    pub fn add_middleware(self, middleware: Middleware) -> (r: Router)
        ensures
            r.data == self.data,
            r.handlers@ == self.handlers@,
            r.middlewares@ == self.middlewares@.push(middleware),
            r.sub_routers@ == self.sub_routers@,
    {
        let mut this = self;
        this.middlewares.push(middleware);
        this
    }

    /// Attach a module. Sub-routers attached later see it; sub-routers
    /// attached earlier do not.
    pub fn add_module(self, module: Module) -> (r: Router)
        ensures
            r.data.modules@ == self.data.modules@.push(module),
            r.handlers@ == self.handlers@,
            r.middlewares@ == self.middlewares@,
            r.sub_routers@ == self.sub_routers@,
    {
        let mut this = self;
        this.data.push_module(module);
        this
    }

    /// Attach a sub-router, to be tried when no local handler matches. The
    /// child inherits copies of this router's current modules and
    /// middlewares, after its own; later attachments to this router do not
    /// propagate to it.
    pub fn add_sub_router(self, sub_router: Router) -> (r: Router)
        ensures
            r.data == self.data,
            r.handlers@ == self.handlers@,
            r.middlewares@ == self.middlewares@,
            r.sub_routers@.len() == self.sub_routers@.len() + 1,
            forall|i: int|
                0 <= i < self.sub_routers@.len() ==> r.sub_routers@[i] == self.sub_routers@[i],
            ({
                let child = r.sub_routers@.last();
                &&& child.data.modules@ == sub_router.data.modules@ + self.data.modules@
                &&& child.handlers@ == sub_router.handlers@
                &&& child.middlewares@ == sub_router.middlewares@ + self.middlewares@
                &&& child.sub_routers@ == sub_router.sub_routers@
            }),
    {
        let mut this = self;
        let mut sub = sub_router;
        let ghost sub_mods = sub.data.modules@;
        let ghost sub_mids = sub.middlewares@;
        let ghost sub_hs = sub.handlers@;
        let ghost sub_subs = sub.sub_routers@;
        proof {
            assert(sub.data.modules@ =~= sub_mods + this.data.modules@.take(0));
        }
        let mut i: usize = 0;
        while i < this.data.modules.len()
            invariant
                0 <= i <= this.data.modules@.len(),
                sub.data.modules@ == sub_mods + this.data.modules@.take(i as int),
                sub.handlers@ == sub_hs,
                sub.middlewares@ == sub_mids,
                sub.sub_routers@ == sub_subs,
            decreases this.data.modules@.len() - i,
        {
            sub.data.push_module(this.data.modules[i]);
            proof {
                assert((sub_mods + this.data.modules@.take(i as int)).push(
                    this.data.modules@[i as int],
                ) =~= sub_mods + this.data.modules@.take(i as int + 1));
            }
            i = i + 1;
        }
        proof {
            assert(this.data.modules@.take(this.data.modules@.len() as int) =~= this.data.modules@);
            assert(sub_mids =~= sub_mids + this.middlewares@.take(0));
        }
        let mut j: usize = 0;
        while j < this.middlewares.len()
            invariant
                0 <= j <= this.middlewares@.len(),
                sub.data.modules@ == sub_mods + self.data.modules@,
                sub.handlers@ == sub_hs,
                sub.middlewares@ == sub_mids + this.middlewares@.take(j as int),
                sub.sub_routers@ == sub_subs,
            decreases this.middlewares@.len() - j,
        {
            sub.middlewares.push(this.middlewares[j]);
            proof {
                assert((sub_mids + this.middlewares@.take(j as int)).push(
                    this.middlewares@[j as int],
                ) =~= sub_mids + this.middlewares@.take(j as int + 1));
            }
            j = j + 1;
        }
        proof {
            assert(this.middlewares@.take(this.middlewares@.len() as int) =~= this.middlewares@);
        }
        this.sub_routers.push(sub);
        this
    }
}

impl Router {
    fn push_antes(modules: &Vec<Module>, idx: usize, actions: &mut Vec<Action>)
        requires
            idx <= modules@.len(),
        ensures
            final(actions)@ == old(actions)@ + antes(modules@.skip(idx as int)),
        decreases modules@.len() - idx,
    {
        if idx == modules.len() {
            proof {
                assert(antes(modules@.skip(idx as int)) =~= Seq::<Action>::empty());
                assert(actions@ =~= actions@ + Seq::<Action>::empty());
            }
        } else {
            proof {
                assert(modules@.skip(idx as int)[0] == modules@[idx as int]);
                assert(modules@.skip(idx as int).drop_first() =~= modules@.skip(idx as int + 1));
            }
            let ghost pre = actions@;
            actions.push(Action::ModuleAnte(modules[idx]));
            Self::push_antes(modules, idx + 1, actions);
            proof {
                assert(actions@ =~= pre + antes(modules@.skip(idx as int)));
            }
        }
    }

    fn push_posts(modules: &Vec<Module>, idx: usize, actions: &mut Vec<Action>)
        requires
            idx <= modules@.len(),
        ensures
            final(actions)@ == old(actions)@ + posts(modules@.skip(idx as int)),
        decreases modules@.len() - idx,
    {
        if idx == modules.len() {
            proof {
                assert(posts(modules@.skip(idx as int)) =~= Seq::<Action>::empty());
                assert(actions@ =~= actions@ + Seq::<Action>::empty());
            }
        } else {
            proof {
                assert(modules@.skip(idx as int)[0] == modules@[idx as int]);
                assert(modules@.skip(idx as int).drop_first() =~= modules@.skip(idx as int + 1));
            }
            let ghost pre = actions@;
            actions.push(Action::ModulePost(modules[idx]));
            Self::push_posts(modules, idx + 1, actions);
            proof {
                assert(actions@ =~= pre + posts(modules@.skip(idx as int)));
            }
        }
    }

    fn push_befores(middlewares: &Vec<Middleware>, idx: usize, actions: &mut Vec<Action>)
        requires
            idx <= middlewares@.len(),
        ensures
            final(actions)@ == old(actions)@ + befores(middlewares@.skip(idx as int)),
        decreases middlewares@.len() - idx,
    {
        if idx == middlewares.len() {
            proof {
                assert(befores(middlewares@.skip(idx as int)) =~= Seq::<Action>::empty());
                assert(actions@ =~= actions@ + Seq::<Action>::empty());
            }
        } else {
            proof {
                assert(middlewares@.skip(idx as int)[0] == middlewares@[idx as int]);
                assert(middlewares@.skip(idx as int).drop_first() =~= middlewares@.skip(
                    idx as int + 1,
                ));
            }
            let ghost pre = actions@;
            let m = middlewares[idx];
            if m.mtype == MiddlewareType::Before {
                actions.push(Action::CallBefore(m.mid));
            }
            Self::push_befores(middlewares, idx + 1, actions);
            proof {
                assert(actions@ =~= pre + befores(middlewares@.skip(idx as int)));
            }
        }
    }

    fn push_afters(middlewares: &Vec<Middleware>, idx: usize, actions: &mut Vec<Action>)
        requires
            idx <= middlewares@.len(),
        ensures
            final(actions)@ == old(actions)@ + afters(middlewares@.skip(idx as int)),
        decreases middlewares@.len() - idx,
    {
        if idx == middlewares.len() {
            proof {
                assert(afters(middlewares@.skip(idx as int)) =~= Seq::<Action>::empty());
                assert(actions@ =~= actions@ + Seq::<Action>::empty());
            }
        } else {
            proof {
                assert(middlewares@.skip(idx as int)[0] == middlewares@[idx as int]);
                assert(middlewares@.skip(idx as int).drop_first() =~= middlewares@.skip(
                    idx as int + 1,
                ));
            }
            let ghost pre = actions@;
            let m = middlewares[idx];
            if m.mtype == MiddlewareType::After {
                actions.push(Action::CallAfter(m.mid));
            }
            Self::push_afters(middlewares, idx + 1, actions);
            proof {
                assert(actions@ =~= pre + afters(middlewares@.skip(idx as int)));
            }
        }
    }

    /// The callback of the first handler, from `idx` on, that takes the
    /// update.
    fn first_match(handlers: &Vec<Handler>, idx: usize, ctx: &Context, update: &Update) -> (r:
        Option<u64>)
        requires
            idx <= handlers@.len(),
        ensures
            r == match spec_matched(handlers@.skip(idx as int), *ctx, *update) {
                Some(h) => Some(h.func),
                None => None::<u64>,
            },
        decreases handlers@.len() - idx,
    {
        if idx == handlers.len() {
            proof {
                assert(handlers@.skip(idx as int).len() == 0);
            }
            None
        } else {
            proof {
                assert(handlers@.skip(idx as int)[0] == handlers@[idx as int]);
                assert(handlers@.skip(idx as int).drop_first() =~= handlers@.skip(idx as int + 1));
            }
            let h = &handlers[idx];
            if h.handle(ctx, update) {
                Some(h.func)
            } else {
                Self::first_match(handlers, idx + 1, ctx, update)
            }
        }
    }

    /// Try the sub-routers from `idx` on, in order, stopping at the first
    /// that handles the update.
    pub(crate) fn handle_subs(
        subs: &Vec<Router>,
        idx: usize,
        ctx: &Context,
        update: &Update,
        actions: &mut Vec<Action>,
    ) -> (handled: bool)
        requires
            idx <= subs@.len(),
        ensures
            handled == spec_subs_handled(subs@.skip(idx as int), *ctx, *update),
            final(actions)@ == old(actions)@ + spec_subs_plan(subs@.skip(idx as int), *ctx, *update),
        decreases *subs, 0int, subs@.len() - idx,
    {
        if idx == subs.len() {
            proof {
                assert(subs@.skip(idx as int).len() == 0);
                assert(actions@ =~= actions@ + spec_subs_plan(
                    subs@.skip(idx as int),
                    *ctx,
                    *update,
                ));
            }
            false
        } else {
            proof {
                assert(subs@.skip(idx as int)[0] == subs@[idx as int]);
                assert(subs@.skip(idx as int).drop_first() =~= subs@.skip(idx as int + 1));
            }
            let sub = &subs[idx];
            proof {
                assert(decreases_to!(*subs => *sub));
            }
            let ghost pre = actions@;
            let h = sub.handle_update(ctx, update, actions);
            if h {
                proof {
                    assert(actions@ =~= pre + spec_subs_plan(subs@.skip(idx as int), *ctx, *update));
                }
                true
            } else {
                let r = Self::handle_subs(subs, idx + 1, ctx, update, actions);
                proof {
                    assert(actions@ =~= pre + spec_subs_plan(subs@.skip(idx as int), *ctx, *update));
                }
                r
            }
        }
    }

    /// Handle one update: append the calls this router makes to `actions`,
    /// and report whether some handler took the update.
    pub fn handle_update(&self, ctx: &Context, update: &Update, actions: &mut Vec<Action>) -> (
        handled: bool)
        ensures
            handled == self.spec_handled(*ctx, *update),
            final(actions)@ == old(actions)@ + self.spec_plan(*ctx, *update),
        decreases *self, 1int, 0int,
    {
        let ghost base = actions@;
        proof {
            assert(self.data.modules@.skip(0) =~= self.data.modules@);
            assert(self.middlewares@.skip(0) =~= self.middlewares@);
            assert(self.handlers@.skip(0) =~= self.handlers@);
            assert(self.sub_routers@.skip(0) =~= self.sub_routers@);
        }
        Self::push_antes(&self.data.modules, 0, actions);
        let m = Self::first_match(&self.handlers, 0, ctx, update);
        match m {
            Some(func) => {
                Self::push_befores(&self.middlewares, 0, actions);
                actions.push(Action::RunHandler(func));
                Self::push_afters(&self.middlewares, 0, actions);
                Self::push_posts(&self.data.modules, 0, actions);
                proof {
                    assert(actions@ =~= base + self.spec_plan(*ctx, *update));
                }
                true
            },
            None => {
                let h = Self::handle_subs(&self.sub_routers, 0, ctx, update, actions);
                Self::push_posts(&self.data.modules, 0, actions);
                proof {
                    assert(actions@ =~= base + self.spec_plan(*ctx, *update));
                }
                h
            },
        }
    }
}


/// How many handler callbacks a plan runs.
pub open spec fn count_callbacks(plan: Seq<Action>) -> nat
    decreases plan.len(),
{
    if plan.len() == 0 {
        0
    } else {
        (if plan[0] is RunHandler {
            1nat
        } else {
            0nat
        }) + count_callbacks(plan.drop_first())
    }
}

proof fn lemma_count_concat(a: Seq<Action>, b: Seq<Action>)
    ensures
        count_callbacks(a + b) == count_callbacks(a) + count_callbacks(b),
    decreases a.len(),
{
    if a.len() == 0 {
        assert(a + b =~= b);
    } else {
        lemma_count_concat(a.drop_first(), b);
        assert((a + b).drop_first() =~= a.drop_first() + b);
        assert((a + b)[0] == a[0]);
    }
}

proof fn lemma_count_single(a: Action)
    ensures
        count_callbacks(seq![a]) == if a is RunHandler {
            1nat
        } else {
            0nat
        },
{
    assert(seq![a].drop_first() =~= Seq::<Action>::empty());
    assert(count_callbacks(seq![a].drop_first()) == 0);
}

proof fn lemma_antes_shape(modules: Seq<Module>)
    ensures
        antes(modules).len() == modules.len(),
        forall|q: int| 0 <= q < modules.len() ==> #[trigger] antes(modules)[q] is ModuleAnte,
        count_callbacks(antes(modules)) == 0,
    decreases modules.len(),
{
    if modules.len() > 0 {
        lemma_antes_shape(modules.drop_first());
        lemma_count_concat(seq![Action::ModuleAnte(modules[0])], antes(modules.drop_first()));
        lemma_count_single(Action::ModuleAnte(modules[0]));
        assert forall|q: int| 0 <= q < modules.len() implies #[trigger] antes(modules)[q]
            is ModuleAnte by {
            if q > 0 {
                assert(antes(modules)[q] == antes(modules.drop_first())[q - 1]);
            }
        }
    }
}

proof fn lemma_posts_shape(modules: Seq<Module>)
    ensures
        posts(modules).len() == modules.len(),
        forall|q: int| 0 <= q < modules.len() ==> #[trigger] posts(modules)[q] is ModulePost,
        count_callbacks(posts(modules)) == 0,
    decreases modules.len(),
{
    if modules.len() > 0 {
        lemma_posts_shape(modules.drop_first());
        lemma_count_concat(seq![Action::ModulePost(modules[0])], posts(modules.drop_first()));
        lemma_count_single(Action::ModulePost(modules[0]));
        assert forall|q: int| 0 <= q < modules.len() implies #[trigger] posts(modules)[q]
            is ModulePost by {
            if q > 0 {
                assert(posts(modules)[q] == posts(modules.drop_first())[q - 1]);
            }
        }
    }
}

proof fn lemma_befores_shape(middlewares: Seq<Middleware>)
    ensures
        forall|q: int|
            0 <= q < befores(middlewares).len() ==> #[trigger] befores(middlewares)[q]
                is CallBefore,
        count_callbacks(befores(middlewares)) == 0,
    decreases middlewares.len(),
{
    if middlewares.len() > 0 {
        lemma_befores_shape(middlewares.drop_first());
        let head: Seq<Action> = if middlewares[0].mtype is Before {
            seq![Action::CallBefore(middlewares[0].mid)]
        } else {
            Seq::empty()
        };
        lemma_count_concat(head, befores(middlewares.drop_first()));
        if middlewares[0].mtype is Before {
            lemma_count_single(Action::CallBefore(middlewares[0].mid));
        }
        assert forall|q: int| 0 <= q < befores(middlewares).len() implies #[trigger] befores(
            middlewares,
        )[q] is CallBefore by {
            if q >= head.len() {
                assert(befores(middlewares)[q] == befores(middlewares.drop_first())[q
                    - head.len()]);
            }
        }
    }
}

proof fn lemma_afters_shape(middlewares: Seq<Middleware>)
    ensures
        forall|q: int|
            0 <= q < afters(middlewares).len() ==> #[trigger] afters(middlewares)[q] is CallAfter,
        count_callbacks(afters(middlewares)) == 0,
    decreases middlewares.len(),
{
    if middlewares.len() > 0 {
        lemma_afters_shape(middlewares.drop_first());
        let head: Seq<Action> = if middlewares[0].mtype is After {
            seq![Action::CallAfter(middlewares[0].mid)]
        } else {
            Seq::empty()
        };
        lemma_count_concat(head, afters(middlewares.drop_first()));
        if middlewares[0].mtype is After {
            lemma_count_single(Action::CallAfter(middlewares[0].mid));
        }
        assert forall|q: int| 0 <= q < afters(middlewares).len() implies #[trigger] afters(
            middlewares,
        )[q] is CallAfter by {
            if q >= head.len() {
                assert(afters(middlewares)[q] == afters(middlewares.drop_first())[q - head.len()]);
            }
        }
    }
}

/// Law: a router's plan runs exactly one handler callback when it handles
/// the update, and none otherwise.
pub proof fn lemma_plan_callbacks(r: Router, ctx: Context, update: Update)
    ensures
        count_callbacks(r.spec_plan(ctx, update)) == if r.spec_handled(ctx, update) {
            1nat
        } else {
            0nat
        },
    decreases r, 1int,
{
    lemma_antes_shape(r.data.modules@);
    lemma_posts_shape(r.data.modules@);
    lemma_befores_shape(r.middlewares@);
    lemma_afters_shape(r.middlewares@);
    let mods = r.data.modules@;
    let mids = r.middlewares@;
    match spec_matched(r.handlers@, ctx, update) {
        Some(h) => {
            let mid = befores(mids) + seq![Action::RunHandler(h.func)] + afters(mids);
            lemma_count_single(Action::RunHandler(h.func));
            lemma_count_concat(befores(mids), seq![Action::RunHandler(h.func)]);
            lemma_count_concat(befores(mids) + seq![Action::RunHandler(h.func)], afters(mids));
            lemma_count_concat(antes(mods), mid);
            lemma_count_concat(antes(mods) + mid, posts(mods));
        },
        None => {
            lemma_subs_plan_callbacks(r.sub_routers@, ctx, update);
            let mid = spec_subs_plan(r.sub_routers@, ctx, update);
            lemma_count_concat(antes(mods), mid);
            lemma_count_concat(antes(mods) + mid, posts(mods));
        },
    }
}

/// Law: the sub-router trials run exactly one handler callback when some
/// sub-router handles the update, and none otherwise.
pub proof fn lemma_subs_plan_callbacks(subs: Seq<Router>, ctx: Context, update: Update)
    ensures
        count_callbacks(spec_subs_plan(subs, ctx, update)) == if spec_subs_handled(
            subs,
            ctx,
            update,
        ) {
            1nat
        } else {
            0nat
        },
    decreases subs, 0int,
{
    if subs.len() > 0 {
        lemma_plan_callbacks(subs[0], ctx, update);
        if subs[0].spec_handled(ctx, update) {
            lemma_count_concat(subs[0].spec_plan(ctx, update), Seq::empty());
            assert(subs[0].spec_plan(ctx, update) + Seq::<Action>::empty() =~= subs[0].spec_plan(
                ctx,
                update,
            ));
        } else {
            lemma_subs_plan_callbacks(subs.drop_first(), ctx, update);
            lemma_count_concat(
                subs[0].spec_plan(ctx, update),
                spec_subs_plan(subs.drop_first(), ctx, update),
            );
        }
    }
}

proof fn lemma_matched_at(handlers: Seq<Handler>, ctx: Context, update: Update, i: int)
    requires
        0 <= i < handlers.len(),
        handlers[i].spec_handles(ctx, update),
        forall|j: int| 0 <= j < i ==> !(#[trigger] handlers[j]).spec_handles(ctx, update),
    ensures
        spec_matched(handlers, ctx, update) == Some(handlers[i]),
    decreases i,
{
    if i > 0 {
        assert(!handlers[0].spec_handles(ctx, update));
        lemma_matched_at(handlers.drop_first(), ctx, update, i - 1);
        assert(handlers.drop_first()[i - 1] == handlers[i]);
    }
}

/// Law: first match wins. When handler `i` is the first whose mask and
/// filter accept the update, the router's plan runs exactly that
/// handler's callback — once — and no other handler's at this level.
pub proof fn lemma_first_match_wins(r: Router, ctx: Context, update: Update, i: int)
    requires
        0 <= i < r.handlers@.len(),
        r.handlers@[i].spec_handles(ctx, update),
        forall|j: int| 0 <= j < i ==> !(#[trigger] r.handlers@[j]).spec_handles(ctx, update),
    ensures
        r.spec_handled(ctx, update),
        spec_matched(r.handlers@, ctx, update) == Some(r.handlers@[i]),
        r.spec_plan(ctx, update) == antes(r.data.modules@) + (befores(r.middlewares@) + seq![
            Action::RunHandler(r.handlers@[i].func),
        ] + afters(r.middlewares@)) + posts(r.data.modules@),
        count_callbacks(r.spec_plan(ctx, update)) == 1,
{
    lemma_matched_at(r.handlers@, ctx, update, i);
    lemma_plan_callbacks(r, ctx, update);
}

/// The concatenation of the first `n` sub-routers' plans.
pub open spec fn plans_prefix(subs: Seq<Router>, ctx: Context, update: Update, n: int) -> Seq<
    Action,
>
    decreases n,
{
    if n <= 0 {
        Seq::empty()
    } else {
        plans_prefix(subs, ctx, update, n - 1) + subs[n - 1].spec_plan(ctx, update)
    }
}

proof fn lemma_subs_plan_prefix(subs: Seq<Router>, ctx: Context, update: Update, k: int)
    requires
        0 <= k < subs.len(),
        subs[k].spec_handled(ctx, update),
        forall|j: int| 0 <= j < k ==> !(#[trigger] subs[j]).spec_handled(ctx, update),
    ensures
        spec_subs_handled(subs, ctx, update),
        spec_subs_plan(subs, ctx, update) == plans_prefix(subs, ctx, update, k + 1),
    decreases k,
{
    if k == 0 {
        assert(plans_prefix(subs, ctx, update, 0) =~= Seq::<Action>::empty());
        assert(spec_subs_plan(subs, ctx, update) =~= plans_prefix(subs, ctx, update, 1));
    } else {
        assert(!subs[0].spec_handled(ctx, update));
        lemma_subs_plan_prefix(subs.drop_first(), ctx, update, k - 1);
        assert(subs.drop_first()[k - 1] == subs[k]);
        lemma_plans_prefix_shift(subs, ctx, update, k + 1);
    }
}

proof fn lemma_plans_prefix_shift(subs: Seq<Router>, ctx: Context, update: Update, n: int)
    requires
        1 <= n <= subs.len(),
    ensures
        plans_prefix(subs, ctx, update, n) == subs[0].spec_plan(ctx, update) + plans_prefix(
            subs.drop_first(),
            ctx,
            update,
            n - 1,
        ),
    decreases n,
{
    if n == 1 {
        assert(plans_prefix(subs, ctx, update, 0) =~= Seq::<Action>::empty());
        assert(plans_prefix(subs.drop_first(), ctx, update, 0) =~= Seq::<Action>::empty());
        assert(plans_prefix(subs, ctx, update, 1) =~= subs[0].spec_plan(ctx, update));
        assert(subs[0].spec_plan(ctx, update) + plans_prefix(subs.drop_first(), ctx, update, 0)
            =~= subs[0].spec_plan(ctx, update));
    } else {
        lemma_plans_prefix_shift(subs, ctx, update, n - 1);
        assert(subs.drop_first()[n - 2] == subs[n - 1]);
        assert((subs[0].spec_plan(ctx, update) + plans_prefix(subs.drop_first(), ctx, update, n
            - 2)) + subs[n - 1].spec_plan(ctx, update) =~= subs[0].spec_plan(ctx, update) + (
        plans_prefix(subs.drop_first(), ctx, update, n - 2) + subs[n - 1].spec_plan(ctx, update)));
    }
}

/// Law: sub-routers are tried in attachment order. With no local match,
/// when sub-router `k` is the first that handles the update, the plan
/// holds exactly the plans of sub-routers 0 through `k`, in order, and the
/// router reports the update handled.
pub proof fn lemma_sub_router_order(r: Router, ctx: Context, update: Update, k: int)
    requires
        spec_matched(r.handlers@, ctx, update) is None,
        0 <= k < r.sub_routers@.len(),
        r.sub_routers@[k].spec_handled(ctx, update),
        forall|j: int| 0 <= j < k ==> !(#[trigger] r.sub_routers@[j]).spec_handled(ctx, update),
    ensures
        r.spec_handled(ctx, update),
        r.spec_plan(ctx, update) == antes(r.data.modules@) + plans_prefix(
            r.sub_routers@,
            ctx,
            update,
            k + 1,
        ) + posts(r.data.modules@),
{
    lemma_subs_plan_prefix(r.sub_routers@, ctx, update, k);
}


proof fn lemma_matched_none(handlers: Seq<Handler>, ctx: Context, update: Update)
    requires
        forall|j: int| 0 <= j < handlers.len() ==> !(#[trigger] handlers[j]).spec_handles(
            ctx,
            update,
        ),
    ensures
        spec_matched(handlers, ctx, update) is None,
    decreases handlers.len(),
{
    if handlers.len() > 0 {
        lemma_matched_none(handlers.drop_first(), ctx, update);
    }
}

proof fn lemma_subs_handled_none(subs: Seq<Router>, ctx: Context, update: Update)
    requires
        forall|j: int| 0 <= j < subs.len() ==> !(#[trigger] subs[j]).spec_handled(ctx, update),
    ensures
        !spec_subs_handled(subs, ctx, update),
    decreases subs.len(),
{
    if subs.len() > 0 {
        lemma_subs_handled_none(subs.drop_first(), ctx, update);
    }
}

/// Law: when no local handler takes the update and no sub-router handles
/// it, the router reports it unhandled, and its plan runs no handler
/// callback.
pub proof fn lemma_nothing_matches(r: Router, ctx: Context, update: Update)
    requires
        forall|j: int| 0 <= j < r.handlers@.len() ==> !(#[trigger] r.handlers@[j]).spec_handles(
            ctx,
            update,
        ),
        forall|j: int| 0 <= j < r.sub_routers@.len() ==> !(#[trigger] r.sub_routers@[j]).spec_handled(
            ctx,
            update,
        ),
    ensures
        !r.spec_handled(ctx, update),
        count_callbacks(r.spec_plan(ctx, update)) == 0,
{
    lemma_matched_none(r.handlers@, ctx, update);
    lemma_subs_handled_none(r.sub_routers@, ctx, update);
    lemma_plan_callbacks(r, ctx, update);
}

/// Law: when nothing in the tree takes the update, the router reports it
/// unhandled and its plan runs no handler callback — only module hooks.
pub proof fn lemma_unhandled(r: Router, ctx: Context, update: Update)
    requires
        !r.spec_handled(ctx, update),
    ensures
        count_callbacks(r.spec_plan(ctx, update)) == 0,
{
    lemma_plan_callbacks(r, ctx, update);
}

/// Law: middleware phases bracket the callback. Under the hypotheses of
/// first-match-wins, the matched handler's callback stands at one position
/// of the plan; every before-middleware call comes strictly before it, and
/// every after-middleware call strictly after it.
pub proof fn lemma_middleware_order(r: Router, ctx: Context, update: Update, i: int)
    requires
        0 <= i < r.handlers@.len(),
        r.handlers@[i].spec_handles(ctx, update),
        forall|j: int| 0 <= j < i ==> !(#[trigger] r.handlers@[j]).spec_handles(ctx, update),
    ensures
        ({
            let plan = r.spec_plan(ctx, update);
            let cb = antes(r.data.modules@).len() + befores(r.middlewares@).len();
            &&& 0 <= cb < plan.len()
            &&& plan[cb as int] is RunHandler
            &&& forall|q: int| 0 <= q < plan.len() && #[trigger] plan[q] is CallBefore ==> q < cb
            &&& forall|q: int| 0 <= q < plan.len() && #[trigger] plan[q] is CallAfter ==> q > cb
        }),
{
    lemma_first_match_wins(r, ctx, update, i);
    lemma_antes_shape(r.data.modules@);
    lemma_posts_shape(r.data.modules@);
    lemma_befores_shape(r.middlewares@);
    lemma_afters_shape(r.middlewares@);
    let plan = r.spec_plan(ctx, update);
    let a = antes(r.data.modules@);
    let b = befores(r.middlewares@);
    let c = seq![Action::RunHandler(r.handlers@[i].func)];
    let d = afters(r.middlewares@);
    let p = posts(r.data.modules@);
    let cb = a.len() + b.len();
    assert(plan =~= a + b + c + d + p);
    assert(plan[cb as int] == c[0]);
    assert forall|q: int| 0 <= q < plan.len() && #[trigger] plan[q] is CallBefore implies q
        < cb by {
        if q >= cb {
            if q == cb {
                assert(plan[q] == c[0]);
            } else if q < cb + 1 + d.len() {
                assert(plan[q] == d[q - (cb + 1)]);
            } else {
                assert(plan[q] == p[q - (cb + 1 + d.len())]);
            }
        }
    }
    assert forall|q: int| 0 <= q < plan.len() && #[trigger] plan[q] is CallAfter implies q
        > cb by {
        if q <= cb {
            if q < a.len() {
                assert(plan[q] == a[q]);
            } else if q < cb {
                assert(plan[q] == b[q - a.len()]);
            } else {
                assert(plan[q] == c[0]);
            }
        }
    }
}


} // verus!
