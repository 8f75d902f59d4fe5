//! A dispatch engine for chat-platform updates.
//!
//! Updates flow from an update source to a tree of routers. Each router owns
//! an ordered list of handlers (an update-type mask, a filter and a callback),
//! middlewares that run around a matched handler, typed state modules, and
//! sub-routers that are tried when no local handler matches. The engine
//! decides, for each update, exactly which callbacks and hooks run and in
//! which order; performing the calls themselves is left to the embedding
//! program.

mod context;
mod data;
mod dispatcher;
mod handler;
mod middleware;
mod re;
mod router;
mod update;

pub mod filters;
pub mod text;
pub mod utils;

pub use context::{spec_outcome_at, Context, CustomOutcome, Identity};
pub use data::{lemma_find_module_concat, lemma_module_snapshot, spec_find_module, Data, Module};
pub use dispatcher::{lemma_finish_drains, lemma_replay_wf, lemma_self_filter,
    lemma_shutdown_is_final, spec_discards, spec_is_own_update, spec_replay, spec_step, Dispatcher,
    LoopEvent, RunState};
pub use handler::{spec_type_matches, Handler, UpdateType};
pub use middleware::{Middleware, MiddlewareType};
pub use re::{regex_match, regex_valid};
pub use router::{afters, antes, befores, count_callbacks, lemma_first_match_wins,
    lemma_middleware_order, lemma_nothing_matches, lemma_plan_callbacks, lemma_sub_router_order,
    lemma_subs_plan_callbacks, lemma_unhandled, plans_prefix, posts, spec_matched, spec_subs_handled, spec_subs_plan, Action,
    Router};
pub use update::{CallbackQuery, Chat, ChatKind, InlineQuery, Message, MessageDeletion, Update};
