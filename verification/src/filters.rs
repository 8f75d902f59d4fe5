mod admin;
mod and;
mod command;
mod custom;
mod deleted;
mod edited;
mod not;
mod or;
mod private;
mod query;
mod regex;
mod reply;
mod text;

pub use admin::{admin, spec_cached_at, AdminFilter, AdminRecord};
pub use and::{and, AndFilter};
pub use command::{boundary_ok, command, command_matches, name_suffix_ok, CommandFilter};
pub use custom::{custom, CustomFilter};
pub use deleted::{deleted, DeletedFilter};
pub use edited::{edited, EditedFilter};
pub use not::{not, NotFilter};
pub use or::{or, OrFilter};
pub use private::{private, PrivateFilter};
pub use query::{float_tok, is_literal_tok, kind_matches, part_matches_tok, parts_match, query,
    query_tok_ok, tok_optional, tok_tag, ParamKind, QueryFilter, QueryPart};
pub use regex::{regex, RegexFilter};
pub use reply::{reply, ReplyFilter};
pub use text::{text, TextFilter};

use vstd::prelude::*;

use crate::context::Context;
use crate::update::Update;

verus! {

/// A malformed filter pattern, reported when the filter is built.
#[derive(Clone, Copy, Debug, PartialEq, Eq, Structural)]
pub enum PatternError {
    /// The pattern is not a valid regular expression.
    InvalidRegex,
    /// A query placeholder names an unknown type tag.
    UnknownTag,
}

/// A composed predicate over (context, update): a tree of combinators over
/// the leaf filters.
#[derive(Debug, PartialEq)]
pub enum Filter {
    And(AndFilter),
    Or(OrFilter),
    Not(NotFilter),
    Admin(AdminFilter),
    Command(CommandFilter),
    Custom(CustomFilter),
    Deleted(DeletedFilter),
    Edited(EditedFilter),
    Private(PrivateFilter),
    Query(QueryFilter),
    Regex(RegexFilter),
    Reply(ReplyFilter),
    Text(TextFilter),
}

/// The kind of a leaf filter, for evaluation traces.
#[derive(Clone, Copy, Debug, PartialEq, Eq, Structural)]
pub enum LeafKind {
    Admin,
    Command,
    Custom,
    Deleted,
    Edited,
    Private,
    Query,
    Regex,
    Reply,
    Text,
}

impl Filter {
    /// The verdict of short-circuit evaluation.
    pub open spec fn spec_eval(self, ctx: Context, update: Update) -> bool
        decreases self,
    {
        match self {
            Filter::And(f) => f.first.spec_eval(ctx, update) && f.second.spec_eval(ctx, update),
            Filter::Or(f) => f.first.spec_eval(ctx, update) || f.other.spec_eval(ctx, update),
            Filter::Not(f) => !f.filter.spec_eval(ctx, update),
            Filter::Admin(f) => f.spec_passes(update),
            Filter::Command(f) => f.spec_passes(ctx, update),
            Filter::Custom(f) => f.spec_passes(ctx),
            Filter::Deleted(f) => f.spec_passes(update),
            Filter::Edited(f) => f.spec_passes(update),
            Filter::Private(f) => f.spec_passes(update),
            Filter::Query(f) => f.spec_passes(update),
            Filter::Regex(f) => f.spec_passes(update),
            Filter::Reply(f) => f.spec_passes(update),
            Filter::Text(f) => f.spec_passes(update),
        }
    }

    /// The leaves short-circuit evaluation consults, in order.
    pub open spec fn spec_trace(self, ctx: Context, update: Update) -> Seq<LeafKind>
        decreases self,
    {
        match self {
            Filter::And(f) => f.first.spec_trace(ctx, update) + if f.first.spec_eval(ctx, update) {
                f.second.spec_trace(ctx, update)
            } else {
                Seq::empty()
            },
            Filter::Or(f) => f.first.spec_trace(ctx, update) + if f.first.spec_eval(ctx, update) {
                Seq::empty()
            } else {
                f.other.spec_trace(ctx, update)
            },
            Filter::Not(f) => f.filter.spec_trace(ctx, update),
            Filter::Admin(_) => seq![LeafKind::Admin],
            Filter::Command(_) => seq![LeafKind::Command],
            Filter::Custom(_) => seq![LeafKind::Custom],
            Filter::Deleted(_) => seq![LeafKind::Deleted],
            Filter::Edited(_) => seq![LeafKind::Edited],
            Filter::Private(_) => seq![LeafKind::Private],
            Filter::Query(_) => seq![LeafKind::Query],
            Filter::Regex(_) => seq![LeafKind::Regex],
            Filter::Reply(_) => seq![LeafKind::Reply],
            Filter::Text(_) => seq![LeafKind::Text],
        }
    }

    /// Short-circuit evaluation.
    pub fn evaluate(&self, ctx: &Context, update: &Update) -> (r: bool)
        ensures
            r == self.spec_eval(*ctx, *update),
        decreases *self,
    {
        match self {
            Filter::And(f) => f.first.evaluate(ctx, update) && f.second.evaluate(ctx, update),
            Filter::Or(f) => f.first.evaluate(ctx, update) || f.other.evaluate(ctx, update),
            Filter::Not(f) => !f.filter.evaluate(ctx, update),
            Filter::Admin(f) => f.passes(update),
            Filter::Command(f) => f.passes(ctx, update),
            Filter::Custom(f) => f.passes(ctx),
            Filter::Deleted(f) => f.passes(update),
            Filter::Edited(f) => f.passes(update),
            Filter::Private(f) => f.passes(update),
            Filter::Query(f) => f.passes(update),
            Filter::Regex(f) => f.passes(update),
            Filter::Reply(f) => f.passes(update),
            Filter::Text(f) => f.passes(update),
        }
    }

    /// Short-circuit evaluation that also appends the consulted leaves, in
    /// evaluation order, to `trace`.
    pub fn evaluate_traced(&self, ctx: &Context, update: &Update, trace: &mut Vec<LeafKind>) -> (r:
        bool)
        ensures
            r == self.spec_eval(*ctx, *update),
            final(trace)@ == old(trace)@ + self.spec_trace(*ctx, *update),
        decreases *self,
    {
        match self {
            Filter::And(f) => {
                let a = f.first.evaluate_traced(ctx, update, trace);
                if a {
                    let b = f.second.evaluate_traced(ctx, update, trace);
                    proof {
                        assert(trace@ =~= old(trace)@ + self.spec_trace(*ctx, *update));
                    }
                    b
                } else {
                    proof {
                        assert(trace@ =~= old(trace)@ + self.spec_trace(*ctx, *update));
                    }
                    false
                }
            },
            Filter::Or(f) => {
                let a = f.first.evaluate_traced(ctx, update, trace);
                if a {
                    proof {
                        assert(trace@ =~= old(trace)@ + self.spec_trace(*ctx, *update));
                    }
                    true
                } else {
                    let b = f.other.evaluate_traced(ctx, update, trace);
                    proof {
                        assert(trace@ =~= old(trace)@ + self.spec_trace(*ctx, *update));
                    }
                    b
                }
            },
            Filter::Not(f) => !f.filter.evaluate_traced(ctx, update, trace),
            Filter::Admin(f) => {
                trace.push(LeafKind::Admin);
                proof {
                    assert(trace@ =~= old(trace)@ + seq![LeafKind::Admin]);
                }
                f.passes(update)
            },
            Filter::Command(f) => {
                trace.push(LeafKind::Command);
                proof {
                    assert(trace@ =~= old(trace)@ + seq![LeafKind::Command]);
                }
                f.passes(ctx, update)
            },
            Filter::Custom(f) => {
                trace.push(LeafKind::Custom);
                proof {
                    assert(trace@ =~= old(trace)@ + seq![LeafKind::Custom]);
                }
                f.passes(ctx)
            },
            Filter::Deleted(f) => {
                trace.push(LeafKind::Deleted);
                proof {
                    assert(trace@ =~= old(trace)@ + seq![LeafKind::Deleted]);
                }
                f.passes(update)
            },
            Filter::Edited(f) => {
                trace.push(LeafKind::Edited);
                proof {
                    assert(trace@ =~= old(trace)@ + seq![LeafKind::Edited]);
                }
                f.passes(update)
            },
            Filter::Private(f) => {
                trace.push(LeafKind::Private);
                proof {
                    assert(trace@ =~= old(trace)@ + seq![LeafKind::Private]);
                }
                f.passes(update)
            },
            Filter::Query(f) => {
                trace.push(LeafKind::Query);
                proof {
                    assert(trace@ =~= old(trace)@ + seq![LeafKind::Query]);
                }
                f.passes(update)
            },
            Filter::Regex(f) => {
                trace.push(LeafKind::Regex);
                proof {
                    assert(trace@ =~= old(trace)@ + seq![LeafKind::Regex]);
                }
                f.passes(update)
            },
            Filter::Reply(f) => {
                trace.push(LeafKind::Reply);
                proof {
                    assert(trace@ =~= old(trace)@ + seq![LeafKind::Reply]);
                }
                f.passes(update)
            },
            Filter::Text(f) => {
                trace.push(LeafKind::Text);
                proof {
                    assert(trace@ =~= old(trace)@ + seq![LeafKind::Text]);
                }
                f.passes(update)
            },
        }
    }

    /// Wrap `self` and `second` into an and-filter.
    pub fn and(self, second: Filter) -> (r: Filter)
        ensures
            r is And,
            r->And_0.first == self,
            r->And_0.second == second,
    {
        Filter::And(AndFilter::new(self, second))
    }

    /// Wrap `self` and `other` into an or-filter.
    pub fn or(self, other: Filter) -> (r: Filter)
        ensures
            r is Or,
            r->Or_0.first == self,
            r->Or_0.other == other,
    {
        Filter::Or(OrFilter::new(self, other))
    }

    /// Wrap `self` into a not-filter.
    pub fn not(self) -> (r: Filter)
        ensures
            r is Not,
            r->Not_0.filter == self,
    {
        Filter::Not(NotFilter::new(self))
    }
}

/// Law: `and` short-circuits. When the first branch rejects, the whole
/// filter rejects and the second branch is never consulted: the trace is
/// the first branch's trace alone.
pub proof fn lemma_and_short_circuit(f: Filter, ctx: Context, update: Update)
    requires
        f is And,
        !f->And_0.first.spec_eval(ctx, update),
    ensures
        !f.spec_eval(ctx, update),
        f.spec_trace(ctx, update) == f->And_0.first.spec_trace(ctx, update),
{
    assert(f.spec_trace(ctx, update) =~= f->And_0.first.spec_trace(ctx, update));
}

/// Law: `or` short-circuits. When the first branch passes, the whole
/// filter passes and the second branch is never consulted: the trace is
/// the first branch's trace alone.
pub proof fn lemma_or_short_circuit(f: Filter, ctx: Context, update: Update)
    requires
        f is Or,
        f->Or_0.first.spec_eval(ctx, update),
    ensures
        f.spec_eval(ctx, update),
        f.spec_trace(ctx, update) == f->Or_0.first.spec_trace(ctx, update),
{
    assert(f.spec_trace(ctx, update) =~= f->Or_0.first.spec_trace(ctx, update));
}

/// Law: `not` negates its filter's verdict on every input; in particular a
/// negated always-passing filter rejects everything.
pub proof fn lemma_not_negates(f: Filter, ctx: Context, update: Update)
    requires
        f is Not,
    ensures
        f.spec_eval(ctx, update) == !f->Not_0.filter.spec_eval(ctx, update),
{
}

} // verus!
