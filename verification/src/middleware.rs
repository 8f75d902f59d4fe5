use vstd::prelude::*;

verus! {

/// When a middleware runs relative to a matched handler's callback.
#[derive(Clone, Copy, Debug, PartialEq, Eq, Structural)]
pub enum MiddlewareType {
    /// Runs before the matched handler's callback.
    Before,
    /// Runs after the matched handler's callback.
    After,
}

/// A cross-cutting interceptor: a phase and the identifier of the
/// application callback it stands for.
#[derive(Clone, Copy, Debug, PartialEq, Eq, Structural)]
pub struct Middleware {
    pub mid: u64,
    pub mtype: MiddlewareType,
}

impl Middleware {
    pub fn new(mid: u64, mtype: MiddlewareType) -> (r: Self)
        ensures
            r.mid == mid,
            r.mtype == mtype,
    {
        Self { mid, mtype }
    }

    /// A middleware that runs before matched handlers.
    pub fn before(mid: u64) -> (r: Self)
        ensures
            r.mid == mid,
            r.mtype == MiddlewareType::Before,
    {
        Self { mid, mtype: MiddlewareType::Before }
    }

    /// A middleware that runs after matched handlers.
    pub fn after(mid: u64) -> (r: Self)
        ensures
            r.mid == mid,
            r.mtype == MiddlewareType::After,
    {
        Self { mid, mtype: MiddlewareType::After }
    }

    /// The middleware's phase.
    pub fn mtype(&self) -> (r: MiddlewareType)
        ensures
            r == self.mtype,
    {
        self.mtype
    }
}

} // verus!
