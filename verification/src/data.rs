use vstd::prelude::*;

verus! {

/// A typed state object, reduced to what the engine reads: a key standing
/// for its concrete type, and a handle naming the application-side state
/// it carries.
#[derive(Clone, Copy, Debug, PartialEq, Eq, Structural)]
pub struct Module {
    pub key: u64,
    pub value: u64,
}

/// The first module with the given type key, if any.
pub open spec fn spec_find_module(modules: Seq<Module>, key: u64) -> Option<Module>
    decreases modules.len(),
{
    if modules.len() == 0 {
        None
    } else if modules[0].key == key {
        Some(modules[0])
    } else {
        spec_find_module(modules.drop_first(), key)
    }
}

/// The module store: an ordered registry of typed state objects.
#[derive(Clone, Debug, PartialEq)]
pub struct Data {
    pub modules: Vec<Module>,
}

impl Default for Data {
    fn default() -> (r: Self)
        ensures
            r.modules@ =~= Seq::<Module>::empty(),
    {
        Data { modules: Vec::new() }
    }
}

impl Data {
    pub fn new() -> (r: Self)
        ensures
            r.modules@ =~= Seq::<Module>::empty(),
    {
        Data { modules: Vec::new() }
    }

    /// A copy of the modules, in attachment order.
    pub fn modules(&self) -> (r: Vec<Module>)
        ensures
            r@ == self.modules@,
    {
        let mut r: Vec<Module> = Vec::new();
        let mut i: usize = 0;
        while i < self.modules.len()
            invariant
                0 <= i <= self.modules@.len(),
                r@ == self.modules@.take(i as int),
            decreases self.modules@.len() - i,
        {
            r.push(self.modules[i]);
            proof {
                assert(r@ =~= self.modules@.take(i as int + 1));
            }
            i = i + 1;
        }
        proof {
            assert(r@ =~= self.modules@);
        }
        r
    }

    /// Attach a new module.
    pub fn push_module(&mut self, module: Module)
        ensures
            final(self).modules@ == old(self).modules@.push(module),
    {
        self.modules.push(module);
    }

    /// The first module whose type key matches, if any.
    pub fn get_module(&self, key: u64) -> (r: Option<Module>)
        ensures
            r == spec_find_module(self.modules@, key),
    {
        let mut i: usize = 0;
        proof {
            assert(self.modules@.skip(0) =~= self.modules@);
        }
        while i < self.modules.len()
            invariant
                0 <= i <= self.modules@.len(),
                spec_find_module(self.modules@.skip(i as int), key) == spec_find_module(
                    self.modules@,
                    key,
                ),
            decreases self.modules@.len() - i,
        {
            let m = self.modules[i];
            proof {
                assert(self.modules@.skip(i as int)[0] == m);
                assert(self.modules@.skip(i as int).drop_first() =~= self.modules@.skip(
                    i as int + 1,
                ));
            }
            if m.key == key {
                return Some(m);
            }
            i = i + 1;
        }
        proof {
            assert(self.modules@.skip(i as int).len() == 0);
        }
        None
    }
}

/// Looking a type up in a store built from two stores in order finds what
/// the first store holds, and otherwise what the second holds.
pub proof fn lemma_find_module_concat(a: Seq<Module>, b: Seq<Module>, key: u64)
    ensures
        spec_find_module(a, key) is Some ==> spec_find_module(a + b, key) == spec_find_module(
            a,
            key,
        ),
        spec_find_module(a, key) is None ==> spec_find_module(a + b, key) == spec_find_module(
            b,
            key,
        ),
    decreases a.len(),
{
    if a.len() == 0 {
        assert(a + b =~= b);
    } else {
        assert((a + b)[0] == a[0]);
        lemma_find_module_concat(a.drop_first(), b, key);
        assert((a + b).drop_first() =~= a.drop_first() + b);
    }
}

/// Law: module visibility is an attach-time snapshot. A sub-router's
/// store, filled at attach time with the child's own modules followed by
/// the parent's current ones, answers a type-lookup with the parent's
/// module whenever the child brought none of that type; modules the parent
/// gains later never enter the child's store (attach operations leave
/// existing sub-routers unchanged).
pub proof fn lemma_module_snapshot(child_mods: Seq<Module>, parent_mods: Seq<Module>, m: Module)
    requires
        spec_find_module(child_mods, m.key) is None,
        spec_find_module(parent_mods, m.key) == Some(m),
    ensures
        spec_find_module(child_mods + parent_mods, m.key) == Some(m),
{
    lemma_find_module_concat(child_mods, parent_mods, m.key);
}


} // verus!
