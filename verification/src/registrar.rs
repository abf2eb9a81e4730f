use vstd::prelude::*;
use crate::table::table_of;

verus! {

/// Transient collector handed to a module's registration entry point.
///
/// It records every name -> callable binding the module reports during
/// that single call and has no life beyond it: the registry copies the
/// collected bindings out when the entry point returns. A module may
/// register the same name twice within one pass; the later registration
/// wins, consistent with the registry's merge-time overwrite policy.
pub struct PluginRegistrar<F> {
    entries: Vec<(String, F)>,
}

impl<F> View for PluginRegistrar<F> {
    type V = Map<Seq<char>, F>;

    /// The bindings collected so far, as a name-indexed table.
    closed spec fn view(&self) -> Map<Seq<char>, F> {
        table_of(self.entries@)
    }
}

impl<F> PluginRegistrar<F> {
    /// A fresh collector with no bindings.
    pub fn new() -> (r: Self)
        ensures
            r@ == Map::<Seq<char>, F>::empty(),
    {
        PluginRegistrar { entries: Vec::new() }
    }

    /// Records `function` under `name`. A later registration of the same
    /// name, in this pass or in a later load, replaces this one.
    pub fn register_function(&mut self, name: &str, function: F)
        ensures
            final(self)@ == old(self)@.insert(name@, function),
    {
        let owned = name.to_owned();
        self.entries.push((owned, function));
        proof {
            assert(self.entries@.drop_last() =~= old(self).entries@);
        }
    }

    /// Hands the collected bindings over for the merge into the registry,
    /// in registration order.
    pub(crate) fn into_entries(self) -> (r: Vec<(String, F)>)
        ensures
            table_of(r@) == self@,
    {
        self.entries
    }
}

} // verus!
