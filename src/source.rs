use vstd::prelude::*;
use crate::bindings::{latest, Bindings};

verus! {

/// Where the text of a partial comes from, by name.
pub trait IncludeSource {
    /// The text held under `name`, if any.
    spec fn contents(&self, name: Seq<char>) -> Option<Seq<char>>;

    fn lookup(&self, name: &str) -> (r: Option<String>)
        ensures
            match r {
                Some(t) => self.contents(name@) == Some(t@),
                None => self.contents(name@) is None,
            };
}

/// Partials held in memory; a later `add` of a name replaces an earlier one.
#[derive(Debug)]
pub struct MemorySource {
    pub partials: Bindings,
}

impl MemorySource {
    pub fn new() -> (r: MemorySource)
        ensures
            forall|name: Seq<char>| r.contents(name) is None,
    {
        MemorySource { partials: Bindings::new() }
    }

    pub fn add(&mut self, name: String, text: String)
        ensures
            final(self).contents(name@) == Some(text@),
            forall|other: Seq<char>| other != name@ ==> final(self).contents(other) == old(self).contents(other),
    {
        self.partials.set(name, text);
        assert(self.partials@.drop_last() =~= old(self).partials@);
    }
}

impl IncludeSource for MemorySource {
    open spec fn contents(&self, name: Seq<char>) -> Option<Seq<char>> {
        latest(self.partials@, name)
    }

    fn lookup(&self, name: &str) -> (r: Option<String>) {
        self.partials.get(name)
    }
}

} // verus!
