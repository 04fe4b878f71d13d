use crate::graph::NodeId;
use vstd::prelude::*;

verus! {

/// The binding that the latest entry for `name` gives.
pub open spec fn lookup_in(entries: Seq<(String, NodeId)>, name: Seq<char>) -> Option<NodeId>
    decreases entries.len(),
{
    if entries.len() == 0 {
        None
    } else if entries.last().0@ == name {
        Some(entries.last().1)
    } else {
        lookup_in(entries.drop_last(), name)
    }
}

/// Names in scope and the nodes they stand for; a later binding of a name
/// shadows an earlier one.
#[derive(Debug, Clone)]
pub struct Scope {
    entries: Vec<(String, NodeId)>,
}

impl Scope {
    /// The node that `name` stands for, if it is bound.
    pub closed spec fn spec_lookup(&self, name: Seq<char>) -> Option<NodeId> {
        lookup_in(self.entries@, name)
    }

    pub fn new() -> (r: Self)
        ensures
            forall|name: Seq<char>| #[trigger] r.spec_lookup(name) is None,
    {
        Scope { entries: Vec::new() }
    }

    /// Binds `name` to `id`, shadowing any earlier binding of it.
    pub fn bind(&mut self, name: String, id: NodeId)
        ensures
            final(self).spec_lookup(name@) == Some(id),
            forall|other: Seq<char>|
                other != name@ ==> #[trigger] final(self).spec_lookup(other) == old(self).spec_lookup(
                    other,
                ),
    {
        self.entries.push((name, id));
        proof {
            assert(self.entries@.drop_last() == old(self).entries@);
        }
    }

    /// The node that `name` stands for, if it is bound.
    pub fn lookup(&self, name: &String) -> (r: Option<NodeId>)
        ensures
            r == self.spec_lookup(name@),
    {
        let mut i: usize = self.entries.len();
        assert(self.entries@.take(i as int) == self.entries@);
        while i > 0
            invariant
                i <= self.entries@.len(),
                lookup_in(self.entries@, name@) == lookup_in(self.entries@.take(i as int), name@),
            decreases i,
        {
            let ghost pre = self.entries@.take(i as int);
            assert(pre.drop_last() == self.entries@.take(i - 1));
            if self.entries[i - 1].0 == *name {
                return Some(self.entries[i - 1].1);
            }
            i = i - 1;
        }
        assert(self.entries@.take(0).len() == 0);
        None
    }
}

} // verus!
