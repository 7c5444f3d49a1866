use vstd::prelude::*;

verus! {

/// A node's identifier on the network.
#[derive(Debug, PartialEq, Eq, Hash)]
pub struct NodeId(pub String);

impl View for NodeId {
    type V = Seq<char>;

    open spec fn view(&self) -> Seq<char> {
        self.0@
    }
}

impl Clone for NodeId {
    fn clone(&self) -> (r: Self)
        ensures
            r == *self,
    {
        NodeId(self.0.clone())
    }
}

} // verus!
