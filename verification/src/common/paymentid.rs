use vstd::prelude::*;

verus! {

/// The identifier of one payment attempt.
#[derive(Debug, PartialEq, Eq, Hash)]
pub struct PaymentId(pub String);

impl View for PaymentId {
    type V = Seq<char>;

    open spec fn view(&self) -> Seq<char> {
        self.0@
    }
}

impl Clone for PaymentId {
    fn clone(&self) -> (r: Self)
        ensures
            r == *self,
    {
        PaymentId(self.0.clone())
    }
}

} // verus!
