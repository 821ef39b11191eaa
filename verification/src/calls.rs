//! Calls into the program around the library (running git, reading files),
//! made through functions that the program hands in, with the list of the
//! calls made so far.
use vstd::prelude::*;

verus! {

/// A function of the program around the library, `callee`, and the calls
/// made to it through this value so far: each argument with what came back,
/// in the order they were made.
#[verifier::reject_recursive_types(A)]
#[verifier::reject_recursive_types(B)]
pub struct Recorded<A, B, F: Fn(A) -> B> {
    callee: F,
    calls: Ghost<Seq<(A, B)>>,
}

impl<A, B, F: Fn(A) -> B> Recorded<A, B, F> {
    /// The callee accepts every argument, and what each recorded call gave
    /// back is an answer the callee may give to its argument.
    #[verifier::type_invariant]
    spec fn faithful(self) -> bool {
        &&& forall|a: A| #[trigger] call_requires(self.callee, (a,))
        &&& forall|i: int|
            0 <= i < self.calls@.len() ==> #[trigger] call_ensures(
                self.callee,
                (self.calls@[i].0,),
                self.calls@[i].1,
            )
    }

    /// The calls made so far, in order: each argument with its answer.
    pub closed spec fn calls(&self) -> Seq<(A, B)> {
        self.calls@
    }

    /// The function that the calls go to.
    pub closed spec fn callee(&self) -> F {
        self.callee
    }

    /// Calls go to `callee`, which must accept every argument; none made yet.
    pub fn new(callee: F) -> (recorded: Self)
        requires
            forall|a: A| #[trigger] call_requires(callee, (a,)),
        ensures
            recorded.calls() == Seq::<(A, B)>::empty(),
            recorded.callee() == callee,
    {
        Recorded { callee, calls: Ghost(Seq::empty()) }
    }

    /// Calls the callee with `a`: the call is added to the list, and what
    /// came back is an answer the callee may give to `a`.
    pub fn call(&mut self, a: A) -> (b: B)
        ensures
            final(self).calls() == old(self).calls().push((a, b)),
            final(self).callee() == old(self).callee(),
            call_ensures(old(self).callee(), (a,), b),
    {
        proof {
            use_type_invariant(&*self);
        }
        let ghost given = a;
        let b = (self.callee)(a);
        let ghost got = b;
        self.calls = Ghost(self.calls@.push((given, got)));
        b
    }
}

} // verus!
