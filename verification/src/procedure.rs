//! Work that alternates decisions with requests to the outside.
//!
//! A procedure is a value that either asks for one thing or is finished. The
//! caller does what is asked and hands back the reply; the procedure decides
//! what comes next. All decisions are thereby functions from a state and a
//! reply to a state, and are stated as such.

use vstd::prelude::*;

verus! {

/// A procedure over some vocabulary of requests and replies.
pub trait Procedure: Sized + View {
    type Request: View;

    type Reply: View;

    /// What the procedure asks for in a state; nothing once it is finished.
    spec fn wants(state: <Self as View>::V) -> Option<<Self::Request as View>::V>;

    /// The state after a reply. A reply that does not answer the request, or
    /// comes after the end, changes nothing.
    spec fn after(state: <Self as View>::V, reply: <Self::Reply as View>::V) -> <Self as View>::V;

    /// The pending request.
    fn request(&self) -> (request: Option<Self::Request>)
        ensures
            match request {
                Some(r) => Self::wants(self@) == Some(r@),
                None => Self::wants(self@) is None,
            },
    ;

    /// The procedure after the reply.
    fn resume(self, reply: Self::Reply) -> (next: Self)
        ensures
            next@ == Self::after(self@, reply@),
    ;
}

/// A model of what the requests of a vocabulary are about.
pub trait World: Sized {
    type Request: View;

    type Reply: View;

    /// Whether a request may be answered by a reply, leaving the world as in
    /// `after`.
    spec fn allows(
        self,
        request: <Self::Request as View>::V,
        reply: <Self::Reply as View>::V,
        after: Self,
    ) -> bool;
}

/// What happened at one step: the reply, and the world after it.
pub struct Step<W: World> {
    pub reply: <W::Reply as View>::V,
    pub world: W,
}

/// Whether a procedure in a state can take a step.
pub open spec fn can_step<W: World, P: Procedure<Request = W::Request, Reply = W::Reply>>(
    state: <P as View>::V,
    world: W,
    step: Step<W>,
) -> bool {
    P::wants(state) matches Some(request) && world.allows(request, step.reply, step.world)
}

/// The world after a number of steps.
pub open spec fn world_after<W: World>(world: W, steps: Seq<Step<W>>) -> W {
    if steps.len() == 0 {
        world
    } else {
        steps.last().world
    }
}

/// The state of a procedure after a number of steps.
pub open spec fn state_after<W: World, P: Procedure<Request = W::Request, Reply = W::Reply>>(
    state: <P as View>::V,
    steps: Seq<Step<W>>,
) -> <P as View>::V
    decreases steps.len(),
{
    if steps.len() == 0 {
        state
    } else {
        P::after(state_after::<W, P>(state, steps.drop_last()), steps.last().reply)
    }
}

/// Whether a procedure, started in `state` and in `world`, can meet with these
/// steps.
pub open spec fn runs<W: World, P: Procedure<Request = W::Request, Reply = W::Reply>>(
    state: <P as View>::V,
    world: W,
    steps: Seq<Step<W>>,
) -> bool
    decreases steps.len(),
{
    steps.len() == 0 || {
        &&& runs::<W, P>(state, world, steps.drop_last())
        &&& can_step::<W, P>(
            state_after::<W, P>(state, steps.drop_last()),
            world_after(world, steps.drop_last()),
            steps.last(),
        )
    }
}

/// What holds at the start and is kept by every step holds after any number of
/// them.
pub proof fn lemma_invariant<W: World, P: Procedure<Request = W::Request, Reply = W::Reply>>(
    inv: spec_fn(<P as View>::V, W) -> bool,
    state: <P as View>::V,
    world: W,
    steps: Seq<Step<W>>,
)
    requires
        runs::<W, P>(state, world, steps),
        inv(state, world),
        forall|s: <P as View>::V, w: W, step: Step<W>| #[trigger]
            can_step::<W, P>(s, w, step) && inv(s, w) ==> inv(P::after(s, step.reply), step.world),
    ensures
        inv(state_after::<W, P>(state, steps), world_after(world, steps)),
    decreases steps.len(),
{
    if steps.len() > 0 {
        lemma_invariant::<W, P>(inv, state, world, steps.drop_last());
    }
}

/// The state of a procedure after a number of replies, whatever they are.
pub open spec fn state_given<P: Procedure>(
    state: <P as View>::V,
    replies: Seq<<P::Reply as View>::V>,
) -> <P as View>::V
    decreases replies.len(),
{
    if replies.len() == 0 {
        state
    } else {
        P::after(state_given::<P>(state, replies.drop_last()), replies.last())
    }
}

/// What holds at the start and is kept by every reply holds after any number
/// of them.
pub proof fn lemma_kept<P: Procedure>(
    inv: spec_fn(<P as View>::V) -> bool,
    state: <P as View>::V,
    replies: Seq<<P::Reply as View>::V>,
)
    requires
        inv(state),
        forall|s: <P as View>::V, reply: <P::Reply as View>::V|
            inv(s) ==> inv(#[trigger] P::after(s, reply)),
    ensures
        inv(state_given::<P>(state, replies)),
    decreases replies.len(),
{
    if replies.len() > 0 {
        lemma_kept::<P>(inv, state, replies.drop_last());
    }
}

/// What a procedure asks for after a number of the replies.
pub open spec fn asked<P: Procedure>(
    state: <P as View>::V,
    replies: Seq<<P::Reply as View>::V>,
    i: int,
) -> Option<<P::Request as View>::V> {
    P::wants(state_given::<P>(state, replies.take(i)))
}

/// Whether the request before a reply is this one, and the reply is this one.
pub open spec fn answered<P: Procedure>(
    state: <P as View>::V,
    replies: Seq<<P::Reply as View>::V>,
    i: int,
    request: <P::Request as View>::V,
    reply: <P::Reply as View>::V,
) -> bool {
    0 <= i < replies.len() && asked::<P>(state, replies, i) == Some(request) && replies[i] == reply
}

/// Whether this was asked for at some time, and answered like this.
pub open spec fn happened<P: Procedure>(
    state: <P as View>::V,
    replies: Seq<<P::Reply as View>::V>,
    request: <P::Request as View>::V,
    reply: <P::Reply as View>::V,
) -> bool {
    exists|i: int| #[trigger] answered::<P>(state, replies, i, request, reply)
}

/// What happened up to the last reply has happened, and so has the last reply.
pub proof fn lemma_happened<P: Procedure>(
    state: <P as View>::V,
    replies: Seq<<P::Reply as View>::V>,
)
    requires
        replies.len() > 0,
    ensures
        forall|request: <P::Request as View>::V, reply: <P::Reply as View>::V|
            happened::<P>(state, replies.drop_last(), request, reply) ==> #[trigger] happened::<P>(
                state,
                replies,
                request,
                reply,
            ),
        P::wants(state_given::<P>(state, replies.drop_last())) matches Some(request)
            ==> happened::<P>(state, replies, request, replies.last()),
{
    let before = replies.drop_last();
    let n = before.len() as int;
    assert forall|request: <P::Request as View>::V, reply: <P::Reply as View>::V|
        happened::<P>(state, before, request, reply) implies #[trigger] happened::<P>(
        state,
        replies,
        request,
        reply,
    ) by {
        let i = choose|i: int| #[trigger] answered::<P>(state, before, i, request, reply);
        assert(before.take(i) =~= replies.take(i));
        assert(answered::<P>(state, replies, i, request, reply));
    }
    if let Some(request) = P::wants(state_given::<P>(state, before)) {
        assert(replies.take(n) =~= before);
        assert(answered::<P>(state, replies, n, request, replies.last()));
    }
}

} // verus!
