//! Typing contexts: the channels a session uses, slot by slot, and the
//! lenses that read and replace one slot.
use vstd::prelude::*;
use crate::protocol::{Protocol, closed};

verus! {

/// One slot of a context: nothing, or a channel that follows a protocol.
#[derive(Debug, PartialEq, Eq)]
pub enum Slot {
    /// The slot holds no channel.
    Empty,
    /// The slot holds a channel on which this session is the consumer.
    Chan(Protocol),
}

impl Slot {
    /// A copy of the slot.
    pub fn duplicate(&self) -> (res: Slot)
        ensures
            res == *self,
    {
        match self {
            Slot::Empty => Slot::Empty,
            Slot::Chan(p) => Slot::Chan(p.duplicate()),
        }
    }

    /// Structural equality of slots.
    pub fn same(&self, other: &Slot) -> (res: bool)
        ensures
            res == (*self == *other),
    {
        match (self, other) {
            (Slot::Empty, Slot::Empty) => true,
            (Slot::Chan(p), Slot::Chan(q)) => p.same(q),
            _ => false,
        }
    }
}

/// A slot whose protocol, if any, has no free variable.
pub open spec fn closed_slot(s: Slot) -> bool {
    match s {
        Slot::Empty => true,
        Slot::Chan(p) => closed(p),
    }
}

/// A context whose protocols have no free variable.
pub open spec fn closed_context(ctx: Seq<Slot>) -> bool {
    forall|i: int| 0 <= i < ctx.len() ==> closed_slot(#[trigger] ctx[i])
}

/// A context whose slots are all empty.
pub open spec fn empty_context(ctx: Seq<Slot>) -> bool {
    forall|i: int| 0 <= i < ctx.len() ==> ctx[i] == Slot::Empty
}

/// Two contexts of one length that agree on every slot but `n`.
pub open spec fn agree_except(c1: Seq<Slot>, c2: Seq<Slot>, n: int) -> bool {
    &&& c1.len() == c2.len()
    &&& forall|i: int| 0 <= i < c1.len() && i != n ==> c1[i] == c2[i]
}

/// A copy of a context.
pub fn clone_context(ctx: &Vec<Slot>) -> (res: Vec<Slot>)
    ensures
        res@ == ctx@,
{
    let mut res: Vec<Slot> = Vec::new();
    let mut i: usize = 0;
    while i < ctx.len()
        invariant
            i <= ctx.len(),
            res@ == ctx@.take(i as int),
        decreases ctx.len() - i,
    {
        res.push(ctx[i].duplicate());
        proof {
            assert(ctx@.take(i + 1) == ctx@.take(i as int).push(ctx@[i as int]));
        }
        i = i + 1;
    }
    proof {
        assert(ctx@.take(ctx@.len() as int) == ctx@);
    }
    res
}

/// Whether every slot of the context is empty.
pub fn is_empty_context(ctx: &Vec<Slot>) -> (res: bool)
    ensures
        res == empty_context(ctx@),
{
    let mut i: usize = 0;
    while i < ctx.len()
        invariant
            i <= ctx.len(),
            forall|j: int| 0 <= j < i ==> ctx@[j] == Slot::Empty,
        decreases ctx.len() - i,
    {
        match &ctx[i] {
            Slot::Empty => {},
            Slot::Chan(_) => {
                return false;
            },
        }
        i = i + 1;
    }
    true
}

/// The slot at index `n`, which a lens on `n` reads.
pub fn extract_source(ctx: &Vec<Slot>, n: usize) -> (res: Slot)
    requires
        n < ctx@.len(),
    ensures
        res == ctx@[n as int],
{
    ctx[n].duplicate()
}

/// The context with the slot at index `n` replaced by `target`.
pub fn insert_target(ctx: &Vec<Slot>, n: usize, target: Slot) -> (res: Vec<Slot>)
    requires
        n < ctx@.len(),
    ensures
        res@ == ctx@.update(n as int, target),
{
    let mut res = clone_context(ctx);
    res.set(n, target);
    res
}

/// The context followed by the slots of `more`.
pub fn append_context(ctx: &Vec<Slot>, more: &Vec<Slot>) -> (res: Vec<Slot>)
    ensures
        res@ == ctx@ + more@,
{
    let mut res = clone_context(ctx);
    let mut i: usize = 0;
    while i < more.len()
        invariant
            i <= more.len(),
            res@ == ctx@ + more@.take(i as int),
        decreases more.len() - i,
    {
        res.push(more[i].duplicate());
        proof {
            assert(more@.take(i + 1) == more@.take(i as int).push(more@[i as int]));
            assert(ctx@ + more@.take(i + 1) == (ctx@ + more@.take(i as int)).push(more@[i as int]));
        }
        i = i + 1;
    }
    proof {
        assert(more@.take(more@.len() as int) == more@);
    }
    res
}

/// Reading a slot after replacing it gives what was put there.
pub proof fn lemma_lens_put_get(ctx: Seq<Slot>, n: int, s: Slot)
    requires
        0 <= n < ctx.len(),
    ensures
        ctx.update(n, s)[n] == s,
        ctx.update(n, s).len() == ctx.len(),
{
}

/// Putting back the slot that was read leaves the context as it was.
pub proof fn lemma_lens_get_put(ctx: Seq<Slot>, n: int)
    requires
        0 <= n < ctx.len(),
    ensures
        ctx.update(n, ctx[n]) == ctx,
{
    assert(ctx.update(n, ctx[n]) =~= ctx);
}

/// A second replacement of the same slot overrides the first.
pub proof fn lemma_lens_put_put(ctx: Seq<Slot>, n: int, s: Slot, t: Slot)
    requires
        0 <= n < ctx.len(),
    ensures
        ctx.update(n, s).update(n, t) == ctx.update(n, t),
{
    assert(ctx.update(n, s).update(n, t) =~= ctx.update(n, t));
}

/// Replacing a slot of a closed context by a closed slot keeps it closed.
pub proof fn lemma_update_closed(ctx: Seq<Slot>, n: int, s: Slot)
    requires
        closed_context(ctx),
        closed_slot(s),
        0 <= n < ctx.len(),
    ensures
        closed_context(ctx.update(n, s)),
{
    assert forall|i: int| 0 <= i < ctx.update(n, s).len() implies closed_slot(
        #[trigger] ctx.update(n, s)[i],
    ) by {
        if i != n {
            assert(ctx.update(n, s)[i] == ctx[i]);
        }
    }
}

/// Replacing a slot leaves every other slot alone.
pub proof fn lemma_lens_put_other(ctx: Seq<Slot>, n: int, m: int, s: Slot)
    requires
        0 <= n < ctx.len(),
        0 <= m < ctx.len(),
        n != m,
    ensures
        ctx.update(n, s)[m] == ctx[m],
{
}

} // verus!
