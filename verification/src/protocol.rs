//! Session protocols as values.
//!
//! A protocol describes, from the provider's side, what happens on a
//! channel.  Recursive protocols use de Bruijn variables: `Var(0)` refers
//! to the nearest enclosing `Rec`, `Var(1)` to the one around it, and so on.
use vstd::prelude::*;

verus! {

/// A session protocol.
#[derive(Debug, PartialEq, Eq)]
pub enum Protocol {
    /// The session is over; the provider signals termination.
    End,
    /// `T ⊃ P`: the provider receives a value whose type is named by the tag,
    /// then continues as `P`.
    ReceiveValue(u64, Box<Protocol>),
    /// `P ⊕ Q`: the provider picks one of two branches.
    InternalChoice(Box<InternalChoice>),
    /// `μ F`: a recursive protocol whose body refers to itself through `Var(0)`.
    Rec(Box<Protocol>),
    /// A recursion variable, by de Bruijn index.
    Var(u64),
    /// `LinearToShared<F>`: a shared protocol; whoever acquires it gets `F`
    /// with its recursion point replaced by `SharedToLinear<F>`.
    LinearToShared(Box<Protocol>),
    /// `SharedToLinear<F>`: the obligation to release a shared session of `F`.
    SharedToLinear(Box<Protocol>),
    /// `Lock<F>`: the lock that a shared provider of `F` holds while it serves.
    Lock(Box<Protocol>),
}

/// The two branches of an internal choice `P ⊕ Q`.
#[derive(Debug, PartialEq, Eq)]
pub struct InternalChoice {
    /// `P`, taken on `Left`.
    pub left: Protocol,
    /// `Q`, taken on `Right`.
    pub right: Protocol,
}

/// The internal choice `left ⊕ right`.
pub open spec fn choice(left: Protocol, right: Protocol) -> Protocol {
    Protocol::InternalChoice(Box::new(InternalChoice { left, right }))
}

/// Substitutes `q` for the variable `k` in `p`; variables above `k` move
/// down by one, since the binder of `k` goes away.
pub open spec fn subst(p: Protocol, k: nat, q: Protocol) -> Protocol
    decreases p,
{
    match p {
        Protocol::End => Protocol::End,
        Protocol::ReceiveValue(t, b) => Protocol::ReceiveValue(t, Box::new(subst(*b, k, q))),
        Protocol::InternalChoice(c) => choice(subst(c.left, k, q), subst(c.right, k, q)),
        Protocol::Rec(b) => Protocol::Rec(Box::new(subst(*b, k + 1, q))),
        Protocol::Var(j) => if j == k {
            q
        } else if j > k {
            Protocol::Var((j - 1) as u64)
        } else {
            Protocol::Var(j)
        },
        Protocol::LinearToShared(b) => Protocol::LinearToShared(Box::new(subst(*b, k + 1, q))),
        Protocol::SharedToLinear(b) => Protocol::SharedToLinear(Box::new(subst(*b, k + 1, q))),
        Protocol::Lock(b) => Protocol::Lock(Box::new(subst(*b, k + 1, q))),
    }
}

/// Every variable of `p` is bound within `d` enclosing binders.
pub open spec fn closed_at(p: Protocol, d: nat) -> bool
    decreases p,
{
    match p {
        Protocol::End => true,
        Protocol::ReceiveValue(_, b) => closed_at(*b, d),
        Protocol::InternalChoice(c) => closed_at(c.left, d) && closed_at(c.right, d),
        Protocol::Rec(b) => closed_at(*b, d + 1),
        Protocol::Var(j) => j < d,
        Protocol::LinearToShared(b) => closed_at(*b, d + 1),
        Protocol::SharedToLinear(b) => closed_at(*b, d + 1),
        Protocol::Lock(b) => closed_at(*b, d + 1),
    }
}

/// A protocol with no free variable.
pub open spec fn closed(p: Protocol) -> bool {
    closed_at(p, 0)
}

/// One unfolding of `μ F`: `F` with `μ F` in place of its variable.
pub open spec fn unfold(body: Protocol) -> Protocol {
    subst(body, 0, Protocol::Rec(Box::new(body)))
}

/// `shared_applied(F)` for a shared protocol `F`: its recursion point becomes the
/// obligation to release, `SharedToLinear<F>`.
pub open spec fn shared_applied(body: Protocol) -> Protocol {
    subst(body, 0, Protocol::SharedToLinear(Box::new(body)))
}

/// Substituting at an index beyond every representable variable changes nothing.
proof fn lemma_subst_beyond(p: Protocol, k: nat, q: Protocol)
    requires
        k > u64::MAX,
    ensures
        subst(p, k, q) == p,
    decreases p,
{
    match p {
        Protocol::End => {},
        Protocol::ReceiveValue(t, b) => {
            lemma_subst_beyond(*b, k, q);
        },
        Protocol::InternalChoice(c) => {
            lemma_subst_beyond(c.left, k, q);
            lemma_subst_beyond(c.right, k, q);
        },
        Protocol::Rec(b) => {
            lemma_subst_beyond(*b, k + 1, q);
        },
        Protocol::Var(j) => {},
        Protocol::LinearToShared(b) => {
            lemma_subst_beyond(*b, k + 1, q);
        },
        Protocol::SharedToLinear(b) => {
            lemma_subst_beyond(*b, k + 1, q);
        },
        Protocol::Lock(b) => {
            lemma_subst_beyond(*b, k + 1, q);
        },
    }
}

/// Substituting a closed protocol into one that is closed one level
/// deeper yields a protocol closed at the outer level.
pub proof fn lemma_subst_closed(p: Protocol, k: nat, q: Protocol)
    requires
        closed_at(p, k + 1),
        closed(q),
    ensures
        closed_at(subst(p, k, q), k),
    decreases p,
{
    match p {
        Protocol::End => {},
        Protocol::ReceiveValue(t, b) => {
            lemma_subst_closed(*b, k, q);
        },
        Protocol::InternalChoice(c) => {
            lemma_subst_closed(c.left, k, q);
            lemma_subst_closed(c.right, k, q);
        },
        Protocol::Rec(b) => {
            lemma_subst_closed(*b, k + 1, q);
        },
        Protocol::Var(j) => {
            if j == k {
                lemma_closed_weaken(q, 0, k);
            }
        },
        Protocol::LinearToShared(b) => {
            lemma_subst_closed(*b, k + 1, q);
        },
        Protocol::SharedToLinear(b) => {
            lemma_subst_closed(*b, k + 1, q);
        },
        Protocol::Lock(b) => {
            lemma_subst_closed(*b, k + 1, q);
        },
    }
}


/// Substitution at depth: substituting, at index `k`, a protocol closed at
/// depth `d` into one closed at depth `k + 1 + d` gives a protocol closed at
/// depth `k + d`.  Every variable above `k` must move down by one for this
/// to hold, since the binder of `k` is gone.
pub proof fn lemma_subst_closed_at(p: Protocol, k: nat, d: nat, q: Protocol)
    requires
        closed_at(p, k + 1 + d),
        closed_at(q, d),
    ensures
        closed_at(subst(p, k, q), k + d),
    decreases p,
{
    match p {
        Protocol::End => {},
        Protocol::ReceiveValue(t, b) => {
            lemma_subst_closed_at(*b, k, d, q);
        },
        Protocol::InternalChoice(c) => {
            lemma_subst_closed_at(c.left, k, d, q);
            lemma_subst_closed_at(c.right, k, d, q);
        },
        Protocol::Rec(b) => {
            lemma_subst_closed_at(*b, k + 1, d, q);
        },
        Protocol::Var(j) => {
            if j == k {
                lemma_closed_weaken(q, d, k + d);
            }
        },
        Protocol::LinearToShared(b) => {
            lemma_subst_closed_at(*b, k + 1, d, q);
        },
        Protocol::SharedToLinear(b) => {
            lemma_subst_closed_at(*b, k + 1, d, q);
        },
        Protocol::Lock(b) => {
            lemma_subst_closed_at(*b, k + 1, d, q);
        },
    }
}

/// Unfolding keeps closedness at every depth: if `μb` has no variable free
/// beyond `d` enclosing binders, neither has its unfolding.  An outer
/// variable of `b` therefore moves down by one as the binder of `μb` goes.
pub proof fn law_unfold_closed_at(b: Protocol, d: nat)
    requires
        closed_at(Protocol::Rec(Box::new(b)), d),
    ensures
        closed_at(unfold(b), d),
{
    lemma_subst_closed_at(b, 0, d, Protocol::Rec(Box::new(b)));
}

/// What a shared protocol hands to whoever acquires it keeps closedness at
/// every depth, the same way.
pub proof fn law_shared_applied_closed_at(b: Protocol, d: nat)
    requires
        closed_at(Protocol::LinearToShared(Box::new(b)), d),
    ensures
        closed_at(shared_applied(b), d),
{
    lemma_subst_closed_at(b, 0, d, Protocol::SharedToLinear(Box::new(b)));
}


/// Every variable of `p`, bound or free, is below `bound`.
pub open spec fn vars_below(p: Protocol, bound: nat) -> bool
    decreases p,
{
    match p {
        Protocol::End => true,
        Protocol::ReceiveValue(_, b) => vars_below(*b, bound),
        Protocol::InternalChoice(c) => vars_below(c.left, bound) && vars_below(c.right, bound),
        Protocol::Rec(b) => vars_below(*b, bound),
        Protocol::Var(j) => j < bound,
        Protocol::LinearToShared(b) => vars_below(*b, bound),
        Protocol::SharedToLinear(b) => vars_below(*b, bound),
        Protocol::Lock(b) => vars_below(*b, bound),
    }
}

/// `p` under one more binder at index `c`: its variables free beyond `c`
/// move up by one, so that none of them is `c`.
pub open spec fn lift(p: Protocol, c: nat) -> Protocol
    decreases p,
{
    match p {
        Protocol::End => Protocol::End,
        Protocol::ReceiveValue(t, b) => Protocol::ReceiveValue(t, Box::new(lift(*b, c))),
        Protocol::InternalChoice(ch) => choice(lift(ch.left, c), lift(ch.right, c)),
        Protocol::Rec(b) => Protocol::Rec(Box::new(lift(*b, c + 1))),
        Protocol::Var(j) => if j >= c {
            Protocol::Var((j + 1) as u64)
        } else {
            Protocol::Var(j)
        },
        Protocol::LinearToShared(b) => Protocol::LinearToShared(Box::new(lift(*b, c + 1))),
        Protocol::SharedToLinear(b) => Protocol::SharedToLinear(Box::new(lift(*b, c + 1))),
        Protocol::Lock(b) => Protocol::Lock(Box::new(lift(*b, c + 1))),
    }
}

/// Substitution removes a binder: substituting anything for a variable
/// that does not occur gives back the protocol before that variable was
/// made room for.  Every variable above the substituted one moves down by
/// one, at every index and under every binder.
pub proof fn law_subst_undoes_lift(p: Protocol, k: nat, q: Protocol)
    requires
        vars_below(p, u64::MAX as nat),
    ensures
        subst(lift(p, k), k, q) == p,
    decreases p,
{
    match p {
        Protocol::End => {},
        Protocol::ReceiveValue(t, b) => {
            law_subst_undoes_lift(*b, k, q);
        },
        Protocol::InternalChoice(c) => {
            law_subst_undoes_lift(c.left, k, q);
            law_subst_undoes_lift(c.right, k, q);
        },
        Protocol::Rec(b) => {
            law_subst_undoes_lift(*b, k + 1, q);
        },
        Protocol::Var(j) => {},
        Protocol::LinearToShared(b) => {
            law_subst_undoes_lift(*b, k + 1, q);
        },
        Protocol::SharedToLinear(b) => {
            law_subst_undoes_lift(*b, k + 1, q);
        },
        Protocol::Lock(b) => {
            law_subst_undoes_lift(*b, k + 1, q);
        },
    }
}

/// Substitution puts `q` exactly where the variable stood.
pub proof fn law_subst_at_the_variable(k: u64, q: Protocol)
    ensures
        subst(Protocol::Var(k), k as nat, q) == q,
{
}

/// Closedness at a depth carries over to any greater depth.
pub proof fn lemma_closed_weaken(p: Protocol, d: nat, e: nat)
    requires
        closed_at(p, d),
        d <= e,
    ensures
        closed_at(p, e),
    decreases p,
{
    match p {
        Protocol::End => {},
        Protocol::ReceiveValue(t, b) => {
            lemma_closed_weaken(*b, d, e);
        },
        Protocol::InternalChoice(c) => {
            lemma_closed_weaken(c.left, d, e);
            lemma_closed_weaken(c.right, d, e);
        },
        Protocol::Rec(b) => {
            lemma_closed_weaken(*b, d + 1, e + 1);
        },
        Protocol::Var(j) => {},
        Protocol::LinearToShared(b) => {
            lemma_closed_weaken(*b, d + 1, e + 1);
        },
        Protocol::SharedToLinear(b) => {
            lemma_closed_weaken(*b, d + 1, e + 1);
        },
        Protocol::Lock(b) => {
            lemma_closed_weaken(*b, d + 1, e + 1);
        },
    }
}

/// Unfolding a closed recursive protocol gives a closed protocol.
pub proof fn lemma_unfold_closed(body: Protocol)
    requires
        closed(Protocol::Rec(Box::new(body))),
    ensures
        closed(unfold(body)),
{
    lemma_subst_closed(body, 0, Protocol::Rec(Box::new(body)));
}

/// The protocol a closed shared protocol hands to whoever acquires it is closed.
pub proof fn lemma_shared_applied_closed(body: Protocol)
    requires
        closed(Protocol::LinearToShared(Box::new(body))),
    ensures
        closed(shared_applied(body)),
{
    lemma_subst_closed(body, 0, Protocol::SharedToLinear(Box::new(body)));
}


/// A protocol that is closed once a closed protocol replaces its variable
/// `k` had no free variable beyond `k`.
proof fn lemma_subst_closed_back(p: Protocol, k: nat, q: Protocol)
    requires
        closed_at(subst(p, k, q), k),
    ensures
        closed_at(p, k + 1),
    decreases p,
{
    match p {
        Protocol::End => {},
        Protocol::ReceiveValue(t, b) => {
            lemma_subst_closed_back(*b, k, q);
        },
        Protocol::InternalChoice(c) => {
            lemma_subst_closed_back(c.left, k, q);
            lemma_subst_closed_back(c.right, k, q);
        },
        Protocol::Rec(b) => {
            lemma_subst_closed_back(*b, k + 1, q);
        },
        Protocol::Var(j) => {},
        Protocol::LinearToShared(b) => {
            lemma_subst_closed_back(*b, k + 1, q);
        },
        Protocol::SharedToLinear(b) => {
            lemma_subst_closed_back(*b, k + 1, q);
        },
        Protocol::Lock(b) => {
            lemma_subst_closed_back(*b, k + 1, q);
        },
    }
}

/// A recursive protocol is closed exactly when its unfolding is.
pub proof fn lemma_unfold_closed_iff(body: Protocol)
    ensures
        closed(Protocol::Rec(Box::new(body))) <==> closed(unfold(body)),
{
    if closed(Protocol::Rec(Box::new(body))) {
        lemma_unfold_closed(body);
    }
    if closed(unfold(body)) {
        lemma_subst_closed_back(body, 0, Protocol::Rec(Box::new(body)));
    }
}

impl Protocol {
    /// A copy of the protocol.
    pub fn duplicate(&self) -> (res: Protocol)
        ensures
            res == *self,
        decreases *self,
    {
        match self {
            Protocol::End => Protocol::End,
            Protocol::ReceiveValue(t, b) => Protocol::ReceiveValue(*t, Box::new(b.duplicate())),
            Protocol::InternalChoice(c) => Protocol::InternalChoice(
                Box::new(InternalChoice { left: c.left.duplicate(), right: c.right.duplicate() }),
            ),
            Protocol::Rec(b) => Protocol::Rec(Box::new(b.duplicate())),
            Protocol::Var(j) => Protocol::Var(*j),
            Protocol::LinearToShared(b) => Protocol::LinearToShared(Box::new(b.duplicate())),
            Protocol::SharedToLinear(b) => Protocol::SharedToLinear(Box::new(b.duplicate())),
            Protocol::Lock(b) => Protocol::Lock(Box::new(b.duplicate())),
        }
    }

    /// Structural equality of protocols.
    pub fn same(&self, other: &Protocol) -> (res: bool)
        ensures
            res == (*self == *other),
        decreases *self,
    {
        match (self, other) {
            (Protocol::End, Protocol::End) => true,
            (Protocol::ReceiveValue(t1, b1), Protocol::ReceiveValue(t2, b2)) => *t1 == *t2
                && b1.same(b2),
            (Protocol::InternalChoice(c1), Protocol::InternalChoice(c2)) => c1.left.same(&c2.left)
                && c1.right.same(&c2.right),
            (Protocol::Rec(b1), Protocol::Rec(b2)) => b1.same(b2),
            (Protocol::Var(j1), Protocol::Var(j2)) => *j1 == *j2,
            (Protocol::LinearToShared(b1), Protocol::LinearToShared(b2)) => b1.same(b2),
            (Protocol::SharedToLinear(b1), Protocol::SharedToLinear(b2)) => b1.same(b2),
            (Protocol::Lock(b1), Protocol::Lock(b2)) => b1.same(b2),
            _ => false,
        }
    }

    /// `subst(self, k, q)`.
    pub fn substitute(&self, k: u64, q: &Protocol) -> (res: Protocol)
        ensures
            res == subst(*self, k as nat, *q),
        decreases *self, 0nat,
    {
        match self {
            Protocol::End => Protocol::End,
            Protocol::ReceiveValue(t, b) => Protocol::ReceiveValue(
                *t,
                Box::new(b.substitute(k, q)),
            ),
            Protocol::InternalChoice(c) => Protocol::InternalChoice(
                Box::new(
                    InternalChoice { left: c.left.substitute(k, q), right: c.right.substitute(k, q) },
                ),
            ),
            Protocol::Rec(b) => Protocol::Rec(Box::new(b.substitute_under(k, q))),
            Protocol::Var(j) => {
                if *j == k {
                    q.duplicate()
                } else if *j > k {
                    Protocol::Var(*j - 1)
                } else {
                    Protocol::Var(*j)
                }
            },
            Protocol::LinearToShared(b) => Protocol::LinearToShared(
                Box::new(b.substitute_under(k, q)),
            ),
            Protocol::SharedToLinear(b) => Protocol::SharedToLinear(
                Box::new(b.substitute_under(k, q)),
            ),
            Protocol::Lock(b) => Protocol::Lock(Box::new(b.substitute_under(k, q))),
        }
    }

    /// `subst(self, k + 1, q)`, for the body of a binder.
    fn substitute_under(&self, k: u64, q: &Protocol) -> (res: Protocol)
        ensures
            res == subst(*self, (k + 1) as nat, *q),
        decreases *self, 1nat,
    {
        if k == u64::MAX {
            proof {
                lemma_subst_beyond(*self, (k + 1) as nat, *q);
            }
            self.duplicate()
        } else {
            self.substitute(k + 1, q)
        }
    }

    /// One unfolding of the recursive protocol with this body.
    pub fn unfold(&self) -> (res: Protocol)
        ensures
            res == unfold(*self),
    {
        let whole = Protocol::Rec(Box::new(self.duplicate()));
        self.substitute(0, &whole)
    }

    /// What a shared protocol with this body hands to whoever acquires it.
    pub fn shared_applied(&self) -> (res: Protocol)
        ensures
            res == shared_applied(*self),
    {
        let release = Protocol::SharedToLinear(Box::new(self.duplicate()));
        self.substitute(0, &release)
    }
}

} // verus!
