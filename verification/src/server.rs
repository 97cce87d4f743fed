//! The decisions of a running shared session: which client holds the lock,
//! which clients wait for it, and when the server stops.
//!
//! A shared session serves one client at a time.  Requests to acquire it
//! queue up in the order they arrive; when the client that holds the lock
//! releases it, the next waiting client gets it.  When every handle on the
//! shared session is gone, the server finishes the requests already queued
//! and then stops.
use vstd::prelude::*;

verus! {

/// What reaches the server.
#[derive(Debug, Clone, Copy, PartialEq, Eq, Structural)]
pub enum ServerEvent {
    /// The client with this id asks to acquire the shared session.
    Acquire(u64),
    /// The client with this id releases the shared session.
    Release(u64),
    /// Every handle on the shared session has been dropped.
    Close,
}

/// What the server does in answer.
#[derive(Debug, Clone, Copy, PartialEq, Eq, Structural)]
pub enum ServerAction {
    /// Hand the lock to the client with this id.
    Grant(u64),
    /// The request waits in the queue.
    Queued,
    /// Nothing to do until the next event.
    Idle,
    /// The event does not fit the state: a request from a client that
    /// already holds or waits for the lock, a request after the close, a
    /// release from a client that does not hold the lock, or a second close.
    Reject,
    /// No client holds or waits for the lock and no new one can come: the
    /// shared session is over.
    Stop,
}

/// The abstract state of a server.
pub struct ServerModel {
    pub holder: Option<u64>,
    pub waiting: Seq<u64>,
    pub open: bool,
}

/// The state of a running shared session.
pub struct SharedServer {
    holder: Option<u64>,
    waiting: Vec<u64>,
    open: bool,
}

/// The server's state is consistent: the queue is empty while nobody holds
/// the lock, and no client appears twice among holder and queue.
pub open spec fn server_wf(m: ServerModel) -> bool {
    &&& (m.holder is None ==> m.waiting.len() == 0)
    &&& (forall|i: int, j: int|
        0 <= i < j < m.waiting.len() ==> m.waiting[i] != m.waiting[j])
    &&& (m.holder matches Some(h) ==> !m.waiting.contains(h))
}

/// Whether the client is the holder or in the queue.
pub open spec fn known(m: ServerModel, c: u64) -> bool {
    m.holder == Some(c) || m.waiting.contains(c)
}

/// The server's answer to one event, and its next state.
pub open spec fn next(m: ServerModel, e: ServerEvent) -> (ServerModel, ServerAction) {
    match e {
        ServerEvent::Acquire(c) => if !m.open || known(m, c) {
            (m, ServerAction::Reject)
        } else if m.holder is None {
            (ServerModel { holder: Some(c), ..m }, ServerAction::Grant(c))
        } else {
            (ServerModel { waiting: m.waiting.push(c), ..m }, ServerAction::Queued)
        },
        ServerEvent::Release(c) => if m.holder != Some(c) {
            (m, ServerAction::Reject)
        } else if m.waiting.len() > 0 {
            (
                ServerModel { holder: Some(m.waiting[0]), waiting: m.waiting.drop_first(), ..m },
                ServerAction::Grant(m.waiting[0]),
            )
        } else if m.open {
            (ServerModel { holder: None, ..m }, ServerAction::Idle)
        } else {
            (ServerModel { holder: None, ..m }, ServerAction::Stop)
        },
        ServerEvent::Close => if !m.open {
            (m, ServerAction::Reject)
        } else if m.holder is None {
            (ServerModel { open: false, ..m }, ServerAction::Stop)
        } else {
            (ServerModel { open: false, ..m }, ServerAction::Idle)
        },
    }
}

impl SharedServer {
    /// The abstract state.
    pub closed spec fn model(&self) -> ServerModel {
        ServerModel { holder: self.holder, waiting: self.waiting@, open: self.open }
    }

    /// A server that has just started: nobody holds the lock, nobody waits,
    /// and handles on it exist.
    pub fn new() -> (res: SharedServer)
        ensures
            res.model() == (ServerModel { holder: None, waiting: Seq::empty(), open: true }),
            server_wf(res.model()),
    {
        SharedServer { holder: None, waiting: Vec::new(), open: true }
    }

    /// The client that holds the lock, if any.
    pub fn holder(&self) -> (res: Option<u64>)
        ensures
            res == self.model().holder,
    {
        self.holder
    }

    /// The clients waiting for the lock, first come first.
    pub fn waiting(&self) -> (res: &Vec<u64>)
        ensures
            res@ == self.model().waiting,
    {
        &self.waiting
    }

    /// Whether handles on the shared session still exist.
    pub fn is_open(&self) -> (res: bool)
        ensures
            res == self.model().open,
    {
        self.open
    }

    fn is_known(&self, c: u64) -> (res: bool)
        ensures
            res == known(self.model(), c),
    {
        if self.holder == Some(c) {
            return true;
        }
        let mut i: usize = 0;
        while i < self.waiting.len()
            invariant
                i <= self.waiting.len(),
                forall|j: int| 0 <= j < i ==> self.waiting@[j] != c,
                self.holder != Some(c),
            decreases self.waiting.len() - i,
        {
            if self.waiting[i] == c {
                proof {
                    assert(self.model().waiting[i as int] == c);
                }
                return true;
            }
            i = i + 1;
        }
        false
    }

    /// The server's state stays consistent between events.
    #[verifier::type_invariant]
    spec fn consistent(&self) -> bool {
        server_wf(self.model())
    }

    /// Handles one event and says what to do.
    pub fn step(&mut self, e: ServerEvent) -> (res: ServerAction)
        ensures
            server_wf(final(self).model()),
            (final(self).model(), res) == next(old(self).model(), e),
    {
        proof {
            use_type_invariant(&*self);
        }
        let ghost m = self.model();
        proof {
            lemma_next_keeps_wf(m, e);
        }
        let known = match e {
            ServerEvent::Acquire(c) => self.is_known(c),
            _ => false,
        };
        let holder = self.holder;
        let open = self.open;
        // Take the queue out; an empty queue keeps the state consistent.
        let mut waiting: Vec<u64> = Vec::new();
        std::mem::swap(&mut waiting, &mut self.waiting);
        let mut new_holder = holder;
        let mut new_open = open;
        let res = match e {
            ServerEvent::Acquire(c) => {
                if !open || known {
                    ServerAction::Reject
                } else if holder.is_none() {
                    new_holder = Some(c);
                    ServerAction::Grant(c)
                } else {
                    waiting.push(c);
                    ServerAction::Queued
                }
            },
            ServerEvent::Release(c) => {
                if holder != Some(c) {
                    ServerAction::Reject
                } else if waiting.len() > 0 {
                    let first = waiting.remove(0);
                    proof {
                        assert(waiting@ =~= m.waiting.drop_first());
                    }
                    new_holder = Some(first);
                    ServerAction::Grant(first)
                } else {
                    new_holder = None;
                    if open {
                        ServerAction::Idle
                    } else {
                        ServerAction::Stop
                    }
                }
            },
            ServerEvent::Close => {
                if !open {
                    ServerAction::Reject
                } else {
                    new_open = false;
                    if holder.is_none() {
                        ServerAction::Stop
                    } else {
                        ServerAction::Idle
                    }
                }
            },
        };
        *self = SharedServer { holder: new_holder, waiting, open: new_open };
        res
    }
}

/// Every event keeps the server's state consistent.
pub proof fn lemma_next_keeps_wf(m: ServerModel, e: ServerEvent)
    requires
        server_wf(m),
    ensures
        server_wf(next(m, e).0),
{
    let n = next(m, e).0;
    match e {
        ServerEvent::Acquire(c) => {
            if m.open && !known(m, c) && m.holder is Some {
                assert(n.waiting == m.waiting.push(c));
                assert forall|i: int, j: int|
                    0 <= i < j < n.waiting.len() implies n.waiting[i] != n.waiting[j] by {
                    if j == m.waiting.len() {
                        assert(m.waiting.contains(m.waiting[i]));
                    }
                }
                let h = m.holder->0;
                if n.waiting.contains(h) {
                    let k = choose|k: int| 0 <= k < n.waiting.len() && n.waiting[k] == h;
                    if k < m.waiting.len() {
                        assert(m.waiting.contains(h));
                    }
                }
            }
        },
        ServerEvent::Release(c) => {
            if m.holder == Some(c) && m.waiting.len() > 0 {
                assert forall|i: int, j: int|
                    0 <= i < j < n.waiting.len() implies n.waiting[i] != n.waiting[j] by {
                    assert(n.waiting[i] == m.waiting[i + 1]);
                    assert(n.waiting[j] == m.waiting[j + 1]);
                }
                if n.waiting.contains(m.waiting[0]) {
                    let k = choose|k: int|
                        0 <= k < n.waiting.len() && n.waiting[k] == m.waiting[0];
                    assert(m.waiting[k + 1] == m.waiting[0]);
                }
            }
        },
        ServerEvent::Close => {},
    }
}

/// Mutual exclusion: the lock goes to a client only when it is free and the
/// client asks for it, or when its holder releases it and the client is
/// first in the queue; the client then holds it.
pub proof fn lemma_grant_exclusive(m: ServerModel, e: ServerEvent, c: u64)
    requires
        server_wf(m),
        next(m, e).1 == ServerAction::Grant(c),
    ensures
        next(m, e).0.holder == Some(c),
        (m.holder is None && e == ServerEvent::Acquire(c)) || (e is Release && m.holder == Some(
            e->Release_0,
        ) && m.waiting.len() > 0 && m.waiting[0] == c),
{
}

/// The holder changes only through a grant or a release by the holder.
pub proof fn lemma_holder_stable(m: ServerModel, e: ServerEvent)
    requires
        server_wf(m),
        !(next(m, e).1 is Grant),
        next(m, e).0.holder != m.holder,
    ensures
        e == ServerEvent::Release(m.holder->0),
        next(m, e).0.holder is None,
{
}


/// Once the server stops, nobody holds or waits for the lock, no handle is
/// left, and every later request is refused.
pub proof fn lemma_stop_is_final(m: ServerModel, e: ServerEvent, c: u64)
    requires
        server_wf(m),
        next(m, e).1 == ServerAction::Stop,
    ensures
        next(m, e).0.holder is None,
        next(m, e).0.waiting.len() == 0,
        !next(m, e).0.open,
        next(next(m, e).0, ServerEvent::Acquire(c)).1 == ServerAction::Reject,
{
}

/// The state after the holder releases the lock `k` times in a row.
pub open spec fn after_releases(m: ServerModel, k: nat) -> ServerModel
    decreases k,
{
    if k == 0 {
        m
    } else {
        let r = after_releases(m, (k - 1) as nat);
        match r.holder {
            Some(h) => next(r, ServerEvent::Release(h)).0,
            None => r,
        }
    }
}

/// First come, first served: the client at place `i` of the queue holds the
/// lock once the lock has been released `i + 1` times in a row.
pub proof fn lemma_queue_served_in_order(m: ServerModel, i: nat)
    requires
        server_wf(m),
        i < m.waiting.len(),
    ensures
        after_releases(m, i + 1).holder == Some(m.waiting[i as int]),
    decreases i,
{
    lemma_releases_shift(m, i);
    let r = after_releases(m, i);
    assert(r.waiting.len() > 0);
    assert(r.waiting[0] == m.waiting[i as int]);
}

/// After `k` releases, with at least `k` clients queued, the queue has lost
/// exactly its first `k` clients and the lock is held.
proof fn lemma_releases_shift(m: ServerModel, k: nat)
    requires
        server_wf(m),
        m.holder is Some,
        k <= m.waiting.len(),
    ensures
        after_releases(m, k).waiting == m.waiting.subrange(k as int, m.waiting.len() as int),
        after_releases(m, k).holder is Some,
        server_wf(after_releases(m, k)),
    decreases k,
{
    if k == 0 {
        assert(m.waiting.subrange(0, m.waiting.len() as int) =~= m.waiting);
    } else {
        lemma_releases_shift(m, (k - 1) as nat);
        let r = after_releases(m, (k - 1) as nat);
        let h = r.holder->0;
        lemma_next_keeps_wf(r, ServerEvent::Release(h));
        assert(r.waiting.len() > 0);
        assert(after_releases(m, k).waiting =~= m.waiting.subrange(k as int, m.waiting.len() as int));
    }
}


/// Releases by the holder leave the server open or closed as it was.
proof fn lemma_releases_keep_open(m: ServerModel, k: nat)
    ensures
        after_releases(m, k).open == m.open,
    decreases k,
{
    if k > 0 {
        lemma_releases_keep_open(m, (k - 1) as nat);
    }
}

/// A close is never forgotten: once every handle is gone, the server is
/// closed whatever its state; it stops at once if nobody holds the lock,
/// and otherwise it stops exactly when the holder and every waiting client
/// have released the lock in turn.
pub proof fn law_close_then_drain_stops(m: ServerModel)
    requires
        server_wf(m),
        m.open,
    ensures
        !next(m, ServerEvent::Close).0.open,
        m.holder is None ==> next(m, ServerEvent::Close).1 == ServerAction::Stop,
        m.holder is Some ==> ({
            let c = next(m, ServerEvent::Close).0;
            let r = after_releases(c, c.waiting.len());
            &&& r.holder is Some
            &&& r.waiting.len() == 0
            &&& next(r, ServerEvent::Release(r.holder->0)).1 == ServerAction::Stop
        }),
{
    let c = next(m, ServerEvent::Close).0;
    lemma_next_keeps_wf(m, ServerEvent::Close);
    if m.holder is Some {
        lemma_releases_shift(c, c.waiting.len());
        lemma_releases_keep_open(c, c.waiting.len());
        let r = after_releases(c, c.waiting.len());
        assert(r.waiting =~= c.waiting.subrange(c.waiting.len() as int, c.waiting.len() as int));
    }
}

} // verus!
