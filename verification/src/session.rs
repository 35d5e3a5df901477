//! Per-window session state: which input fields exist, which one is active,
//! who may edit right now, and which changes the OS still has to hear about.
//!
//! The coordinator enforces the single-writer rule: at most one mutable lock
//! per field at a time, read-only locks freely concurrent with each other but
//! never with a mutable lock. Acquisition never blocks — a conflicting
//! request simply returns nothing, which is how reentrant callbacks fail fast
//! instead of deadlocking or corrupting state.

use vstd::prelude::*;

use crate::token::TextInputToken;
use crate::token::TokenCounter;

verus! {

/// What changed in a document outside an input-method callback. The
/// application reports these so the OS can invalidate its cached view of the
/// selection and composition; omitting them leaves the input method operating
/// on stale ranges.
#[derive(Clone, Copy, PartialEq, Eq, Structural, Debug)]
pub enum ChangeKind {
    SelectionChanged,
    CompositionChanged,
    TextChanged,
}

/// A change the OS side has not been told about yet.
#[derive(Clone, Copy, PartialEq, Eq, Structural, Debug)]
pub struct Notification {
    pub token: TextInputToken,
    pub kind: ChangeKind,
}

/// Lock bookkeeping for one registered input field.
#[derive(Clone, Copy, PartialEq, Eq, Structural, Debug)]
struct FieldState {
    token: u64,
    mutable_held: bool,
    readers: u64,
}

/// A granted edit lock: the capability to use a handler for one callback or
/// one logical edit transaction. Scoped to a single call stack frame; release
/// it before returning to the OS.
pub struct LockGuard {
    token: u64,
    mutable: bool,
}

impl LockGuard {
    /// Raw token value of the field this guard locks.
    pub closed spec fn spec_token(&self) -> u64 {
        self.token
    }

    /// Whether this guard permits mutation.
    pub closed spec fn spec_mutable(&self) -> bool {
        self.mutable
    }

    pub fn token(&self) -> (t: TextInputToken)
        ensures
            t.spec_raw() == self.spec_token(),
    {
        TextInputToken::from_raw(self.token)
    }

    pub fn is_mutable(&self) -> (m: bool)
        ensures
            m == self.spec_mutable(),
    {
        self.mutable
    }
}

/// Find the slot holding `raw`, if any.
fn find_index(fields: &Vec<FieldState>, raw: u64) -> (r: Option<usize>)
    ensures
        match r {
            Some(i) => i < fields@.len() && fields@[i as int].token == raw,
            None => forall|j: int| 0 <= j < fields@.len() ==> fields@[j].token != raw,
        },
{
    let n = fields.len();
    let mut i: usize = 0;
    while i < n
        invariant
            0 <= i <= n == fields@.len(),
            forall|j: int| 0 <= j < i ==> fields@[j].token != raw,
        decreases n - i,
    {
        if fields[i].token == raw {
            return Some(i);
        }
        i = i + 1;
    }
    None
}

/// Whether some slot holds the raw token value `t`.
spec fn seq_is_registered(fields: Seq<FieldState>, t: u64) -> bool {
    exists|i: int| 0 <= i < fields.len() && fields[i].token == t
}

/// Index of the slot holding the raw token value `t`.
spec fn seq_idx_of(fields: Seq<FieldState>, t: u64) -> int {
    choose|i: int| 0 <= i < fields.len() && fields[i].token == t
}

/// The per-window session coordinator.
pub struct SessionCoordinator {
    counter: TokenCounter,
    fields: Vec<FieldState>,
    active: u64,
    pending: Vec<Notification>,
}

/// The registration and lock state of every token other than `t` agrees
/// between `a` and `b`.
pub open spec fn same_fields_except(a: SessionCoordinator, b: SessionCoordinator, t: u64) -> bool {
    &&& forall|u: u64| #![trigger b.is_registered(u)] u != t ==> a.is_registered(u)
        == b.is_registered(u)
    &&& forall|u: u64| #![trigger b.mutable_held(u)] u != t ==> a.mutable_held(u)
        == b.mutable_held(u)
    &&& forall|u: u64| #![trigger b.readers_of(u)] u != t ==> a.readers_of(u) == b.readers_of(u)
}

/// Counter, active field and pending notifications agree between `a` and `b`.
pub open spec fn same_session_misc(a: SessionCoordinator, b: SessionCoordinator) -> bool {
    &&& a.spec_counter() == b.spec_counter()
    &&& a.active_token() == b.active_token()
    &&& a.pending_notifications() == b.pending_notifications()
}

impl SessionCoordinator {
    /// Tokens are minted by the counter, so every registered token is a real
    /// token (nonzero, below the counter) and no two slots share one.
    #[verifier::type_invariant]
    spec fn wf(self) -> bool {
        &&& self.counter.spec_value() >= 1
        &&& forall|i: int| #![trigger self.fields@[i]] 0 <= i < self.fields@.len() ==> 1 <= self.fields@[i].token < self.counter.spec_value()
        &&& forall|i: int, j: int|
            #![trigger self.fields@[i], self.fields@[j]]
            0 <= i < j < self.fields@.len() ==> self.fields@[i].token != self.fields@[j].token
    }

    /// Index of the slot registered for `t`.
    spec fn idx_of(&self, t: u64) -> int {
        seq_idx_of(self.fields@, t)
    }

    /// Whether a live field is registered under the raw token value `t`.
    pub closed spec fn is_registered(&self, t: u64) -> bool {
        seq_is_registered(self.fields@, t)
    }

    /// Whether a mutable lock is outstanding for `t`.
    pub closed spec fn mutable_held(&self, t: u64) -> bool {
        seq_is_registered(self.fields@, t) && self.fields@[seq_idx_of(self.fields@, t)].mutable_held
    }

    /// Number of read-only locks outstanding for `t`.
    pub closed spec fn readers_of(&self, t: u64) -> int {
        if seq_is_registered(self.fields@, t) {
            self.fields@[seq_idx_of(self.fields@, t)].readers as int
        } else {
            0
        }
    }

    /// The next token value the coordinator will mint.
    pub closed spec fn spec_counter(&self) -> u64 {
        self.counter.spec_value()
    }

    /// Raw token value of the field currently marked active (0 for none).
    pub closed spec fn active_token(&self) -> u64 {
        self.active
    }

    /// Notifications not yet delivered to the OS side.
    pub closed spec fn pending_notifications(&self) -> Seq<Notification> {
        self.pending@
    }

    /// Whether an acquisition request would be granted: the token must name a
    /// live field, a mutable request must find no lock of either kind
    /// outstanding, and a read-only request must find no mutable lock
    /// outstanding (and the reader count must not be saturated).
    pub open spec fn spec_can_acquire(&self, t: u64, mutable: bool) -> bool {
        &&& self.is_registered(t)
        &&& if mutable {
            !self.mutable_held(t) && self.readers_of(t) == 0
        } else {
            !self.mutable_held(t) && self.readers_of(t) < u64::MAX
        }
    }

    /// The slot found by search is the slot the lookup functions speak of.
    proof fn lemma_slot(&self, i: int)
        requires
            self.wf(),
            0 <= i < self.fields@.len(),
        ensures
            self.is_registered(self.fields@[i].token),
            self.idx_of(self.fields@[i].token) == i,
    {
        let t = self.fields@[i].token;
        assert(self.is_registered(t));
        let j = self.idx_of(t);
        if i < j {
            assert(self.fields@[i].token != self.fields@[j].token);
        } else if j < i {
            assert(self.fields@[j].token != self.fields@[i].token);
        }
    }

    /// A fresh coordinator: no fields, no locks, nothing pending, no active
    /// field.
    pub fn new() -> (s: SessionCoordinator)
        ensures
            s.spec_counter() == 1,
            forall|u: u64| !(#[trigger] s.is_registered(u)),
            s.active_token() == 0,
            s.pending_notifications() == Seq::<Notification>::empty(),
    {
        let s = SessionCoordinator {
            counter: TokenCounter::new(),
            fields: Vec::new(),
            active: 0,
            pending: Vec::new(),
        };
        proof {
            assert(s.pending@ =~= Seq::<Notification>::empty());
        }
        s
    }

    /// Register a new editable region: mints a fresh token — one never handed
    /// out before and never reused after unregistration — and tracks a field
    /// for it with no locks outstanding.
    pub fn register(&mut self) -> (t: TextInputToken)
        requires
            old(self).spec_counter() < u64::MAX,
        ensures
            t.spec_raw() == old(self).spec_counter(),
            t.spec_raw() >= 1,
            !old(self).is_registered(t.spec_raw()),
            final(self).is_registered(t.spec_raw()),
            !final(self).mutable_held(t.spec_raw()),
            final(self).readers_of(t.spec_raw()) == 0,
            final(self).spec_counter() == old(self).spec_counter() + 1,
            same_fields_except(*old(self), *final(self), t.spec_raw()),
            final(self).active_token() == old(self).active_token(),
            final(self).pending_notifications() == old(self).pending_notifications(),
    {
        proof {
            use_type_invariant(&*self);
        }
        let mut counter = self.counter;
        let token = TextInputToken::next(&mut counter);
        self.counter = counter;
        let raw = token.into_raw();
        let mut fields: Vec<FieldState> = Vec::new();
        core::mem::swap(&mut fields, &mut self.fields);
        fields.push(FieldState { token: raw, mutable_held: false, readers: 0 });
        core::mem::swap(&mut fields, &mut self.fields);
        proof {
            let n = self.fields@.len() - 1;
            assert(self.fields@[n].token == raw);
            assert(self.wf());
            self.lemma_slot(n);
            assert forall|u: u64| u != raw implies old(self).is_registered(u) == self.is_registered(
                u,
            ) && old(self).mutable_held(u) == self.mutable_held(u) && old(self).readers_of(u)
                == self.readers_of(u) by {
                if old(self).is_registered(u) {
                    let i = old(self).idx_of(u);
                    assert(self.fields@[i].token == u);
                    self.lemma_slot(i);
                    old(self).lemma_slot(i);
                } else if self.is_registered(u) {
                    let i = self.idx_of(u);
                    assert(0 <= i < n + 1);
                    assert(old(self).fields@.len() == n);
                    if i < n {
                        assert(old(self).fields@[i].token == u);
                    }
                }
            }
        }
        token
    }

    /// Unregister a field. Its token remains permanently unused: the counter
    /// never goes back. Returns whether the token named a live field.
    pub fn unregister(&mut self, token: TextInputToken) -> (was: bool)
        ensures
            was == old(self).is_registered(token.spec_raw()),
            !final(self).is_registered(token.spec_raw()),
            same_fields_except(*old(self), *final(self), token.spec_raw()),
            final(self).spec_counter() == old(self).spec_counter(),
            final(self).active_token() == old(self).active_token(),
            final(self).pending_notifications() == old(self).pending_notifications(),
    {
        proof {
            use_type_invariant(&*self);
        }
        let raw = token.into_raw();
        match find_index(&self.fields, raw) {
            None => false,
            Some(i) => {
                let mut fields: Vec<FieldState> = Vec::new();
                core::mem::swap(&mut fields, &mut self.fields);
                fields.remove(i);
                core::mem::swap(&mut fields, &mut self.fields);
                proof {
                    use_type_invariant(&*self);
                    let oldf = old(self).fields@;
                    let newf = self.fields@;
                    assert(newf =~= oldf.subrange(0, i as int) + oldf.subrange(
                        i as int + 1,
                        oldf.len() as int,
                    ));
                    old(self).lemma_slot(i as int);
                    assert forall|j: int| 0 <= j < newf.len() implies newf[j].token != raw by {
                        if j < i {
                            assert(newf[j] == oldf[j]);
                            old(self).lemma_slot(j);
                        } else {
                            assert(newf[j] == oldf[j + 1]);
                            old(self).lemma_slot(j + 1);
                        }
                    }
                    assert forall|u: u64| u != raw implies old(self).is_registered(u)
                        == self.is_registered(u) && old(self).mutable_held(u) == self.mutable_held(
                        u,
                    ) && old(self).readers_of(u) == self.readers_of(u) by {
                        if old(self).is_registered(u) {
                            let k = old(self).idx_of(u);
                            old(self).lemma_slot(k);
                            assert(k != i);
                            let k2: int = if k < i {
                                k
                            } else {
                                k - 1
                            };
                            assert(newf[k2].token == u);
                            self.lemma_slot(k2);
                        } else if self.is_registered(u) {
                            let k = self.idx_of(u);
                            let k2: int = if k < i {
                                k
                            } else {
                                k + 1
                            };
                            assert(oldf[k2].token == u);
                        }
                    }
                }
                true
            },
        }
    }

    /// Acquire an edit lock for the field named by `token`. Returns nothing —
    /// and changes nothing — when the token is unknown or destroyed, or when
    /// the single-writer rule refuses the request; it never blocks.
    pub fn acquire(&mut self, token: TextInputToken, mutable: bool) -> (g: Option<LockGuard>)
        ensures
            g is Some <==> old(self).spec_can_acquire(token.spec_raw(), mutable),
            g is None ==> *final(self) == *old(self),
            match g {
                Some(gg) => {
                    &&& gg.spec_token() == token.spec_raw()
                    &&& gg.spec_mutable() == mutable
                    &&& old(self).readers_of(token.spec_raw()) >= 0
                    &&& final(self).is_registered(token.spec_raw())
                    &&& final(self).mutable_held(token.spec_raw()) == (mutable || old(
                        self,
                    ).mutable_held(token.spec_raw()))
                    &&& final(self).readers_of(token.spec_raw()) == old(self).readers_of(
                        token.spec_raw(),
                    ) + if mutable {
                        0int
                    } else {
                        1int
                    }
                    &&& same_fields_except(*old(self), *final(self), token.spec_raw())
                    &&& same_session_misc(*old(self), *final(self))
                },
                None => true,
            },
    {
        proof {
            use_type_invariant(&*self);
        }
        let raw = token.into_raw();
        match find_index(&self.fields, raw) {
            None => None,
            Some(i) => {
                proof {
                    self.lemma_slot(i as int);
                }
                let f = self.fields[i];
                if f.mutable_held {
                    return None;
                }
                if mutable && f.readers > 0 {
                    return None;
                }
                if !mutable && f.readers == u64::MAX {
                    return None;
                }
                let f2 = if mutable {
                    FieldState { mutable_held: true, ..f }
                } else {
                    FieldState { readers: f.readers + 1, ..f }
                };
                let ghost prev = *self;
                let mut fields: Vec<FieldState> = Vec::new();
                core::mem::swap(&mut fields, &mut self.fields);
                fields[i] = f2;
                proof {
                    assert(fields@ =~= prev.fields@.update(i as int, f2));
                    assert(forall|k: int|
                        0 <= k < fields@.len() ==> (#[trigger] fields@[k]).token
                            == prev.fields@[k].token);
                }
                core::mem::swap(&mut fields, &mut self.fields);
                proof {
                    self.lemma_update_frame(prev, i as int, raw);
                }
                Some(LockGuard { token: raw, mutable })
            },
        }
    }

    /// Release a lock previously granted by `acquire`. The guard must still
    /// correspond to an outstanding lock of its kind.
    pub fn release(&mut self, guard: LockGuard)
        requires
            old(self).is_registered(guard.spec_token()),
            guard.spec_mutable() ==> old(self).mutable_held(guard.spec_token()),
            !guard.spec_mutable() ==> old(self).readers_of(guard.spec_token()) > 0,
        ensures
            final(self).is_registered(guard.spec_token()),
            final(self).mutable_held(guard.spec_token()) == (!guard.spec_mutable() && old(
                self,
            ).mutable_held(guard.spec_token())),
            final(self).readers_of(guard.spec_token()) == old(self).readers_of(guard.spec_token())
                - if guard.spec_mutable() {
                0int
            } else {
                1int
            },
            same_fields_except(*old(self), *final(self), guard.spec_token()),
            same_session_misc(*old(self), *final(self)),
    {
        proof {
            use_type_invariant(&*self);
        }
        let raw = guard.token;
        match find_index(&self.fields, raw) {
            None => {
                proof {
                    assert(false);
                }
            },
            Some(i) => {
                proof {
                    self.lemma_slot(i as int);
                }
                let f = self.fields[i];
                let f2 = if guard.mutable {
                    FieldState { mutable_held: false, ..f }
                } else {
                    FieldState { readers: f.readers - 1, ..f }
                };
                let ghost prev = *self;
                let mut fields: Vec<FieldState> = Vec::new();
                core::mem::swap(&mut fields, &mut self.fields);
                fields[i] = f2;
                proof {
                    assert(fields@ =~= prev.fields@.update(i as int, f2));
                    assert(forall|k: int|
                        0 <= k < fields@.len() ==> (#[trigger] fields@[k]).token
                            == prev.fields@[k].token);
                }
                core::mem::swap(&mut fields, &mut self.fields);
                proof {
                    self.lemma_update_frame(prev, i as int, raw);
                }
            },
        }
    }

    /// After updating slot `i` (token untouched), every other token's state
    /// is unchanged, and the lookup functions read the new slot for `raw`.
    proof fn lemma_update_frame(&self, prev: SessionCoordinator, i: int, raw: u64)
        requires
            prev.wf(),
            0 <= i < prev.fields@.len(),
            prev.fields@[i].token == raw,
            self.fields@ == prev.fields@.update(i, self.fields@[i]),
            self.fields@[i].token == raw,
            self.counter == prev.counter,
            self.active == prev.active,
            self.pending == prev.pending,
        ensures
            self.is_registered(raw),
            self.idx_of(raw) == i,
            prev.idx_of(raw) == i,
            self.mutable_held(raw) == self.fields@[i].mutable_held,
            self.readers_of(raw) == self.fields@[i].readers as int,
            prev.mutable_held(raw) == prev.fields@[i].mutable_held,
            prev.readers_of(raw) == prev.fields@[i].readers as int,
            same_fields_except(prev, *self, raw),
            same_session_misc(prev, *self),
    {
        assert(self.wf());
        self.lemma_slot(i);
        prev.lemma_slot(i);
        assert forall|u: u64| u != raw implies prev.is_registered(u) == self.is_registered(u)
            && prev.mutable_held(u) == self.mutable_held(u) && prev.readers_of(u)
            == self.readers_of(u) by {
            if prev.is_registered(u) {
                let k = prev.idx_of(u);
                prev.lemma_slot(k);
                assert(k != i);
                assert(self.fields@[k].token == u);
                self.lemma_slot(k);
            } else if self.is_registered(u) {
                let k = self.idx_of(u);
                assert(k != i);
                assert(prev.fields@[k].token == u);
            }
        }
    }

    /// Mark the field the window's focus sits in (0 for none). The active
    /// field is bookkeeping for the window; it does not gate lock
    /// acquisition.
    pub fn set_active_field(&mut self, token: TextInputToken)
        ensures
            final(self).active_token() == token.spec_raw(),
            same_fields_except(*old(self), *final(self), token.spec_raw()),
            forall|u: u64| #![trigger final(self).is_registered(u)] final(self).is_registered(u)
                == old(self).is_registered(u),
            forall|u: u64| #![trigger final(self).mutable_held(u)] final(self).mutable_held(u)
                == old(self).mutable_held(u),
            forall|u: u64| #![trigger final(self).readers_of(u)] final(self).readers_of(u) == old(
                self,
            ).readers_of(u),
            final(self).spec_counter() == old(self).spec_counter(),
            final(self).pending_notifications() == old(self).pending_notifications(),
    {
        proof {
            use_type_invariant(&*self);
        }
        self.active = token.into_raw();
    }

    /// The field the window's focus sits in, or the invalid token.
    pub fn active_field(&self) -> (t: TextInputToken)
        ensures
            t.spec_raw() == self.active_token(),
    {
        TextInputToken::from_raw(self.active)
    }

    /// Report a document change made outside an input-method callback (a
    /// keyboard shortcut moved the selection, the application replaced the
    /// text). Queued for the OS side to consume, so its cached view of
    /// selection and composition is invalidated; reports against unknown
    /// tokens are refused.
    pub fn notify_change(&mut self, token: TextInputToken, kind: ChangeKind) -> (accepted: bool)
        ensures
            accepted == old(self).is_registered(token.spec_raw()),
            accepted ==> final(self).pending_notifications() == old(
                self,
            ).pending_notifications().push(Notification { token, kind }),
            !accepted ==> *final(self) == *old(self),
            forall|u: u64| #![trigger final(self).is_registered(u)] final(self).is_registered(u)
                == old(self).is_registered(u),
            forall|u: u64| #![trigger final(self).mutable_held(u)] final(self).mutable_held(u)
                == old(self).mutable_held(u),
            forall|u: u64| #![trigger final(self).readers_of(u)] final(self).readers_of(u) == old(
                self,
            ).readers_of(u),
            final(self).spec_counter() == old(self).spec_counter(),
            final(self).active_token() == old(self).active_token(),
    {
        proof {
            use_type_invariant(&*self);
        }
        let raw = token.into_raw();
        match find_index(&self.fields, raw) {
            None => false,
            Some(i) => {
                proof {
                    self.lemma_slot(i as int);
                }
                let mut pending: Vec<Notification> = Vec::new();
                core::mem::swap(&mut pending, &mut self.pending);
                pending.push(Notification { token, kind });
                core::mem::swap(&mut pending, &mut self.pending);
                true
            },
        }
    }

    /// Hand over everything queued by `notify_change`, leaving the queue
    /// empty. The caller forwards each entry to the OS.
    pub fn take_pending(&mut self) -> (v: Vec<Notification>)
        ensures
            v@ == old(self).pending_notifications(),
            final(self).pending_notifications() == Seq::<Notification>::empty(),
            forall|u: u64| #![trigger final(self).is_registered(u)] final(self).is_registered(u)
                == old(self).is_registered(u),
            forall|u: u64| #![trigger final(self).mutable_held(u)] final(self).mutable_held(u)
                == old(self).mutable_held(u),
            forall|u: u64| #![trigger final(self).readers_of(u)] final(self).readers_of(u) == old(
                self,
            ).readers_of(u),
            final(self).spec_counter() == old(self).spec_counter(),
            final(self).active_token() == old(self).active_token(),
    {
        proof {
            use_type_invariant(&*self);
        }
        let mut v: Vec<Notification> = Vec::new();
        core::mem::swap(&mut v, &mut self.pending);
        proof {
            assert(self.pending@ =~= Seq::<Notification>::empty());
        }
        v
    }
}

/// The single-writer law: while a mutable lock is outstanding for a token,
/// no further mutable acquisition for that token can be granted — `acquire`
/// answers such a request with an absent value at once, never by waiting.
pub proof fn lemma_mutable_lock_exclusion(s: SessionCoordinator, t: u64)
    requires
        s.mutable_held(t),
    ensures
        !s.spec_can_acquire(t, true),
        !s.spec_can_acquire(t, false),
{
}

} // verus!
