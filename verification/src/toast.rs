//! Toast notifications: short banners with a severity and an expiry.
//!
//! Messages are capped at 200 characters so that a long external error
//! text never fills the screen. The application shares one queue between
//! threads behind a lock; the queue itself is plain data.
use crate::format::push_char;
use crate::clock::unix_now_ms;
use vstd::prelude::*;

verus! {

/// Severity of a toast; drives its colour.
#[derive(Debug, Clone, Copy, PartialEq, Eq, Structural)]
pub enum ToastSeverity {
    Info,
    Warn,
    Error,
}

impl ToastSeverity {
    /// Stable token used by the user interface for colour routing.
    pub fn as_str(self) -> (s: &'static str)
        ensures
            s@ == match self {
                ToastSeverity::Info => "info"@,
                ToastSeverity::Warn => "warn"@,
                ToastSeverity::Error => "error"@,
            },
    {
        match self {
            ToastSeverity::Info => "info",
            ToastSeverity::Warn => "warn",
            ToastSeverity::Error => "error",
        }
    }
}

/// Auto-dismiss window for every severity, in milliseconds.
pub const TOAST_DURATION_MS: u64 = 5_000;

/// When a toast pushed at `now` (Unix-epoch milliseconds) expires: five
/// seconds later, saturating at the top.
pub open spec fn expiry_from(now: u64) -> u64 {
    if now + TOAST_DURATION_MS > u64::MAX {
        u64::MAX
    } else {
        (now + TOAST_DURATION_MS) as u64
    }
}

/// Longest message kept as it is, in characters.
pub const TOAST_MAX_CHARS: usize = 200;

/// Characters kept of a longer message, before the ellipsis.
pub const TOAST_KEPT_CHARS: usize = 197;

/// One toast in flight.
#[derive(Debug)]
pub struct ToastEntry {
    /// Identifier, used to dismiss the toast.
    pub id: u64,
    /// Text shown.
    pub message: String,
    /// Severity.
    pub severity: ToastSeverity,
    /// Unix-epoch milliseconds after which the toast is pruned.
    pub expires_at_ms: u64,
}

/// A toast as plain values.
pub struct ToastView {
    pub id: u64,
    pub message: Seq<char>,
    pub severity: ToastSeverity,
    pub expires_at_ms: u64,
}

impl View for ToastEntry {
    type V = ToastView;

    open spec fn view(&self) -> ToastView {
        ToastView {
            id: self.id,
            message: self.message@,
            severity: self.severity,
            expires_at_ms: self.expires_at_ms,
        }
    }
}

/// The message a toast shows for `m`: `m` itself up to 200 characters,
/// else its first 197 characters and an ellipsis.
pub open spec fn capped_message(m: Seq<char>) -> Seq<char> {
    if m.len() > TOAST_MAX_CHARS {
        m.take(TOAST_KEPT_CHARS as int).push('…')
    } else {
        m
    }
}

fn cap_message(message: &str) -> (r: String)
    ensures
        r@ == capped_message(message@),
{
    let cs = crate::text::chars_of(message);
    let mut r = String::new();
    if cs.len() > TOAST_MAX_CHARS {
        let mut i: usize = 0;
        while i < TOAST_KEPT_CHARS
            invariant
                i <= TOAST_KEPT_CHARS < cs@.len(),
                r@ == cs@.take(i as int),
            decreases TOAST_KEPT_CHARS - i,
        {
            push_char(&mut r, cs[i]);
            proof {
                assert(r@ =~= cs@.take(i + 1));
            }
            i = i + 1;
        }
        push_char(&mut r, '…');
    } else {
        let mut i: usize = 0;
        while i < cs.len()
            invariant
                i <= cs@.len(),
                r@ == cs@.take(i as int),
            decreases cs@.len() - i,
        {
            push_char(&mut r, cs[i]);
            proof {
                assert(r@ =~= cs@.take(i + 1));
            }
            i = i + 1;
        }
        proof {
            assert(cs@.take(cs@.len() as int) =~= cs@);
        }
    }
    r
}

/// The toasts in flight, oldest first, and the identifier the next one gets.
#[derive(Debug)]
pub struct ToastQueue {
    entries: Vec<ToastEntry>,
    next_id: u64,
}

pub open spec fn toast_not_id(id: u64) -> spec_fn(ToastView) -> bool {
    |t: ToastView| t.id != id
}

pub open spec fn toast_alive_at(now: u64) -> spec_fn(ToastView) -> bool {
    |t: ToastView| t.expires_at_ms > now
}

fn copy_entry(e: &ToastEntry) -> (c: ToastEntry)
    ensures
        c@ == e@,
{
    ToastEntry {
        id: e.id,
        message: e.message.clone(),
        severity: e.severity,
        expires_at_ms: e.expires_at_ms,
    }
}

impl ToastQueue {
    /// The toasts in flight, oldest first.
    pub closed spec fn spec_entries(&self) -> Seq<ToastView> {
        self.entries@.map_values(|e: ToastEntry| e@)
    }

    /// Identifier the next toast gets.
    pub closed spec fn spec_next_id(&self) -> u64 {
        self.next_id
    }

    /// An empty queue.
    pub fn new() -> (q: Self)
        ensures
            q.spec_entries() == Seq::<ToastView>::empty(),
            q.spec_next_id() == 0,
    {
        let q = ToastQueue { entries: Vec::new(), next_id: 0 };
        proof {
            assert(q.spec_entries() =~= Seq::<ToastView>::empty());
        }
        q
    }

    /// Enqueues a toast that expires at `expires_at_ms`, and returns its
    /// identifier.
    pub fn push_expiring_at(&mut self, message: &str, severity: ToastSeverity, expires_at_ms: u64) -> (id: u64)
        ensures
            id == old(self).spec_next_id(),
            final(self).spec_next_id() == (if id == u64::MAX {
                0
            } else {
                (id + 1) as u64
            }),
            final(self).spec_entries() == old(self).spec_entries().push(
                ToastView {
                    id: id,
                    message: capped_message(message@),
                    severity: severity,
                    expires_at_ms: expires_at_ms,
                },
            ),
    {
        let msg = cap_message(message);
        let id = self.next_id;
        self.next_id = if id == u64::MAX {
            0
        } else {
            id + 1
        };
        let entry = ToastEntry { id, message: msg, severity, expires_at_ms };
        self.entries.push(entry);
        proof {
            assert(self.spec_entries() =~= old(self).spec_entries().push(entry@));
        }
        id
    }

    /// Enqueues a toast for the next five seconds and returns its identifier.
    pub fn push(&mut self, message: &str, severity: ToastSeverity) -> (id: u64)
        ensures
            id == old(self).spec_next_id(),
            final(self).spec_next_id() == (if id == u64::MAX {
                0
            } else {
                (id + 1) as u64
            }),
            final(self).spec_entries().len() == old(self).spec_entries().len() + 1,
            final(self).spec_entries().drop_last() == old(self).spec_entries(),
            final(self).spec_entries().last().id == id,
            final(self).spec_entries().last().message == capped_message(message@),
            final(self).spec_entries().last().severity == severity,
            exists|now: u64| final(self).spec_entries().last().expires_at_ms == #[trigger] expiry_from(now),
    {
        let now = unix_now_ms();
        let id = self.push_expiring_at(message, severity, now.saturating_add(TOAST_DURATION_MS));
        proof {
            assert(self.spec_entries().last().expires_at_ms == expiry_from(now));
            assert(self.spec_entries().drop_last() =~= old(self).spec_entries());
        }
        id
    }

    fn retain_where_not_id(&mut self, id: u64)
        ensures
            final(self).spec_next_id() == old(self).spec_next_id(),
            final(self).spec_entries() == old(self).spec_entries().filter(toast_not_id(id)),
    {
        let mut kept: Vec<ToastEntry> = Vec::new();
        let mut i: usize = 0;
        let ghost all = self.spec_entries();
        while i < self.entries.len()
            invariant
                i <= self.entries@.len(),
                self.entries@ == old(self).entries@,
                self.next_id == old(self).next_id,
                all == old(self).spec_entries(),
                kept@.map_values(|e: ToastEntry| e@) == all.take(i as int).filter(toast_not_id(id)),
            decreases self.entries@.len() - i,
        {
            let e = &self.entries[i];
            proof {
                reveal(Seq::filter);
                assert(all.take(i + 1).drop_last() =~= all.take(i as int));
                assert(all.take(i + 1).last() == e@);
            }
            if e.id != id {
                let c = copy_entry(e);
                kept.push(c);
                proof {
                    assert(kept@.map_values(|e: ToastEntry| e@) =~= all.take(i as int).filter(toast_not_id(id)).push(c@));
                }
            } else {
                proof {
                    assert(kept@.map_values(|e: ToastEntry| e@) =~= all.take(i as int).filter(toast_not_id(id)));
                }
            }
            i = i + 1;
        }
        proof {
            assert(all.take(all.len() as int) =~= all);
        }
        self.entries = kept;
    }

    /// Removes the toast with identifier `id` (the user closed it).
    pub fn dismiss(&mut self, id: u64)
        ensures
            final(self).spec_next_id() == old(self).spec_next_id(),
            final(self).spec_entries() == old(self).spec_entries().filter(toast_not_id(id)),
    {
        self.retain_where_not_id(id);
    }

    /// Drops the toasts that expired by `now` (Unix-epoch milliseconds).
    pub fn prune_expired_at(&mut self, now: u64)
        ensures
            final(self).spec_next_id() == old(self).spec_next_id(),
            final(self).spec_entries() == old(self).spec_entries().filter(toast_alive_at(now)),
    {
        let mut kept: Vec<ToastEntry> = Vec::new();
        let mut i: usize = 0;
        let ghost all = self.spec_entries();
        while i < self.entries.len()
            invariant
                i <= self.entries@.len(),
                self.entries@ == old(self).entries@,
                self.next_id == old(self).next_id,
                all == old(self).spec_entries(),
                kept@.map_values(|e: ToastEntry| e@) == all.take(i as int).filter(toast_alive_at(now)),
            decreases self.entries@.len() - i,
        {
            let e = &self.entries[i];
            proof {
                reveal(Seq::filter);
                assert(all.take(i + 1).drop_last() =~= all.take(i as int));
                assert(all.take(i + 1).last() == e@);
            }
            if e.expires_at_ms > now {
                let c = copy_entry(e);
                kept.push(c);
                proof {
                    assert(kept@.map_values(|e: ToastEntry| e@) =~= all.take(i as int).filter(toast_alive_at(now)).push(c@));
                }
            } else {
                proof {
                    assert(kept@.map_values(|e: ToastEntry| e@) =~= all.take(i as int).filter(toast_alive_at(now)));
                }
            }
            i = i + 1;
        }
        proof {
            assert(all.take(all.len() as int) =~= all);
        }
        self.entries = kept;
    }

    /// Drops the toasts that have expired by the wall clock.
    pub fn prune_expired(&mut self)
        ensures
            final(self).spec_next_id() == old(self).spec_next_id(),
            exists|now: u64| final(self).spec_entries() == old(self).spec_entries().filter(toast_alive_at(now)),
    {
        let now = unix_now_ms();
        self.prune_expired_at(now);
    }

    /// A copy of the toasts in flight, oldest first.
    pub fn snapshot(&self) -> (v: Vec<ToastEntry>)
        ensures
            v@.map_values(|e: ToastEntry| e@) == self.spec_entries(),
    {
        let mut v: Vec<ToastEntry> = Vec::new();
        let mut i: usize = 0;
        let ghost all = self.spec_entries();
        while i < self.entries.len()
            invariant
                i <= self.entries@.len(),
                all == self.spec_entries(),
                v@.map_values(|e: ToastEntry| e@) == all.take(i as int),
            decreases self.entries@.len() - i,
        {
            let e = &self.entries[i];
            proof {
                assert(all.take(i + 1).drop_last() =~= all.take(i as int));
                assert(all.take(i + 1).last() == e@);
            }
            let c = copy_entry(e);
            v.push(c);
            proof {
                assert(v@.map_values(|e: ToastEntry| e@) =~= all.take(i as int).push(c@));
            }
            i = i + 1;
        }
        proof {
            assert(all.take(all.len() as int) =~= all);
        }
        v
    }

    /// Removes every toast.
    pub fn clear(&mut self)
        ensures
            final(self).spec_next_id() == old(self).spec_next_id(),
            final(self).spec_entries() == Seq::<ToastView>::empty(),
    {
        self.entries.clear();
        proof {
            assert(self.spec_entries() =~= Seq::<ToastView>::empty());
        }
    }
}

/// A shown message never exceeds 200 characters, and a message that fits
/// is shown unchanged.
pub proof fn lemma_capped_message_fits(m: Seq<char>)
    ensures
        capped_message(m).len() <= TOAST_MAX_CHARS,
        m.len() <= TOAST_MAX_CHARS ==> capped_message(m) == m,
{
}

/// The identifier counter after handing out `id` (wrapping at the top).
pub open spec fn next_toast_id(id: u64) -> u64 {
    if id == u64::MAX {
        0
    } else {
        (id + 1) as u64
    }
}

/// Successive pushes hand out increasing identifiers: along a history of
/// queues where each push returned the queue's next identifier and moved
/// the counter on (as `push` and `push_expiring_at` do, while `dismiss`,
/// `prune_expired` and `clear` leave it alone), the `i`-th identifier is
/// the first counter value plus `i`, so each is greater than all earlier
/// ones, as long as the counter does not wrap.
pub proof fn lemma_push_ids_increase(qs: Seq<ToastQueue>, ids: Seq<u64>)
    requires
        qs.len() == ids.len() + 1,
        forall|i: int| 0 <= i < ids.len() ==> #[trigger] ids[i] == qs[i].spec_next_id(),
        forall|i: int| 0 <= i < ids.len() ==> qs[i + 1].spec_next_id() == next_toast_id(#[trigger] ids[i]),
        qs[0].spec_next_id() + ids.len() <= u64::MAX,
    ensures
        forall|i: int| 0 <= i < ids.len() ==> #[trigger] ids[i] == qs[0].spec_next_id() + i,
        forall|i: int, j: int| 0 <= i < j < ids.len() ==> #[trigger] ids[i] < #[trigger] ids[j],
    decreases ids.len(),
{
    if ids.len() > 0 {
        let n = (ids.len() - 1) as int;
        let qs2 = qs.take(n + 1);
        let ids2 = ids.take(n);
        assert forall|i: int| 0 <= i < ids2.len() implies #[trigger] ids2[i] == qs2[i].spec_next_id() by {
            assert(ids2[i] == ids[i]);
            assert(qs2[i] == qs[i]);
        }
        assert forall|i: int| 0 <= i < ids2.len() implies qs2[i + 1].spec_next_id() == next_toast_id(#[trigger] ids2[i]) by {
            assert(ids2[i] == ids[i]);
            assert(qs2[i + 1] == qs[i + 1]);
        }
        lemma_push_ids_increase(qs2, ids2);
        assert(qs2[0] == qs[0]);
        assert forall|i: int| 0 <= i < ids.len() implies #[trigger] ids[i] == qs[0].spec_next_id() + i by {
            if i < n {
                assert(ids2[i] == ids[i]);
            } else if n > 0 {
                assert(ids2[n - 1] == ids[n - 1]);
                assert(ids[n] == qs[n].spec_next_id());
                assert(qs[n].spec_next_id() == next_toast_id(ids[n - 1]));
            }
        }
    }
}

/// Identifiers increase from the oldest toast to the newest and stay below
/// `bound`; so no identifier occurs twice.
pub open spec fn ids_ordered_below(es: Seq<ToastView>, bound: u64) -> bool {
    &&& forall|i: int, j: int| 0 <= i < j < es.len() ==> (#[trigger] es[i]).id < (#[trigger] es[j]).id
    &&& forall|i: int| 0 <= i < es.len() ==> (#[trigger] es[i]).id < bound
}

/// Pushing with the next identifier keeps identifiers ordered, as long as
/// the counter does not wrap.
pub proof fn lemma_push_keeps_ids_ordered(es: Seq<ToastView>, next_id: u64, t: ToastView)
    requires
        ids_ordered_below(es, next_id),
        t.id == next_id,
        next_id < u64::MAX,
    ensures
        ids_ordered_below(es.push(t), (next_id + 1) as u64),
{
    let es2 = es.push(t);
    assert forall|i: int, j: int| 0 <= i < j < es2.len() implies (#[trigger] es2[i]).id < (#[trigger] es2[j]).id by {
        assert(es2[i] == es[i]);
        if j < es.len() {
            assert(es2[j] == es[j]);
        }
    }
    assert forall|i: int| 0 <= i < es2.len() implies (#[trigger] es2[i]).id < next_id + 1 by {
        if i < es.len() {
            assert(es2[i] == es[i]);
        }
    }
}

/// Dismissing and pruning keep identifiers ordered: removing toasts never
/// reorders the rest.
pub proof fn lemma_filter_keeps_ids_ordered(es: Seq<ToastView>, bound: u64, pred: spec_fn(ToastView) -> bool)
    requires
        ids_ordered_below(es, bound),
    ensures
        ids_ordered_below(es.filter(pred), bound),
    decreases es.len(),
{
    reveal(Seq::filter);
    if es.len() > 0 {
        let y = es.drop_last();
        let l = es.last();
        assert forall|i: int, j: int| 0 <= i < j < y.len() implies (#[trigger] y[i]).id < (#[trigger] y[j]).id by {
            assert(y[i] == es[i] && y[j] == es[j]);
        }
        assert forall|i: int| 0 <= i < y.len() implies (#[trigger] y[i]).id < l.id by {
            assert(y[i] == es[i]);
            assert(l == es[es.len() - 1]);
        }
        lemma_filter_keeps_ids_ordered(y, l.id, pred);
        let fy = y.filter(pred);
        assert(l.id < bound) by {
            assert(l == es[es.len() - 1]);
        }
        if pred(l) {
            let f = fy.push(l);
            assert(es.filter(pred) == f);
            assert forall|i: int, j: int| 0 <= i < j < f.len() implies (#[trigger] f[i]).id < (#[trigger] f[j]).id by {
                assert(f[i] == fy[i]);
                if j < fy.len() {
                    assert(f[j] == fy[j]);
                }
            }
            assert forall|i: int| 0 <= i < f.len() implies (#[trigger] f[i]).id < bound by {
                if i < fy.len() {
                    assert(f[i] == fy[i]);
                }
            }
        } else {
            assert(es.filter(pred) == fy);
        }
    }
}

} // verus!
