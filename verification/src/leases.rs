//! Holds announced by `caffeinate` CLI processes.
//!
//! A lease is display only. The CLI holds its own power request, so nothing
//! here keeps the machine awake; it exists so the tray can show that something
//! is. That also means a stale lease is a cosmetic bug, never a stuck machine.
//!
//! Staleness is handled without a heartbeat: on acquire the program opens a
//! handle to the announcing process (`H` here, owned by the lease and released
//! when the lease is dropped), and each tick asks whether that process has
//! exited.

use vstd::prelude::*;
use vstd::string::*;

use crate::ipc::{label_text, Wire, KIND_ACQUIRE, KIND_RELEASE};
use crate::text::{decimal, push_decimal};

verus! {

/// One announced hold.
pub struct Lease<H> {
    pub pid: u32,
    pub label: String,
    /// Never empty: a lease without a way to tell when its process exits is
    /// refused rather than stored, since it could never go stale.
    pub handle: H,
}

/// No two leases belong to the same process.
pub open spec fn distinct_pids<H>(s: Seq<Lease<H>>) -> bool {
    forall|i: int, j: int| 0 <= i < j < s.len() ==> s[i].pid != s[j].pid
}

/// The leases of `s` that do not belong to `pid`, in their order.
pub open spec fn without_pid<H>(s: Seq<Lease<H>>, pid: u32) -> Seq<Lease<H>>
    decreases s.len(),
{
    if s.len() == 0 {
        Seq::empty()
    } else if s.last().pid == pid {
        without_pid(s.drop_last(), pid)
    } else {
        without_pid(s.drop_last(), pid).push(s.last())
    }
}

/// Whether some lease of `s` belongs to `pid`.
pub open spec fn has_pid<H>(s: Seq<Lease<H>>, pid: u32) -> bool {
    exists|i: int| 0 <= i < s.len() && s[i].pid == pid
}

/// The leases of `s` whose entry in `gone` is false, in their order.
pub open spec fn kept<H>(s: Seq<Lease<H>>, gone: Seq<bool>) -> Seq<Lease<H>>
    decreases s.len(),
{
    if s.len() == 0 || gone.len() == 0 {
        Seq::empty()
    } else if gone.last() {
        kept(s.drop_last(), gone.drop_last())
    } else {
        kept(s.drop_last(), gone.drop_last()).push(s.last())
    }
}

/// Every lease of `sub` occurs in `s`.
pub open spec fn drawn_from<H>(sub: Seq<Lease<H>>, s: Seq<Lease<H>>) -> bool {
    forall|i: int| 0 <= i < sub.len() ==> exists|j: int| 0 <= j < s.len() && s[j] == #[trigger] sub[i]
}

proof fn lemma_without_pid<H>(s: Seq<Lease<H>>, pid: u32)
    requires
        distinct_pids(s),
    ensures
        distinct_pids(without_pid(s, pid)),
        !has_pid(without_pid(s, pid), pid),
        drawn_from(without_pid(s, pid), s),
        without_pid(s, pid).len() == s.len() - (if has_pid(s, pid) { 1int } else { 0int }),
    decreases s.len(),
{
    if s.len() > 0 {
        let rest = s.drop_last();
        lemma_without_pid(rest, pid);
        let w = without_pid(rest, pid);
        assert(distinct_pids(rest));
        if s.last().pid == pid {
            assert(has_pid(s, pid));
            assert(!has_pid(rest, pid)) by {
                if has_pid(rest, pid) {
                    let i = choose|i: int| 0 <= i < rest.len() && rest[i].pid == pid;
                    assert(s[i].pid == s[s.len() - 1].pid);
                }
            }
            assert forall|i: int| 0 <= i < w.len() implies exists|j: int|
                0 <= j < s.len() && s[j] == #[trigger] w[i] by {
                let j = choose|j: int| 0 <= j < rest.len() && rest[j] == w[i];
                assert(s[j] == w[i]);
            }
        } else {
            let r = w.push(s.last());
            assert(has_pid(s, pid) == has_pid(rest, pid)) by {
                if has_pid(s, pid) {
                    let i = choose|i: int| 0 <= i < s.len() && s[i].pid == pid;
                    assert(rest[i].pid == pid);
                }
            }
            assert forall|i: int| 0 <= i < r.len() implies exists|j: int|
                0 <= j < s.len() && s[j] == #[trigger] r[i] by {
                if i < w.len() {
                    let j = choose|j: int| 0 <= j < rest.len() && rest[j] == w[i];
                    assert(s[j] == r[i]);
                } else {
                    assert(s[s.len() - 1] == r[i]);
                }
            }
            assert forall|i: int, j: int| 0 <= i < j < r.len() implies r[i].pid != r[j].pid by {
                if j == w.len() {
                    let k = choose|k: int| 0 <= k < rest.len() && rest[k] == w[i];
                    assert(s[k].pid != s[s.len() - 1].pid);
                }
            }
            assert(!has_pid(r, pid)) by {
                if has_pid(r, pid) {
                    let i = choose|i: int| 0 <= i < r.len() && r[i].pid == pid;
                    if i < w.len() {
                        assert(has_pid(w, pid));
                    }
                }
            }
        }
    }
}

proof fn lemma_kept<H>(s: Seq<Lease<H>>, gone: Seq<bool>)
    requires
        distinct_pids(s),
        gone.len() == s.len(),
    ensures
        distinct_pids(kept(s, gone)),
        drawn_from(kept(s, gone), s),
        kept(s, gone).len() <= s.len(),
        kept(s, gone).len() == s.len() <==> forall|i: int| 0 <= i < gone.len() ==> !gone[i],
    decreases s.len(),
{
    if s.len() > 0 {
        let rest = s.drop_last();
        let g = gone.drop_last();
        lemma_kept(rest, g);
        let w = kept(rest, g);
        assert(distinct_pids(rest));
        if gone.last() {
            assert forall|i: int| 0 <= i < w.len() implies exists|j: int|
                0 <= j < s.len() && s[j] == #[trigger] w[i] by {
                let j = choose|j: int| 0 <= j < rest.len() && rest[j] == w[i];
                assert(s[j] == w[i]);
            }
        } else {
            let r = w.push(s.last());
            assert forall|i: int| 0 <= i < r.len() implies exists|j: int|
                0 <= j < s.len() && s[j] == #[trigger] r[i] by {
                if i < w.len() {
                    let j = choose|j: int| 0 <= j < rest.len() && rest[j] == w[i];
                    assert(s[j] == r[i]);
                } else {
                    assert(s[s.len() - 1] == r[i]);
                }
            }
            assert forall|i: int, j: int| 0 <= i < j < r.len() implies r[i].pid != r[j].pid by {
                if j == w.len() {
                    let k = choose|k: int| 0 <= k < rest.len() && rest[k] == w[i];
                    assert(s[k].pid != s[s.len() - 1].pid);
                }
            }
            if forall|i: int| 0 <= i < g.len() ==> !g[i] {
                assert forall|i: int| 0 <= i < gone.len() implies !gone[i] by {
                    if i < g.len() {
                        assert(!g[i]);
                    }
                }
            }
            if forall|i: int| 0 <= i < gone.len() ==> !gone[i] {
                assert forall|i: int| 0 <= i < g.len() implies !g[i] by {
                    assert(!gone[i]);
                }
            }
        }
        if gone.last() {
            assert(!(forall|i: int| 0 <= i < gone.len() ==> !gone[i])) by {
                assert(gone[gone.len() - 1]);
            }
        }
    }
}

/// The leases after an acquire announced by `wire`, given the handle that was
/// opened for it: any earlier lease of that process is gone and, if a handle
/// was had, a lease with the message's label and that handle is the newest.
pub open spec fn acquired<H>(before: Seq<Lease<H>>, after: Seq<Lease<H>>, wire: Wire, opened: Option<H>) -> bool {
    match opened {
        Some(h) => {
            &&& after.len() > 0
            &&& after.drop_last() == without_pid(before, wire.pid)
            &&& after.last().pid == wire.pid
            &&& after.last().handle == h
            &&& after.last().label@ == label_text(wire.label_units())
        },
        None => after == without_pid(before, wire.pid),
    }
}

/// The announcing process held a lease and nothing was added in its place.
pub open spec fn opened_nothing<H>(before: Seq<Lease<H>>, after: Seq<Lease<H>>, pid: u32) -> bool {
    has_pid(before, pid) && after == without_pid(before, pid)
}

/// The status line for a non-empty list of leases: the newest label and, if
/// there are others, their count as " (+n)".
pub open spec fn summary_text<H>(s: Seq<Lease<H>>) -> Seq<char> {
    if s.len() == 1 {
        s.last().label@
    } else {
        s.last().label@ + " (+"@ + decimal((s.len() - 1) as nat) + ")"@
    }
}

/// Releasing a process that holds no lease changes nothing.
pub proof fn law_releasing_an_unknown_process_changes_nothing<H>(s: Seq<Lease<H>>, pid: u32)
    requires
        !has_pid(s, pid),
    ensures
        without_pid(s, pid) == s,
    decreases s.len(),
{
    if s.len() > 0 {
        assert(!has_pid(s.drop_last(), pid)) by {
            if has_pid(s.drop_last(), pid) {
                let i = choose|i: int| 0 <= i < s.drop_last().len() && s.drop_last()[i].pid == pid;
                assert(s[i].pid == pid);
            }
        }
        law_releasing_an_unknown_process_changes_nothing(s.drop_last(), pid);
        assert(s.last().pid != pid) by {
            assert(s[s.len() - 1].pid != pid);
        }
        assert(s.drop_last().push(s.last()) =~= s);
    } else {
        assert(s =~= Seq::<Lease<H>>::empty());
    }
}

/// The holds the tray knows about, oldest first.
pub struct Leases<H> {
    list: Vec<Lease<H>>,
}

impl<H> View for Leases<H> {
    type V = Seq<Lease<H>>;

    closed spec fn view(&self) -> Seq<Lease<H>> {
        self.list@
    }
}

impl<H> Leases<H> {
    #[verifier::type_invariant]
    spec fn one_per_process(self) -> bool {
        distinct_pids(self.list@)
    }

    pub fn new() -> (l: Leases<H>)
        ensures
            l@ == Seq::<Lease<H>>::empty(),
    {
        Leases { list: Vec::new() }
    }

    /// Drops the lease of `pid`, if there is one. Returns `true` if the set
    /// changed.
    fn release(&mut self, pid: u32) -> (changed: bool)
        ensures
            final(self)@ == without_pid(old(self)@, pid),
            changed == has_pid(old(self)@, pid),
            distinct_pids(final(self)@),
    {
        proof {
            use_type_invariant(&*self);
        }
        let ghost orig = self@;
        let mut rest: Vec<Lease<H>> = Vec::new();
        std::mem::swap(&mut rest, &mut self.list);
        let before = rest.len();
        let mut keep: Vec<Lease<H>> = Vec::new();
        assert(without_pid(orig, pid) =~= without_pid(rest@, pid) + keep@);
        while rest.len() > 0
            invariant
                without_pid(orig, pid) == without_pid(rest@, pid) + keep@,
            decreases rest@.len(),
        {
            let ghost r = rest@;
            let ghost k = keep@;
            let lease = rest.pop().unwrap();
            assert(r.drop_last() =~= rest@);
            if lease.pid != pid {
                keep.insert(0, lease);
                assert(keep@ =~= seq![lease] + k);
                assert(without_pid(r, pid) == without_pid(rest@, pid).push(lease));
                assert(without_pid(rest@, pid) + keep@ =~= without_pid(rest@, pid).push(lease) + k);
            }
        }
        assert(without_pid(rest@, pid) =~= Seq::<Lease<H>>::empty());
        assert(keep@ =~= without_pid(orig, pid));
        proof {
            lemma_without_pid(orig, pid);
        }
        let after = keep.len();
        self.list = keep;
        before != after
    }

    /// Replaces any lease of the announcing process with a new one, if a
    /// handle to that process can be had.
    fn acquire<F: FnOnce(u32) -> Option<H>>(&mut self, wire: &Wire, open_process: F) -> (changed:
        bool)
        requires
            open_process.requires((wire.pid,)),
        ensures
            exists|opened: Option<H>|
                {
                    &&& #[trigger] open_process.ensures((wire.pid,), opened)
                    &&& changed == (has_pid(old(self)@, wire.pid) || opened is Some)
                    &&& acquired(old(self)@, final(self)@, *wire, opened)
                },
            !changed ==> final(self)@ == old(self)@,
            changed && !has_pid(old(self)@, wire.pid) ==> final(self)@.len() == old(self)@.len() + 1,
            changed && opened_nothing(old(self)@, final(self)@, wire.pid) ==> final(self)@.len() + 1
                == old(self)@.len(),
            distinct_pids(final(self)@),
    {
        proof {
            use_type_invariant(&*self);
            lemma_without_pid(self@, wire.pid);
        }
        // A process announcing twice replaces its own entry rather than
        // stacking up.
        let had_lease = self.release(wire.pid);
        let opened = open_process(wire.pid);
        let ghost opened_view = opened;
        assert(open_process.ensures((wire.pid,), opened_view));
        let changed = match opened {
            // Without a handle there would be no way to tell when this lease
            // went stale, and a lease that never expires would leave the icon
            // lit forever. Dropping it costs only the status display.
            None => {
                assert(acquired(old(self)@, self@, *wire, opened_view));
                proof {
                    if !had_lease {
                        law_releasing_an_unknown_process_changes_nothing(old(self)@, wire.pid);
                    }
                }
                had_lease
            },
            Some(handle) => {
                let lease = Lease { pid: wire.pid, label: wire.label_string(), handle };
                let ghost before = self@;
                let mut list: Vec<Lease<H>> = Vec::new();
                std::mem::swap(&mut list, &mut self.list);
                list.push(lease);
                proof {
                    assert(list@ == before.push(lease));
                    assert forall|i: int, j: int| 0 <= i < j < list@.len() implies list@[i].pid
                        != list@[j].pid by {
                        if j == before.len() {
                            assert(before[i].pid != wire.pid);
                        }
                    }
                }
                self.list = list;
                assert(self@ == before.push(lease));
                assert(self@.drop_last() =~= before);
                assert(acquired(old(self)@, self@, *wire, opened_view));
                true
            },
        };
        assert(acquired(old(self)@, self@, *wire, opened_view));
        changed
    }

    /// Act on one message. Returns `true` if the set of leases changed: a lease
    /// went away, or one was added. (A process that announces again replaces
    /// its lease, which counts as a change even when the new lease happens to
    /// equal the old one.)
    ///
    /// `open_process` is asked for a handle to the announcing process when a
    /// hold is acquired; it is not called for anything else.
    pub fn apply<F: FnOnce(u32) -> Option<H>>(&mut self, wire: &Wire, open_process: F) -> (changed:
        bool)
        requires
            open_process.requires((wire.pid,)),
        ensures
            wire.kind == KIND_ACQUIRE ==> exists|opened: Option<H>|
                {
                    &&& #[trigger] open_process.ensures((wire.pid,), opened)
                    &&& changed == (has_pid(old(self)@, wire.pid) || opened is Some)
                    &&& acquired(old(self)@, final(self)@, *wire, opened)
                },
            !changed ==> final(self)@ == old(self)@,
            changed && !has_pid(old(self)@, wire.pid) ==> final(self)@.len() == old(self)@.len() + 1,
            changed && opened_nothing(old(self)@, final(self)@, wire.pid) ==> final(self)@.len() + 1
                == old(self)@.len(),
            wire.kind == KIND_RELEASE ==> final(self)@ == without_pid(old(self)@, wire.pid)
                && changed == has_pid(old(self)@, wire.pid),
            wire.kind != KIND_ACQUIRE && wire.kind != KIND_RELEASE ==> final(self)@ == old(self)@
                && !changed,
            distinct_pids(final(self)@),
    {
        proof {
            use_type_invariant(&*self);
        }
        if wire.kind == KIND_ACQUIRE {
            self.acquire(wire, open_process)
        } else if wire.kind == KIND_RELEASE {
            proof {
                lemma_without_pid(self@, wire.pid);
                if !has_pid(self@, wire.pid) {
                    law_releasing_an_unknown_process_changes_nothing(self@, wire.pid);
                }
            }
            self.release(wire.pid)
        } else {
            false
        }
    }

    /// Drop leases whose process has exited, as `exited` reports for each
    /// lease's handle. Returns `true` if any went away.
    pub fn prune<F: Fn(&H) -> bool>(&mut self, exited: F) -> (changed: bool)
        requires
            forall|h: &H| exited.requires((h,)),
        ensures
            exists|gone: Seq<bool>|
                {
                    &&& gone.len() == old(self)@.len()
                    &&& forall|i: int|
                        0 <= i < gone.len() ==> exited.ensures(
                            (&old(self)@[i].handle,),
                            #[trigger] gone[i],
                        )
                    &&& final(self)@ == kept(old(self)@, gone)
                },
            changed == (final(self)@.len() != old(self)@.len()),
            distinct_pids(final(self)@),
    {
        proof {
            use_type_invariant(&*self);
        }
        let ghost orig = self@;
        let mut rest: Vec<Lease<H>> = Vec::new();
        std::mem::swap(&mut rest, &mut self.list);
        let before = rest.len();
        let mut keep: Vec<Lease<H>> = Vec::new();
        let ghost mut gone: Seq<bool> = Seq::empty();
        assert(orig.skip(0) =~= orig);
        assert(orig.take(0) =~= Seq::<Lease<H>>::empty());
        while rest.len() > 0
            invariant
                forall|h: &H| exited.requires((h,)),
                before == orig.len(),
                gone.len() + rest@.len() == orig.len(),
                rest@ == orig.skip(gone.len() as int),
                forall|i: int|
                    0 <= i < gone.len() ==> exited.ensures((&orig[i].handle,), #[trigger] gone[i]),
                keep@ == kept(orig.take(gone.len() as int), gone),
            decreases rest@.len(),
        {
            let ghost k = gone.len() as int;
            let lease = rest.remove(0);
            assert(lease == orig[k]);
            assert(rest@ =~= orig.skip(k + 1));
            // A zero timeout makes this a poll: a signalled process handle
            // means the process has exited.
            let signalled = exited(&lease.handle);
            proof {
                assert(orig.take(k + 1).drop_last() =~= orig.take(k));
                assert(gone.push(signalled).drop_last() =~= gone);
            }
            if !signalled {
                keep.push(lease);
            }
            proof {
                gone = gone.push(signalled);
            }
        }
        assert(orig.take(orig.len() as int) =~= orig);
        proof {
            lemma_kept(orig, gone);
        }
        let after = keep.len();
        self.list = keep;
        before != after
    }

    /// What to show in the menu and tooltip: nothing without leases, else the
    /// newest lease's label, followed by how many more there are when there
    /// are more. The row is a status line, not a process list.
    pub fn summary(&self) -> (r: Option<String>)
        ensures
            r matches Some(text) ==> self@.len() > 0 && text@ == summary_text(self@),
            r is None ==> self@.len() == 0,
    {
        let n = self.list.len();
        if n == 0 {
            return None;
        }
        let newest = &self.list[n - 1];
        let extra = n - 1;
        if extra == 0 {
            Some(newest.label.clone())
        } else {
            let mut text = newest.label.clone();
            text.append(" (+");
            push_decimal(&mut text, extra as u64);
            text.append(")");
            Some(text)
        }
    }
}
} // verus!
