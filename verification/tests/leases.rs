use std::cell::Cell;

use caffeinate::ipc::{Wire, KIND_ACQUIRE, KIND_RELEASE};
use caffeinate::leases::Leases;

/// A stand-in process handle: the pid, and whether that process has exited.
#[derive(Debug)]
struct Handle {
    pid: u32,
}

fn open(pid: u32) -> Option<Handle> {
    Some(Handle { pid })
}

#[test]
fn an_acquire_adds_a_lease_and_a_release_removes_it() {
    let mut leases: Leases<Handle> = Leases::new();
    assert_eq!(leases.summary(), None);
    assert!(leases.apply(&Wire::new(KIND_ACQUIRE, 10, "cargo build"), open));
    assert_eq!(leases.summary().as_deref(), Some("cargo build"));
    assert!(leases.apply(&Wire::new(KIND_RELEASE, 10, ""), open));
    assert_eq!(leases.summary(), None);
    assert!(!leases.apply(&Wire::new(KIND_RELEASE, 10, ""), open), "nothing left to release");
}

#[test]
fn announcing_twice_replaces_rather_than_stacks() {
    let mut leases: Leases<Handle> = Leases::new();
    leases.apply(&Wire::new(KIND_ACQUIRE, 10, "first"), open);
    leases.apply(&Wire::new(KIND_ACQUIRE, 10, "second"), open);
    assert_eq!(leases.summary().as_deref(), Some("second"));
}

#[test]
fn the_newest_is_named_with_a_count_of_the_rest() {
    let mut leases: Leases<Handle> = Leases::new();
    leases.apply(&Wire::new(KIND_ACQUIRE, 1, "a"), open);
    leases.apply(&Wire::new(KIND_ACQUIRE, 2, "b"), open);
    leases.apply(&Wire::new(KIND_ACQUIRE, 3, "c"), open);
    assert_eq!(leases.summary().as_deref(), Some("c (+2)"));
    leases.apply(&Wire::new(KIND_RELEASE, 3, ""), open);
    assert_eq!(leases.summary().as_deref(), Some("b (+1)"));
}

#[test]
fn a_lease_without_a_handle_is_refused() {
    let mut leases: Leases<Handle> = Leases::new();
    assert!(!leases.apply(&Wire::new(KIND_ACQUIRE, 5, "x"), |_| None));
    assert_eq!(leases.summary(), None);
}

#[test]
fn a_release_never_opens_a_process() {
    let mut leases: Leases<Handle> = Leases::new();
    let asked = Cell::new(false);
    leases.apply(&Wire::new(KIND_RELEASE, 5, ""), |pid| {
        asked.set(true);
        open(pid)
    });
    assert!(!asked.get());
}

#[test]
fn an_unknown_kind_changes_nothing() {
    let mut leases: Leases<Handle> = Leases::new();
    leases.apply(&Wire::new(KIND_ACQUIRE, 1, "a"), open);
    let mut w = Wire::new(KIND_ACQUIRE, 2, "b");
    w.kind = 99;
    assert!(!leases.apply(&w, open));
    assert_eq!(leases.summary().as_deref(), Some("a"));
}

#[test]
fn prune_drops_exited_processes_and_keeps_order() {
    let mut leases: Leases<Handle> = Leases::new();
    leases.apply(&Wire::new(KIND_ACQUIRE, 1, "a"), open);
    leases.apply(&Wire::new(KIND_ACQUIRE, 2, "b"), open);
    leases.apply(&Wire::new(KIND_ACQUIRE, 3, "c"), open);
    assert!(!leases.prune(|_| false));
    assert!(leases.prune(|h: &Handle| h.pid == 3));
    assert_eq!(leases.summary().as_deref(), Some("b (+1)"));
    assert!(leases.prune(|h: &Handle| h.pid == 1));
    assert_eq!(leases.summary().as_deref(), Some("b"));
}

#[test]
fn labels_are_shown_with_controls_folded() {
    let mut leases: Leases<Handle> = Leases::new();
    leases.apply(&Wire::new(KIND_ACQUIRE, 1, "x\ty"), open);
    assert_eq!(leases.summary().as_deref(), Some("x y"));
}

#[test]
fn losing_the_old_lease_without_a_new_handle_counts_as_a_change() {
    let mut leases: Leases<Handle> = Leases::new();
    leases.apply(&Wire::new(KIND_ACQUIRE, 4, "old"), open);
    assert!(leases.apply(&Wire::new(KIND_ACQUIRE, 4, "new"), |_| None));
    assert_eq!(leases.summary(), None);
}
