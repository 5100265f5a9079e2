use vstd::prelude::*;
use crate::supervisor::{after_spawn, starts_listener, SpawnError};
use crate::listener::OutputEvent;

verus! {

/// A lifecycle event that reaches the supervisor state.
pub enum Lifecycle<H> {
    /// Application startup, with the outcome of launching the backend.
    Spawn(Result<H, SpawnError>),
    /// An event that the output listener read. The listener holds no access to
    /// the supervisor state, so the slot stays as it is.
    Output(OutputEvent),
    /// The window was destroyed.
    Shutdown,
}

/// One event applied to the slot: the slot after it, and the termination
/// request it issues, if any. This is what `SidecarState::on_spawn` and
/// `SidecarState::shutdown` do; `Listener::on_event` takes no state to change.
pub open spec fn step<H>(slot: Option<H>, ev: Lifecycle<H>) -> (Option<H>, Option<H>) {
    match ev {
        Lifecycle::Spawn(launched) => (after_spawn(slot, launched), None),
        Lifecycle::Output(_) => (slot, None),
        Lifecycle::Shutdown => (None, slot),
    }
}

/// The termination requests issued, in order, when `evs` reach a state whose
/// slot is `slot`.
pub open spec fn requests<H>(slot: Option<H>, evs: Seq<Lifecycle<H>>) -> Seq<H>
    decreases evs.len(),
{
    if evs.len() == 0 {
        seq![]
    } else {
        let (next, req) = step(slot, evs[0]);
        let rest = requests(next, evs.drop_first());
        match req {
            Some(h) => seq![h] + rest,
            None => rest,
        }
    }
}

/// The handles of the children that `evs` launch, in order.
pub open spec fn launched<H>(evs: Seq<Lifecycle<H>>) -> Seq<H>
    decreases evs.len(),
{
    if evs.len() == 0 {
        seq![]
    } else {
        let rest = launched(evs.drop_first());
        match evs[0] {
            Lifecycle::Spawn(Ok(h)) => seq![h] + rest,
            _ => rest,
        }
    }
}

/// The contents of a slot, as a sequence of zero or one.
pub open spec fn slot_seq<H>(slot: Option<H>) -> Seq<H> {
    match slot {
        Some(h) => seq![h],
        None => seq![],
    }
}

/// Every requested handle is one that was tracked or launched.
proof fn lemma_requests_from_handles<H>(slot: Option<H>, evs: Seq<Lifecycle<H>>, h: H)
    requires
        requests(slot, evs).contains(h),
    ensures
        (slot_seq(slot) + launched(evs)).contains(h),
    decreases evs.len(),
{
    let (next, req) = step(slot, evs[0]);
    let rest = evs.drop_first();
    let all = slot_seq(slot) + launched(evs);
    if requests(next, rest).contains(h) {
        lemma_requests_from_handles(next, rest, h);
        let i = choose|i: int| 0 <= i < (slot_seq(next) + launched(rest)).len()
            && (slot_seq(next) + launched(rest))[i] == h;
        match evs[0] {
            Lifecycle::Spawn(Ok(g)) => {
                assert(all[i + slot_seq(slot).len()] == h);
            },
            Lifecycle::Spawn(Err(_)) => {
                assert(all[i] == h);
            },
            Lifecycle::Output(_) => {
                assert(all[i] == h);
            },
            Lifecycle::Shutdown => {
                assert(all[i + slot_seq(slot).len()] == h);
            },
        }
    } else {
        assert(all[0] == h);
    }
}

/// No child receives two termination requests: as long as no handle is
/// launched twice, and none that is already tracked is launched again, every
/// handle is requested at most once, whatever order of launches and window
/// closings reaches the state, and each requested handle is one that was
/// tracked or launched.
pub proof fn lemma_at_most_one_request<H>(slot: Option<H>, evs: Seq<Lifecycle<H>>)
    requires
        (slot_seq(slot) + launched(evs)).no_duplicates(),
    ensures
        requests(slot, evs).no_duplicates(),
        forall|h: H| requests(slot, evs).contains(h) ==> (slot_seq(slot) + launched(evs)).contains(h),
    decreases evs.len(),
{
    assert forall|h: H| requests(slot, evs).contains(h) implies (slot_seq(slot)
        + launched(evs)).contains(h) by {
        lemma_requests_from_handles(slot, evs, h);
    }
    if evs.len() > 0 {
        let (next, req) = step(slot, evs[0]);
        let rest = evs.drop_first();
        let all = slot_seq(slot) + launched(evs);
        let tail = slot_seq(next) + launched(rest);
        assert(tail.no_duplicates()) by {
            match evs[0] {
                Lifecycle::Spawn(Ok(g)) => {
                    assert forall|i: int, j: int|
                        0 <= i < tail.len() && 0 <= j < tail.len() && i != j implies tail[i]
                        != tail[j] by {
                        assert(tail[i] == all[i + slot_seq(slot).len()]);
                        assert(tail[j] == all[j + slot_seq(slot).len()]);
                    }
                },
                Lifecycle::Spawn(Err(_)) => {
                    assert(tail =~= all);
                },
                Lifecycle::Output(_) => {
                    assert(tail =~= all);
                },
                Lifecycle::Shutdown => {
                    assert forall|i: int, j: int|
                        0 <= i < tail.len() && 0 <= j < tail.len() && i != j implies tail[i]
                        != tail[j] by {
                        assert(tail[i] == all[i + slot_seq(slot).len()]);
                        assert(tail[j] == all[j + slot_seq(slot).len()]);
                    }
                },
            }
        }
        lemma_at_most_one_request(next, rest);
        match req {
            Some(h) => {
                let r = requests(next, rest);
                assert(!r.contains(h)) by {
                    if r.contains(h) {
                        let i = choose|i: int| 0 <= i < tail.len() && tail[i] == h;
                        assert(all[0] == h);
                        assert(all[i + 1] == h);
                    }
                }
                let s = seq![h] + r;
                assert forall|i: int, j: int|
                    0 <= i < s.len() && 0 <= j < s.len() && i != j implies s[i] != s[j] by {
                    if i == 0 {
                        assert(s[j] == r[j - 1]);
                    } else if j == 0 {
                        assert(s[i] == r[i - 1]);
                    } else {
                        assert(s[i] == r[i - 1]);
                        assert(s[j] == r[j - 1]);
                    }
                }
            },
            None => {},
        }
    }
}

/// A failed launch starts no listener and leaves the slot as it was: a state
/// with no backend still has none, and no termination request is issued.
pub proof fn lemma_failed_spawn_changes_nothing<H>(slot: Option<H>, e: SpawnError)
    ensures
        !starts_listener::<H>(Err(e)),
        step(slot, Lifecycle::Spawn(Err(e))) == (slot, None::<H>),
        slot is None ==> after_spawn(slot, Err(e)) is None,
{
}

/// A shutdown with no tracked backend, before any launch or after an earlier
/// shutdown, is a no-op: the slot stays empty and no request is issued.
pub proof fn lemma_shutdown_when_empty<H>(slot: Option<H>)
    ensures
        step(None::<H>, Lifecycle::Shutdown) == (None::<H>, None::<H>),
        step(step(slot, Lifecycle::Shutdown).0, Lifecycle::Shutdown) == (None::<H>, None::<H>),
{
}

/// Two shutdowns that race, for instance from two windows, are serialised by
/// the lock around the state; in either order exactly one termination request
/// is issued for a tracked backend, and none when there is none.
pub proof fn lemma_racing_shutdowns<H>(slot: Option<H>)
    ensures
        requests(slot, seq![Lifecycle::Shutdown, Lifecycle::Shutdown]) == slot_seq(slot),
        slot is Some ==> requests(slot, seq![Lifecycle::Shutdown, Lifecycle::Shutdown]).len()
            == 1,
{
    let evs = seq![Lifecycle::<H>::Shutdown, Lifecycle::Shutdown];
    assert(evs.drop_first().drop_first() =~= seq![]);
    assert(evs.drop_first() =~= seq![Lifecycle::<H>::Shutdown]);
    assert(requests(None::<H>, evs.drop_first().drop_first()) == Seq::<H>::empty());
    assert(requests(None::<H>, evs.drop_first()) == Seq::<H>::empty());
    assert(requests(slot, evs) =~= slot_seq(slot));
}

/// The output events read by a listener, as lifecycle events.
pub open spec fn outputs<H>(evs: Seq<OutputEvent>) -> Seq<Lifecycle<H>> {
    evs.map_values(|e: OutputEvent| Lifecycle::Output(e))
}

/// What the listener reads, its termination event included, never issues a
/// request or empties the slot: the handle of a backend that exited by itself
/// stays tracked, and the shutdown that follows takes it and issues exactly
/// its one termination request.
pub proof fn lemma_exit_keeps_handle<H>(slot: Option<H>, evs: Seq<OutputEvent>)
    ensures
        requests(slot, outputs::<H>(evs)) == Seq::<H>::empty(),
        requests(slot, outputs::<H>(evs).push(Lifecycle::Shutdown)) == slot_seq(slot),
    decreases evs.len(),
{
    let o = outputs::<H>(evs);
    if evs.len() == 0 {
        assert(o =~= seq![]);
        let p = o.push(Lifecycle::Shutdown);
        assert(p.drop_first() =~= seq![]);
        assert(requests(None::<H>, p.drop_first()) == Seq::<H>::empty());
        assert(requests(slot, p) =~= slot_seq(slot));
    } else {
        lemma_exit_keeps_handle::<H>(slot, evs.drop_first());
        assert(o.drop_first() =~= outputs::<H>(evs.drop_first()));
        assert(o.push(Lifecycle::Shutdown).drop_first() =~= outputs::<H>(evs.drop_first()).push(
            Lifecycle::Shutdown,
        ));
    }
}

} // verus!
