//! Diff-based generator: a periodic probe reports the devices currently
//! present, and this module turns consecutive reports into discrete change
//! events by diffing each report against the last-known device set.
//!
//! The probe itself is a blocking external call; the caller that pumps this
//! machine offloads it and reports back only whether it is still running,
//! failed, or finished with a list of identifiers. Everything decided on
//! that answer — the diff, the last-known set, the event queue, the
//! at-most-one-in-flight slot and the end-of-stream rule — lives here.

use vstd::prelude::*;
use vstd::seq_lib::group_seq_properties;
use vstd::seq_lib::lemma_seq_contains_after_push;

use crate::scanners::scanner::{id_ok, EventKind, ScanEventType};

verus! {

/// True when no identifier occurs twice.
pub open spec fn unique(s: Seq<Seq<char>>) -> bool {
    forall|i: int, j: int| 0 <= i < j < s.len() ==> s[i] != s[j]
}

/// True when every identifier is usable (non-empty).
pub open spec fn all_ok(s: Seq<Seq<char>>) -> bool {
    forall|i: int| 0 <= i < s.len() ==> id_ok(#[trigger] s[i])
}

/// The identifiers a probe report adds to the last-known set `known`: those
/// usable identifiers of `probe` not yet known, in order of their first
/// occurrence, each once (later duplicates are ignored).
pub open spec fn spec_added(known: Seq<Seq<char>>, probe: Seq<Seq<char>>) -> Seq<Seq<char>>
    decreases probe.len(),
{
    if probe.len() == 0 {
        Seq::empty()
    } else {
        let rest = spec_added(known, probe.drop_last());
        let id = probe.last();
        if id_ok(id) && !known.contains(id) && !probe.drop_last().contains(id) {
            rest.push(id)
        } else {
            rest
        }
    }
}

/// The identifiers a probe report removes from the last-known set `known`:
/// those known identifiers the report no longer lists, in the order they
/// stand in `known`.
pub open spec fn spec_removed(known: Seq<Seq<char>>, probe: Seq<Seq<char>>) -> Seq<Seq<char>>
    decreases known.len(),
{
    if known.len() == 0 {
        Seq::empty()
    } else {
        let rest = spec_removed(known.drop_last(), probe);
        let id = known.last();
        if !probe.contains(id) {
            rest.push(id)
        } else {
            rest
        }
    }
}

/// The identifiers of `known` that the probe report still lists, in the
/// order they stand in `known`.
pub open spec fn spec_kept(known: Seq<Seq<char>>, probe: Seq<Seq<char>>) -> Seq<Seq<char>>
    decreases known.len(),
{
    if known.len() == 0 {
        Seq::empty()
    } else {
        let rest = spec_kept(known.drop_last(), probe);
        let id = known.last();
        if probe.contains(id) {
            rest.push(id)
        } else {
            rest
        }
    }
}

/// Law: the additions of one diff are exactly the usable probe identifiers
/// that were not yet known, and each appears exactly once.
pub proof fn lemma_added_props(known: Seq<Seq<char>>, probe: Seq<Seq<char>>)
    ensures
        unique(spec_added(known, probe)),
        forall|id: Seq<char>| #[trigger] spec_added(known, probe).contains(id) <==> (probe.contains(
            id,
        ) && id_ok(id) && !known.contains(id)),
    decreases probe.len(),
{
    broadcast use group_seq_properties, lemma_seq_contains_after_push;

    if probe.len() == 0 {
    } else {
        let pre = probe.drop_last();
        lemma_added_props(known, pre);
        let rest = spec_added(known, pre);
        let id = probe.last();
        assert forall|x: Seq<char>| probe.contains(x) && x != id implies pre.contains(x) by {
            let i = choose|i: int| 0 <= i < probe.len() && probe[i] == x;
            assert(pre[i] == x);
        }
        assert forall|x: Seq<char>| pre.contains(x) implies probe.contains(x) by {
            let i = choose|i: int| 0 <= i < pre.len() && pre[i] == x;
            assert(probe[i] == x);
        }
        assert(probe.contains(id)) by {
            assert(probe[probe.len() - 1] == id);
        }
        if id_ok(id) && !known.contains(id) && !pre.contains(id) {
            assert(!rest.contains(id));
            assert(unique(rest.push(id)));
        }
    }
}

/// Law: the removals of one diff are exactly the known identifiers the probe
/// report no longer lists; when the known set holds no duplicates, each
/// appears exactly once.
pub proof fn lemma_removed_props(known: Seq<Seq<char>>, probe: Seq<Seq<char>>)
    requires
        unique(known),
    ensures
        unique(spec_removed(known, probe)),
        forall|id: Seq<char>| #[trigger] spec_removed(known, probe).contains(id) <==> (
        known.contains(id) && !probe.contains(id)),
    decreases known.len(),
{
    broadcast use group_seq_properties, lemma_seq_contains_after_push;

    if known.len() == 0 {
    } else {
        let pre = known.drop_last();
        lemma_removed_props(pre, probe);
        let rest = spec_removed(pre, probe);
        let id = known.last();
        assert forall|x: Seq<char>| known.contains(x) && x != id implies pre.contains(x) by {
            let i = choose|i: int| 0 <= i < known.len() && known[i] == x;
            assert(pre[i] == x);
        }
        assert forall|x: Seq<char>| pre.contains(x) implies known.contains(x) by {
            let i = choose|i: int| 0 <= i < pre.len() && pre[i] == x;
            assert(known[i] == x);
        }
        assert(known.contains(id)) by {
            assert(known[known.len() - 1] == id);
        }
        assert(!pre.contains(id)) by {
            if pre.contains(id) {
                let i = choose|i: int| 0 <= i < pre.len() && pre[i] == id;
                assert(known[i] == known[known.len() - 1]);
            }
        }
        if !probe.contains(id) {
            assert(!rest.contains(id));
            assert(unique(rest.push(id)));
        }
    }
}

/// Law: what one diff keeps of the known set is exactly what the probe
/// report still lists; when the known set holds no duplicates, each kept
/// identifier appears exactly once.
pub proof fn lemma_kept_props(known: Seq<Seq<char>>, probe: Seq<Seq<char>>)
    requires
        unique(known),
    ensures
        unique(spec_kept(known, probe)),
        forall|id: Seq<char>| #[trigger] spec_kept(known, probe).contains(id) <==> (known.contains(
            id,
        ) && probe.contains(id)),
    decreases known.len(),
{
    broadcast use group_seq_properties, lemma_seq_contains_after_push;

    if known.len() == 0 {
    } else {
        let pre = known.drop_last();
        lemma_kept_props(pre, probe);
        let rest = spec_kept(pre, probe);
        let id = known.last();
        assert forall|x: Seq<char>| known.contains(x) && x != id implies pre.contains(x) by {
            let i = choose|i: int| 0 <= i < known.len() && known[i] == x;
            assert(pre[i] == x);
        }
        assert forall|x: Seq<char>| pre.contains(x) implies known.contains(x) by {
            let i = choose|i: int| 0 <= i < pre.len() && pre[i] == x;
            assert(known[i] == x);
        }
        assert(known.contains(id)) by {
            assert(known[known.len() - 1] == id);
        }
        assert(!pre.contains(id)) by {
            if pre.contains(id) {
                let i = choose|i: int| 0 <= i < pre.len() && pre[i] == id;
                assert(known[i] == known[known.len() - 1]);
            }
        }
        if probe.contains(id) {
            assert(!rest.contains(id));
            assert(unique(rest.push(id)));
        }
    }
}

/// Law (idempotence): when a probe report lists exactly the identifiers
/// already known, the diff is empty — no event is emitted for that cycle.
pub proof fn lemma_diff_idempotent(known: Seq<Seq<char>>, probe: Seq<Seq<char>>)
    requires
        unique(known),
        forall|id: Seq<char>| #[trigger] known.contains(id) <==> (probe.contains(id) && id_ok(id)),
    ensures
        spec_added(known, probe) == Seq::<Seq<char>>::empty(),
        spec_removed(known, probe) == Seq::<Seq<char>>::empty(),
{
    lemma_added_props(known, probe);
    lemma_removed_props(known, probe);
    let added = spec_added(known, probe);
    let removed = spec_removed(known, probe);
    assert(added.len() == 0) by {
        if added.len() > 0 {
            assert(added.contains(added[0]));
        }
    }
    assert(removed.len() == 0) by {
        if removed.len() > 0 {
            assert(removed.contains(removed[0]));
        }
    }
    assert(added =~= Seq::<Seq<char>>::empty());
    assert(removed =~= Seq::<Seq<char>>::empty());
}

/// Bundle of facts about the updated known set `kept + added`: it holds
/// exactly the usable identifiers of the probe report, once each.
proof fn lemma_diff_update(known0: Seq<Seq<char>>, probev: Seq<Seq<char>>)
    requires
        unique(known0),
        all_ok(known0),
    ensures
        unique(spec_kept(known0, probev) + spec_added(known0, probev)),
        all_ok(spec_kept(known0, probev) + spec_added(known0, probev)),
        forall|id: Seq<char>|
            #[trigger] (spec_kept(known0, probev) + spec_added(known0, probev)).contains(id) <==> (
            probev.contains(id) && id_ok(id)),
        all_ok(spec_added(known0, probev)),
        all_ok(spec_removed(known0, probev)),
{
    lemma_added_props(known0, probev);
    lemma_removed_props(known0, probev);
    lemma_kept_props(known0, probev);
    let ks = spec_kept(known0, probev);
    let ad = spec_added(known0, probev);
    let rm = spec_removed(known0, probev);
    let fin = ks + ad;
    assert forall|id: Seq<char>| known0.contains(id) implies id_ok(id) by {
        let i = choose|i: int| 0 <= i < known0.len() && known0[i] == id;
    }
    assert forall|x: Seq<char>| #[trigger] fin.contains(x) implies ks.contains(x) || ad.contains(
        x,
    ) by {
        let i = choose|i: int| 0 <= i < fin.len() && fin[i] == x;
        if i < ks.len() {
            assert(ks[i] == x);
        } else {
            assert(ad[i - ks.len()] == x);
        }
    }
    assert forall|x: Seq<char>| ks.contains(x) || ad.contains(x) implies #[trigger] fin.contains(
        x,
    ) by {
        if ks.contains(x) {
            let i = choose|i: int| 0 <= i < ks.len() && ks[i] == x;
            assert(fin[i] == x);
        } else {
            let i = choose|i: int| 0 <= i < ad.len() && ad[i] == x;
            assert(fin[ks.len() + i] == x);
        }
    }
    assert forall|i: int, j: int| 0 <= i < j < fin.len() implies fin[i] != fin[j] by {
        if j < ks.len() {
        } else if i >= ks.len() {
        } else {
            assert(ks.contains(ks[i]));
            assert(ad.contains(ad[j - ks.len()]));
        }
    }
    assert forall|i: int| 0 <= i < fin.len() implies id_ok(#[trigger] fin[i]) by {
        if i < ks.len() {
            assert(ks.contains(ks[i]));
        } else {
            assert(ad.contains(ad[i - ks.len()]));
        }
    }
    assert forall|i: int| 0 <= i < ad.len() implies id_ok(#[trigger] ad[i]) by {
        assert(ad.contains(ad[i]));
    }
    assert forall|i: int| 0 <= i < rm.len() implies id_ok(#[trigger] rm[i]) by {
        assert(rm.contains(rm[i]));
    }
}

/// What one probe-and-diff cycle produced: the identifiers newly seen and
/// the identifiers no longer seen.
#[derive(Debug, Clone)]
pub struct SmartCtlDeviceListDiffResult {
    pub added: Vec<String>,
    pub removed: Vec<String>,
}

impl Default for SmartCtlDeviceListDiffResult {
    /// An empty diff: nothing added, nothing removed.
    fn default() -> (r: Self)
        ensures
            r.added@.len() == 0,
            r.removed@.len() == 0,
    {
        Self { added: Vec::new(), removed: Vec::new() }
    }
}

/// True when `v` lists a string whose characters are those of `s`.
fn contains_string(v: &Vec<String>, s: &String) -> (r: bool)
    ensures
        r == v.deep_view().contains(s@),
{
    let mut i: usize = 0;
    while i < v.len()
        invariant
            i <= v@.len(),
            forall|j: int| 0 <= j < i ==> v.deep_view()[j] != s@,
        decreases v@.len() - i,
    {
        if v[i] == *s {
            proof {
                assert(v.deep_view()[i as int] == s@);
            }
            return true;
        }
        i += 1;
    }
    proof {
        assert(!v.deep_view().contains(s@)) by {
            if v.deep_view().contains(s@) {
                let j = choose|j: int| 0 <= j < v.deep_view().len() && v.deep_view()[j] == s@;
            }
        }
    }
    false
}

/// The diff step of one successful probe cycle. `known` is the last-known
/// device set, `probe` the probe's current report (order irrelevant;
/// duplicates and empty identifiers are ignored). Afterwards `known` holds
/// exactly the usable identifiers of the report; the result lists the
/// identifiers newly seen and those no longer seen. An empty report empties
/// the known set and reports everything tracked as removed — a full-loss
/// report, accepted behavior.
pub fn diff_device_lists(known: &mut Vec<String>, probe: &Vec<String>) -> (r:
    SmartCtlDeviceListDiffResult)
    requires
        unique(old(known).deep_view()),
        all_ok(old(known).deep_view()),
    ensures
        r.added.deep_view() == spec_added(old(known).deep_view(), probe.deep_view()),
        r.removed.deep_view() == spec_removed(old(known).deep_view(), probe.deep_view()),
        final(known).deep_view() == spec_kept(old(known).deep_view(), probe.deep_view())
            + spec_added(old(known).deep_view(), probe.deep_view()),
        unique(final(known).deep_view()),
        all_ok(final(known).deep_view()),
        all_ok(r.added.deep_view()),
        all_ok(r.removed.deep_view()),
        forall|id: Seq<char>|
            #[trigger] final(known).deep_view().contains(id) <==> (probe.deep_view().contains(id)
                && id_ok(id)),
{
    let ghost known0 = known.deep_view();
    let ghost probev = probe.deep_view();

    let mut added: Vec<String> = Vec::new();
    let mut i: usize = 0;
    while i < probe.len()
        invariant
            i <= probe@.len(),
            known.deep_view() == known0,
            unique(known0),
            all_ok(known0),
            probev == probe.deep_view(),
            added.deep_view() == spec_added(known0, probev.take(i as int)),
        decreases probe@.len() - i,
    {
        let ghost pre = added.deep_view();
        proof {
            assert(probev.take(i + 1).drop_last() =~= probev.take(i as int));
            assert(probev.take(i + 1).last() == probev[i as int]);
            lemma_added_props(known0, probev.take(i as int));
            assert(probe.deep_view()[i as int] == probe@[i as int]@);
        }
        let id = &probe[i];
        if !id.as_str().is_empty() && !contains_string(known, id) && !contains_string(&added, id) {
            added.push(id.clone());
            proof {
                assert(added.deep_view() =~= pre.push(probev[i as int]));
            }
        } else {
            proof {
                if id_ok(probev[i as int]) && !known0.contains(probev[i as int]) {
                    assert(pre.contains(probev[i as int]));
                }
                assert(id@.len() == 0 ==> !id_ok(probev[i as int]));
            }
        }
        i += 1;
    }
    proof {
        assert(probev.take(probe@.len() as int) =~= probev);
    }

    let mut removed: Vec<String> = Vec::new();
    let mut kept: Vec<String> = Vec::new();
    let mut j: usize = 0;
    while j < known.len()
        invariant
            j <= known@.len(),
            known.deep_view() == known0,
            probev == probe.deep_view(),
            removed.deep_view() == spec_removed(known0.take(j as int), probev),
            kept.deep_view() == spec_kept(known0.take(j as int), probev),
        decreases known@.len() - j,
    {
        let ghost pre_removed = removed.deep_view();
        let ghost pre_kept = kept.deep_view();
        proof {
            assert(known0.take(j + 1).drop_last() =~= known0.take(j as int));
            assert(known0.take(j + 1).last() == known0[j as int]);
            assert(known.deep_view()[j as int] == known@[j as int]@);
        }
        let id = &known[j];
        if contains_string(probe, id) {
            kept.push(id.clone());
            proof {
                assert(kept.deep_view() =~= pre_kept.push(known0[j as int]));
            }
        } else {
            removed.push(id.clone());
            proof {
                assert(removed.deep_view() =~= pre_removed.push(known0[j as int]));
            }
        }
        j += 1;
    }
    proof {
        assert(known0.take(known@.len() as int) =~= known0);
    }

    let mut new_known = kept;
    let mut k: usize = 0;
    while k < added.len()
        invariant
            k <= added@.len(),
            probev == probe.deep_view(),
            added.deep_view() == spec_added(known0, probev),
            new_known.deep_view() == spec_kept(known0, probev) + added.deep_view().take(k as int),
        decreases added@.len() - k,
    {
        let ghost pre_new = new_known.deep_view();
        proof {
            assert(added.deep_view()[k as int] == added@[k as int]@);
        }
        new_known.push(added[k].clone());
        proof {
            assert(new_known.deep_view() =~= pre_new.push(added.deep_view()[k as int]));
            assert(spec_kept(known0, probev) + added.deep_view().take(k + 1) =~= pre_new.push(
                added.deep_view()[k as int],
            ));
        }
        k += 1;
    }
    proof {
        assert(added.deep_view().take(added@.len() as int) =~= added.deep_view());
        lemma_diff_update(known0, probev);
    }
    *known = new_known;
    SmartCtlDeviceListDiffResult { added, removed }
}

/// The decision of one poll cycle of the diff-based machine, together with
/// the explicit hints the pumping caller acts on.
///
/// - `Deliver`: hand this event to the consumer (and poll again promptly:
///   the rest of the batch is waiting).
/// - `NotReady`: report not-yet-ready; `self_wake` asks to be polled again
///   immediately, `reset_deadline` moves the sleep deadline to now plus one
///   interval first.
/// - `StartExec`: offload one probe execution, then report back through
///   `on_exec_start`.
/// - `AwaitExec`: poll the in-flight execution, then report back through
///   `on_exec_poll`.
/// - `End`: the sequence is over for good.
#[derive(Debug, PartialEq)]
pub enum GateStep {
    Deliver(ScanEventType),
    NotReady { self_wake: bool, reset_deadline: bool },
    StartExec,
    AwaitExec,
    End,
}

/// What the caller observed of the offloaded probe execution: still
/// running, failed (the probe call errored or the offloaded task was lost),
/// or finished with the probe's report.
#[derive(Debug)]
pub enum ProbeOutcome {
    Pending,
    Failed,
    Done(Vec<String>),
}

/// One cycle's batch: all `Found` events (one per added identifier, in
/// order) precede all `Lost` events (one per removed identifier, in order).
pub open spec fn batch_ok(
    q: Seq<ScanEventType>,
    added: Seq<Seq<char>>,
    removed: Seq<Seq<char>>,
) -> bool {
    &&& q.len() == added.len() + removed.len()
    &&& forall|i: int|
        0 <= i < added.len() ==> (#[trigger] q[i]).kind() == EventKind::Found && q[i].id()
            == added[i]
    &&& forall|i: int|
        added.len() <= i < q.len() ==> (#[trigger] q[i]).kind() == EventKind::Lost && q[i].id()
            == removed[i - added.len()]
}

/// Law: in one cycle's batch, every identifier entering the tracked set is
/// announced by exactly one `Found` event and every identifier leaving it by
/// exactly one `Lost` event — no event is lost or duplicated — and every
/// `Found` stands before every `Lost`.
pub proof fn lemma_batch_exact(q: Seq<ScanEventType>, known: Seq<Seq<char>>, probe: Seq<Seq<char>>)
    requires
        unique(known),
        batch_ok(q, spec_added(known, probe), spec_removed(known, probe)),
    ensures
        forall|id: Seq<char>|
            probe.contains(id) && id_ok(id) && !known.contains(id) ==> (exists|i: int|
                0 <= i < q.len() && (#[trigger] q[i]).kind() == EventKind::Found && q[i].id()
                    == id),
        forall|id: Seq<char>|
            known.contains(id) && !probe.contains(id) ==> (exists|i: int|
                0 <= i < q.len() && (#[trigger] q[i]).kind() == EventKind::Lost && q[i].id() == id),
        forall|i: int, j: int|
            0 <= i < q.len() && 0 <= j < q.len() && (#[trigger] q[i]).kind() == (
            #[trigger] q[j]).kind() && q[i].id() == q[j].id() ==> i == j,
        forall|i: int, j: int|
            0 <= i < q.len() && 0 <= j < q.len() && (#[trigger] q[i]).kind() == EventKind::Found
                && (#[trigger] q[j]).kind() == EventKind::Lost ==> i < j,
{
    let added = spec_added(known, probe);
    let removed = spec_removed(known, probe);
    lemma_added_props(known, probe);
    lemma_removed_props(known, probe);
    assert forall|id: Seq<char>|
        probe.contains(id) && id_ok(id) && !known.contains(id) implies (exists|i: int|
        0 <= i < q.len() && (#[trigger] q[i]).kind() == EventKind::Found && q[i].id() == id) by {
        assert(added.contains(id));
        let i = choose|i: int| 0 <= i < added.len() && added[i] == id;
        assert(q[i].kind() == EventKind::Found && q[i].id() == id);
    }
    assert forall|id: Seq<char>|
        known.contains(id) && !probe.contains(id) implies (exists|i: int|
        0 <= i < q.len() && (#[trigger] q[i]).kind() == EventKind::Lost && q[i].id() == id) by {
        assert(removed.contains(id));
        let i = choose|i: int| 0 <= i < removed.len() && removed[i] == id;
        assert(q[added.len() + i].kind() == EventKind::Lost && q[added.len() + i].id() == id);
    }
    assert forall|i: int, j: int|
        0 <= i < q.len() && 0 <= j < q.len() && (#[trigger] q[i]).kind() == (#[trigger] q[j]).kind()
            && q[i].id() == q[j].id() implies i == j by {
        if q[i].kind() == EventKind::Found {
            assert(i < added.len() && j < added.len());
            assert(added[i] == added[j]);
        } else {
            assert(q[i].kind() == EventKind::Lost);
            assert(i >= added.len() && j >= added.len());
            assert(removed[i - added.len()] == removed[j - added.len()]);
        }
    }
}

/// The state of the diff-based generator, one instance per monitor: the
/// last-known device set, the FIFO queue of derived events awaiting
/// delivery, whether a probe execution is in flight, and whether the
/// sequence has ended for good. The sleep deadline and the offloaded
/// execution handle themselves live with the pumping caller; their state is
/// reported in through `poll_gate`, `on_exec_start` and `on_exec_poll`.
#[derive(Debug)]
pub struct SmartCtlMonitorStream {
    pub current_dev_names: Vec<String>,
    pub event_queue: Vec<ScanEventType>,
    pub exec_in_flight: bool,
    pub terminated: bool,
}

impl SmartCtlMonitorStream {
    /// Validity of the state: the known set holds no duplicates and no
    /// empty identifier, and no queued event carries an empty identifier.
    pub open spec fn wf(self) -> bool {
        &&& unique(self.current_dev_names.deep_view())
        &&& all_ok(self.current_dev_names.deep_view())
        &&& forall|i: int|
            0 <= i < self.event_queue@.len() ==> id_ok(
                (#[trigger] self.event_queue@[i]).id(),
            )
    }

    /// A fresh generator: nothing tracked, nothing queued, no execution in
    /// flight.
    pub fn new() -> (s: Self)
        ensures
            s.wf(),
            s.current_dev_names@.len() == 0,
            s.event_queue@.len() == 0,
            !s.exec_in_flight,
            !s.terminated,
    {
        SmartCtlMonitorStream {
            current_dev_names: Vec::new(),
            event_queue: Vec::new(),
            exec_in_flight: false,
            terminated: false,
        }
    }

    /// The entry gate of one poll cycle. Once the sequence has ended it
    /// ends every later cycle too, and nothing changes any more. Otherwise
    /// a queued event is delivered first, one per cycle. With the queue
    /// empty, a cycle before the sleep deadline does nothing at all — no
    /// probe work, no self-wake, no state change; the deadline's own wake
    /// resumes the caller. Past the deadline the cycle asks for the
    /// in-flight execution to be polled, or, only when none is in flight,
    /// for exactly one to be started.
    pub fn poll_gate(&mut self, deadline_elapsed: bool) -> (r: GateStep)
        requires
            old(self).wf(),
        ensures
            final(self).wf(),
            final(self).current_dev_names == old(self).current_dev_names,
            final(self).exec_in_flight == old(self).exec_in_flight,
            final(self).terminated == old(self).terminated,
            old(self).terminated ==> r == GateStep::End && final(self).event_queue == old(self).event_queue,
            !old(self).terminated && old(self).event_queue@.len() > 0 ==> (r matches
                GateStep::Deliver(e) && e == old(self).event_queue@[0]) && final(self).event_queue@
                == old(self).event_queue@.drop_first(),
            !old(self).terminated && old(self).event_queue@.len() == 0 ==> final(self).event_queue
                == old(self).event_queue && (if !deadline_elapsed {
                r == (GateStep::NotReady { self_wake: false, reset_deadline: false })
            } else if old(self).exec_in_flight {
                r == GateStep::AwaitExec
            } else {
                r == GateStep::StartExec
            }),
    {
        if self.terminated {
            return GateStep::End;
        }
        if self.event_queue.len() > 0 {
            let e = self.event_queue.remove(0);
            proof {
                assert(self.event_queue@ =~= old(self).event_queue@.drop_first());
            }
            return GateStep::Deliver(e);
        }
        if !deadline_elapsed {
            GateStep::NotReady { self_wake: false, reset_deadline: false }
        } else if self.exec_in_flight {
            GateStep::AwaitExec
        } else {
            GateStep::StartExec
        }
    }

    /// Report of the attempt to offload one probe execution, made only on
    /// `StartExec` — so never while another execution is in flight. When
    /// dispatch succeeded the slot is taken and the execution is polled
    /// next. When dispatch itself could not be started, the state is left
    /// as it was and the cycle asks for a deadline reset and an immediate
    /// re-poll.
    pub fn on_exec_start(&mut self, started: bool) -> (r: GateStep)
        requires
            old(self).wf(),
            !old(self).terminated,
            !old(self).exec_in_flight,
            old(self).event_queue@.len() == 0,
        ensures
            final(self).wf(),
            final(self).current_dev_names == old(self).current_dev_names,
            final(self).event_queue == old(self).event_queue,
            !final(self).terminated,
            final(self).exec_in_flight == started,
            started ==> r == GateStep::AwaitExec,
            !started ==> r == (GateStep::NotReady { self_wake: true, reset_deadline: true }),
    {
        if started {
            self.exec_in_flight = true;
            GateStep::AwaitExec
        } else {
            GateStep::NotReady { self_wake: true, reset_deadline: true }
        }
    }

    /// Report of one poll of the in-flight execution. Still running: report
    /// not-ready with no self-wake — its completion wakes the caller. A
    /// failure is fatal for this generator: the sequence ends for good and
    /// the last-known set stays exactly as it was before the failing call.
    /// On success the slot is cleared (permitting a new cycle), the diff of
    /// the report against the last-known set is queued — every `Found`
    /// before every `Lost` — and the first event of the batch is delivered,
    /// or, when the diff is empty, the cycle reports not-ready with a
    /// deadline reset and an immediate re-poll.
    pub fn on_exec_poll(&mut self, outcome: ProbeOutcome) -> (r: GateStep)
        requires
            old(self).wf(),
            !old(self).terminated,
            old(self).exec_in_flight,
            old(self).event_queue@.len() == 0,
        ensures
            final(self).wf(),
            outcome is Pending ==> r == (GateStep::NotReady {
                self_wake: false,
                reset_deadline: false,
            }) && final(self).current_dev_names == old(self).current_dev_names
                && final(self).event_queue == old(self).event_queue
                && final(self).exec_in_flight && !final(self).terminated,
            outcome is Failed ==> r == GateStep::End
                && final(self).current_dev_names == old(self).current_dev_names
                && final(self).event_queue == old(self).event_queue
                && final(self).terminated,
            outcome matches ProbeOutcome::Done(ids) ==> ({
                let known0 = old(self).current_dev_names.deep_view();
                let probev = ids.deep_view();
                let added = spec_added(known0, probev);
                let removed = spec_removed(known0, probev);
                &&& !final(self).exec_in_flight
                &&& !final(self).terminated
                &&& final(self).current_dev_names.deep_view() == spec_kept(known0, probev) + added
                &&& (forall|id: Seq<char>|
                    #[trigger] final(self).current_dev_names.deep_view().contains(id) <==> (
                    probev.contains(id) && id_ok(id)))
                &&& (added.len() + removed.len() == 0 ==> r == (GateStep::NotReady {
                    self_wake: true,
                    reset_deadline: true,
                }) && final(self).event_queue@.len() == 0)
                &&& (added.len() + removed.len() > 0 ==> (r matches GateStep::Deliver(e)
                    && batch_ok(seq![e] + final(self).event_queue@, added, removed)))
            }),
    {
        match outcome {
            ProbeOutcome::Pending => GateStep::NotReady {
                self_wake: false,
                reset_deadline: false,
            },
            ProbeOutcome::Failed => {
                self.terminated = true;
                GateStep::End
            },
            ProbeOutcome::Done(ids) => {
                let ghost known0 = self.current_dev_names.deep_view();
                let ghost probev = ids.deep_view();
                let diff = diff_device_lists(&mut self.current_dev_names, &ids);
                self.exec_in_flight = false;
                let ghost added = diff.added.deep_view();
                let ghost removed = diff.removed.deep_view();
                let ghost devs = self.current_dev_names.deep_view();

                let mut i: usize = 0;
                while i < diff.added.len()
                    invariant
                        i <= diff.added@.len(),
                        self.event_queue@.len() == i,
                        forall|j: int|
                            0 <= j < i ==> (#[trigger] self.event_queue@[j]).kind()
                                == EventKind::Found && self.event_queue@[j].id() == added[j],
                        added == diff.added.deep_view(),
                        all_ok(added),
                        self.current_dev_names.deep_view() == devs,
                        !self.exec_in_flight,
                        !self.terminated,
                    decreases diff.added@.len() - i,
                {
                    proof {
                        assert(diff.added.deep_view()[i as int] == diff.added@[i as int]@);
                    }
                    self.event_queue.push(ScanEventType::DeviceFound(diff.added[i].clone()));
                    i += 1;
                }
                let mut j: usize = 0;
                while j < diff.removed.len()
                    invariant
                        j <= diff.removed@.len(),
                        self.event_queue@.len() == added.len() + j,
                        forall|jj: int|
                            0 <= jj < added.len() ==> (#[trigger] self.event_queue@[jj]).kind()
                                == EventKind::Found && self.event_queue@[jj].id() == added[jj],
                        forall|jj: int|
                            added.len() <= jj < added.len() + j ==> (#[trigger] self.event_queue@[jj]).kind()
                                == EventKind::Lost && self.event_queue@[jj].id() == removed[jj - added.len()],
                        added == diff.added.deep_view(),
                        removed == diff.removed.deep_view(),
                        all_ok(removed),
                        self.current_dev_names.deep_view() == devs,
                        !self.exec_in_flight,
                        !self.terminated,
                    decreases diff.removed@.len() - j,
                {
                    proof {
                        assert(diff.removed.deep_view()[j as int] == diff.removed@[j as int]@);
                    }
                    self.event_queue.push(ScanEventType::DeviceLost(diff.removed[j].clone()));
                    j += 1;
                }
                proof {
                    assert(batch_ok(self.event_queue@, added, removed));
                }
                if self.event_queue.len() > 0 {
                    let ghost full = self.event_queue@;
                    let e = self.event_queue.remove(0);
                    proof {
                        assert(seq![e] + self.event_queue@ =~= full);
                    }
                    GateStep::Deliver(e)
                } else {
                    GateStep::NotReady { self_wake: true, reset_deadline: true }
                }
            },
        }
    }
}

} // verus!
