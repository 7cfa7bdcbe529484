//! Merging of local variables whose lifetimes do not overlap.
//!
//! A backwards walk over a step records when each local variable becomes live
//! and when a first write kills it; from these events each variable gets a
//! liveness range, and variables of the same type whose ranges do not overlap
//! share one local.

use vstd::prelude::*;
use std::collections::BTreeMap;
use crate::ir::{
    IrProject,
    lemma_first_writes_are_local, lemma_opcode_vars_in_opcodes, lemma_step_first_writes_are_local,
    opcode_first_writes, opcode_local_vars, step_first_writes, step_local_vars, IrOpcode, RcVar,
    Step,
};
use crate::optimisation::var_set::VarSet;

verus! {

broadcast use vstd::std_specs::btree::group_btree_axioms;

/// What happened to a variable at some point of the backwards walk.
#[derive(Clone, Copy, Debug, PartialEq, Eq, Structural)]
pub enum LivenessEvent {
    /// The variable was accessed when it previously was not live.
    BecameLive,
    /// The variable died at a first write to it.
    FirstWriteDead,
}

/// An event of a variable at a point of the walk. Points are numbered in the
/// order of the walk, but events need not be recorded in that order.
#[derive(Clone, Copy, Debug, PartialEq, Eq, Structural)]
pub struct LiveRangeEvent {
    pub index: usize,
    pub kind: LivenessEvent,
    pub var: RcVar,
}

/// The earliest point at which the variable with `v`'s identity became live.
pub open spec fn birth(events: Seq<LiveRangeEvent>, v: RcVar) -> Option<int>
    decreases events.len(),
{
    if events.len() == 0 {
        None
    } else {
        let e = events.last();
        let rest = birth(events.drop_last(), v);
        if e.var.id == v.id && e.kind == LivenessEvent::BecameLive {
            Some(
                match rest {
                    Some(r) => if r <= e.index {
                        r
                    } else {
                        e.index as int
                    },
                    None => e.index as int,
                },
            )
        } else {
            rest
        }
    }
}

/// The latest point at which the variable with `v`'s identity died.
pub open spec fn death(events: Seq<LiveRangeEvent>, v: RcVar) -> Option<int>
    decreases events.len(),
{
    if events.len() == 0 {
        None
    } else {
        let e = events.last();
        let rest = death(events.drop_last(), v);
        if e.var.id == v.id && e.kind == LivenessEvent::FirstWriteDead {
            Some(
                match rest {
                    Some(r) => if r >= e.index {
                        r
                    } else {
                        e.index as int
                    },
                    None => e.index as int,
                },
            )
        } else {
            rest
        }
    }
}

/// The range in which a variable that dies somewhere is live: between its
/// earliest birth (or its death, when it never became live) and its latest
/// death, whichever comes first. A variable that never dies has no range.
pub open spec fn live_range(events: Seq<LiveRangeEvent>, v: RcVar) -> Option<(int, int)> {
    match death(events, v) {
        None => None,
        Some(d) => {
            let l = match birth(events, v) {
                Some(b) => b,
                None => d,
            };
            if l <= d {
                Some((l, d))
            } else {
                Some((d, l))
            }
        },
    }
}

/// Some event concerns `v`.
pub open spec fn event_var(events: Seq<LiveRangeEvent>, v: RcVar) -> bool {
    exists|i: int| 0 <= i < events.len() && #[trigger] events[i].var == v
}

/// Events that concern one identity concern one variable.
pub open spec fn consistent_vars(events: Seq<LiveRangeEvent>) -> bool {
    forall|i: int, j: int|
        0 <= i < events.len() && 0 <= j < events.len() && #[trigger] events[i].var.id
            == #[trigger] events[j].var.id ==> events[i].var == events[j].var
}

/// Records an event of `var` at the next point of the walk.
fn record_event(events: &mut Vec<LiveRangeEvent>, var: &RcVar, kind: LivenessEvent)
    ensures
        final(events)@ == old(events)@.push(
            LiveRangeEvent { index: old(events).len(), kind, var: *var },
        ),
{
    let index = events.len();
    events.push(LiveRangeEvent { index, kind, var: *var });
}

/// Records an event of `var` at the point `index`.
fn record_event_at(events: &mut Vec<LiveRangeEvent>, index: usize, var: &RcVar, kind: LivenessEvent)
    ensures
        final(events)@ == old(events)@.push(LiveRangeEvent { index, kind, var: *var }),
{
    events.push(LiveRangeEvent { index, kind, var: *var });
}

/// Marks `var` live, recording that it became live if it was not.
fn add_live_variable(live_variables: &mut VarSet, events: &mut Vec<LiveRangeEvent>, var: &RcVar)
    requires
        old(live_variables).wf(),
    ensures
        final(live_variables).wf(),
        final(live_variables)@ == if old(live_variables)@.contains(*var) {
            old(live_variables)@
        } else {
            old(live_variables)@.insert(*var)
        },
        final(events)@ == if old(live_variables)@.contains(*var) {
            old(events)@
        } else {
            old(events)@.push(
                LiveRangeEvent {
                    index: old(events).len(),
                    kind: LivenessEvent::BecameLive,
                    var: *var,
                },
            )
        },
{
    let ghost before = live_variables@;
    let new = live_variables.insert(*var);
    proof {
        if before.contains(*var) {
            assert(before.insert(*var) =~= before);
        }
    }
    if new {
        record_event(events, var, LivenessEvent::BecameLive);
    }
}

/// The sets that an optional set holds.
pub open spec fn opt_view(o: Option<VarSet>) -> Option<Set<RcVar>> {
    match o {
        Some(s) => Some(s@),
        None => None,
    }
}

/// An optional set that is there is well formed.
pub open spec fn opt_wf(o: Option<VarSet>) -> bool {
    match o {
        Some(s) => s.wf(),
        None => true,
    }
}

/// An optional set stays there or stays away, and only gains elements of `l`.
pub open spec fn opt_within(a: Option<Set<RcVar>>, b: Option<Set<RcVar>>, l: Set<RcVar>) -> bool {
    match (a, b) {
        (Some(x), Some(y)) => y.subset_of(x.union(l)),
        (None, None) => true,
        _ => false,
    }
}

/// `new` extends `old` with events of variables in `l`, at points numbered
/// from `old`'s length to `new`'s; deaths only of variables in `f`.
pub open spec fn events_within(
    old: Seq<LiveRangeEvent>,
    new: Seq<LiveRangeEvent>,
    l: Set<RcVar>,
    f: Set<RcVar>,
) -> bool {
    &&& old.len() <= new.len()
    &&& new.subrange(0, old.len() as int) == old
    &&& forall|i: int|
        old.len() <= i < new.len() ==> l.contains(#[trigger] new[i].var) && old.len()
            <= new[i].index < new.len() && (new[i].kind == LivenessEvent::FirstWriteDead
            ==> f.contains(new[i].var))
}

/// The state of the backwards walk.
pub struct WalkState {
    pub live: Set<RcVar>,
    pub kills: Set<RcVar>,
    pub events: Seq<LiveRangeEvent>,
    pub reads: Option<Set<RcVar>>,
    pub writes: Option<Set<RcVar>>,
}

/// A part of the walk that accesses the variables `l`, of which it writes
/// `f` first, leads from `a` to `b`: the live variables only gain variables of
/// `l`; the killed ones gain only variables of `f` and lose none; events are
/// appended for variables of `l`; the sets of last reads and of writes stay
/// there (or away) and only gain variables of `l`.
pub open spec fn walk_ok(l: Set<RcVar>, f: Set<RcVar>, a: WalkState, b: WalkState) -> bool {
    &&& b.live.subset_of(a.live.union(l))
    &&& a.kills.subset_of(b.kills)
    &&& b.kills.subset_of(a.kills.union(f))
    &&& events_within(a.events, b.events, l, f)
    &&& opt_within(a.reads, b.reads, l)
    &&& opt_within(a.writes, b.writes, l)
}

proof fn lemma_walk_compose(
    l1: Set<RcVar>,
    f1: Set<RcVar>,
    l2: Set<RcVar>,
    f2: Set<RcVar>,
    l: Set<RcVar>,
    f: Set<RcVar>,
    a: WalkState,
    b: WalkState,
    c: WalkState,
)
    requires
        walk_ok(l1, f1, a, b),
        walk_ok(l2, f2, b, c),
        l1.subset_of(l),
        l2.subset_of(l),
        f1.subset_of(f),
        f2.subset_of(f),
    ensures
        walk_ok(l, f, a, c),
{
    assert(c.live.subset_of(a.live.union(l)));
    assert(c.kills.subset_of(a.kills.union(f)));
    assert(opt_within(a.reads, c.reads, l));
    assert(opt_within(a.writes, c.writes, l));
    assert(c.events.subrange(0, a.events.len() as int) =~= a.events) by {
        assert(c.events.subrange(0, b.events.len() as int) == b.events);
        assert forall|i: int| 0 <= i < a.events.len() implies c.events[i] == a.events[i] by {
            assert(c.events.subrange(0, b.events.len() as int)[i] == c.events[i]);
            assert(b.events.subrange(0, a.events.len() as int)[i] == b.events[i]);
        }
    }
    assert forall|i: int| a.events.len() <= i < c.events.len() implies l.contains(
        #[trigger] c.events[i].var,
    ) && a.events.len() <= c.events[i].index < c.events.len() && (c.events[i].kind
        == LivenessEvent::FirstWriteDead ==> f.contains(c.events[i].var)) by {
        if i < b.events.len() {
            assert(c.events.subrange(0, b.events.len() as int)[i] == c.events[i]);
            assert(b.events[i] == c.events[i]);
            assert(l1.contains(b.events[i].var));
        } else {
            assert(l2.contains(c.events[i].var));
        }
    }
}

proof fn lemma_events_compose(
    e0: Seq<LiveRangeEvent>,
    e1: Seq<LiveRangeEvent>,
    e2: Seq<LiveRangeEvent>,
    l1: Set<RcVar>,
    f1: Set<RcVar>,
    l2: Set<RcVar>,
    f2: Set<RcVar>,
    l: Set<RcVar>,
    f: Set<RcVar>,
)
    requires
        events_within(e0, e1, l1, f1),
        events_within(e1, e2, l2, f2),
        l1.subset_of(l),
        l2.subset_of(l),
        f1.subset_of(f),
        f2.subset_of(f),
    ensures
        events_within(e0, e2, l, f),
{
    let a = WalkState { live: Set::empty(), kills: Set::empty(), events: e0, reads: None, writes: None };
    let b = WalkState { events: e1, ..a };
    let c = WalkState { events: e2, ..a };
    lemma_walk_compose(l1, f1, l2, f2, l, f, a, b, c);
}

proof fn lemma_walk_refl(l: Set<RcVar>, f: Set<RcVar>, a: WalkState)
    ensures
        walk_ok(l, f, a, a),
{
    assert(a.events.subrange(0, a.events.len() as int) =~= a.events);
}

/// `a` comes before `b` in the order in which the variables that a loop
/// reads first are visited: by identity, then by type.
pub open spec fn var_le(a: RcVar, b: RcVar) -> bool {
    a.id < b.id || (a.id == b.id && a.possible_types <= b.possible_types)
}

/// The members of a finite set of variables, each once, in order of
/// [`var_le`].
pub open spec fn sorted_vars(s: Set<RcVar>) -> Seq<RcVar> {
    choose|q: Seq<RcVar>| q.to_set() == s && q.no_duplicates() && vars_in_order(q)
}

/// The variables come in order of [`var_le`].
pub open spec fn vars_in_order(q: Seq<RcVar>) -> bool {
    forall|i: int, j: int| 0 <= i < j < q.len() ==> var_le(#[trigger] q[i], #[trigger] q[j])
}

/// An optional set with `v` added, when it is there.
pub open spec fn opt_set_insert(o: Option<Set<RcVar>>, v: RcVar) -> Option<Set<RcVar>> {
    match o {
        Some(s) => Some(s.insert(v)),
        None => None,
    }
}

/// An optional set with `v` removed, when it is there.
pub open spec fn opt_set_remove(o: Option<Set<RcVar>>, v: RcVar) -> Option<Set<RcVar>> {
    match o {
        Some(s) => Some(s.remove(v)),
        None => None,
    }
}

/// The event of `var` at the next point of the walk.
pub open spec fn next_event(events: Seq<LiveRangeEvent>, kind: LivenessEvent, var: RcVar) -> LiveRangeEvent {
    LiveRangeEvent { index: events.len() as usize, kind, var }
}

/// `var` is accessed: it becomes live, with an event, unless it is live.
pub open spec fn became_live(st: WalkState, var: RcVar) -> WalkState {
    if st.live.contains(var) {
        st
    } else {
        WalkState {
            live: st.live.insert(var),
            events: st.events.push(next_event(st.events, LivenessEvent::BecameLive, var)),
            ..st
        }
    }
}

/// Events, at the point `index`, of the variables `vars` becoming live.
pub open spec fn became_live_at(vars: Seq<RcVar>, index: usize) -> Seq<LiveRangeEvent> {
    vars.map_values(|v: RcVar| LiveRangeEvent { index, kind: LivenessEvent::BecameLive, var: v })
}

/// The backwards walk through one opcode.
/// - A local first write kills the variable: it stops being live, is killed,
///   dies with an event, stops being a last read and is written.
/// - Any other local write, and a local tee, make the variable live; it stops
///   being a last read and is written.
/// - A local read makes the variable live and a last read.
/// - An inlined step is walked in place.
/// - Both branches of an if/else are walked from the same state; afterwards a
///   variable killed in either is killed, a variable live in either and not
///   killed is live, and the last reads and writes of both are joined.
/// - A loop is walked through its condition (unless it has a first
///   condition), its body, its pre-body and then its first condition or its
///   condition, collecting its own last reads and writes. A variable that the
///   loop reads before anything else and that was not live after the loop
///   becomes live at the loop's first point. Afterwards the last reads lose
///   the variables written in the enclosing loop and gain the loop's own last
///   reads and writes.
pub open spec fn walk_opcode(op: IrOpcode, st: WalkState) -> WalkState
    decreases op,
{
    match op {
        IrOpcode::DataSetvariableto { var, local_write, first_write } => if !local_write {
            st
        } else if first_write {
            WalkState {
                live: st.live.remove(var),
                kills: st.kills.insert(var),
                events: st.events.push(next_event(st.events, LivenessEvent::FirstWriteDead, var)),
                reads: opt_set_remove(st.reads, var),
                writes: opt_set_insert(st.writes, var),
            }
        } else {
            became_live(
                WalkState {
                    reads: opt_set_remove(st.reads, var),
                    writes: opt_set_insert(st.writes, var),
                    ..st
                },
                var,
            )
        },
        IrOpcode::DataVariable { var, local_read } => if local_read {
            became_live(WalkState { reads: opt_set_insert(st.reads, var), ..st }, var)
        } else {
            st
        },
        IrOpcode::DataTeevariable { var, local_read_write } => if local_read_write {
            became_live(
                WalkState {
                    reads: opt_set_remove(st.reads, var),
                    writes: opt_set_insert(st.writes, var),
                    ..st
                },
                var,
            )
        } else {
            st
        },
        IrOpcode::HqYieldInline { step } => walk_step(step, st),
        IrOpcode::ControlIfElse { branch_if, branch_else } => {
            let si = walk_step(branch_if, st);
            let se = walk_step(branch_else, WalkState { events: si.events, ..st });
            let kills = si.kills.union(se.kills);
            WalkState {
                live: si.live.union(se.live).difference(kills),
                kills,
                events: se.events,
                reads: match (si.reads, se.reads) {
                    (Some(a), Some(b)) => Some(a.union(b)),
                    _ => st.reads,
                },
                writes: match (si.writes, se.writes) {
                    (Some(a), Some(b)) => Some(a.union(b)),
                    _ => st.writes,
                },
            }
        },
        IrOpcode::ControlLoop { condition, first_condition, body, pre_body, .. } => {
            let s0 = WalkState {
                reads: Some(Set::empty()),
                writes: Some(Set::empty()),
                ..st
            };
            let s1 = match first_condition {
                Some(_) => s0,
                None => walk_step(condition, s0),
            };
            let s2 = walk_step(body, s1);
            let s3 = match pre_body {
                Some(p) => walk_step(p, s2),
                None => s2,
            };
            let s4 = match first_condition {
                Some(fc) => walk_step(fc, s3),
                None => walk_step(condition, s3),
            };
            let reads_in = match s4.reads {
                Some(r) => r,
                None => Set::empty(),
            };
            let writes_in = match s4.writes {
                Some(w) => w,
                None => Set::empty(),
            };
            let written = match st.writes {
                Some(w) => w,
                None => Set::empty(),
            };
            WalkState {
                live: s4.live,
                kills: s4.kills,
                events: s4.events + became_live_at(
                    sorted_vars(reads_in.difference(st.live)),
                    st.events.len() as usize,
                ),
                reads: match st.reads {
                    Some(r) => Some(r.difference(written).union(reads_in).union(writes_in)),
                    None => None,
                },
                writes: st.writes,
            }
        },
        IrOpcode::ProceduresArgument { .. } | IrOpcode::OperatorNot | IrOpcode::HqYield { .. }
        | IrOpcode::ProceduresCallNonwarp | IrOpcode::Other { .. } => st,
    }
}

/// The backwards walk through some opcodes: the last one first.
pub open spec fn walk_opcodes(ops: Seq<IrOpcode>, st: WalkState) -> WalkState
    decreases ops,
{
    if ops.len() == 0 {
        st
    } else {
        walk_opcodes(ops.drop_last(), walk_opcode(ops.last(), st))
    }
}

/// The backwards walk through a step.
pub open spec fn walk_step(step: Step, st: WalkState) -> WalkState
    decreases step,
{
    walk_opcodes(step.opcodes@, st)
}

/// The walk's state, as held by its variables.
pub open spec fn state_of(
    live: VarSet,
    kills: VarSet,
    events: Seq<LiveRangeEvent>,
    reads: Option<VarSet>,
    writes: Option<VarSet>,
) -> WalkState {
    WalkState {
        live: live@,
        kills: kills@,
        events,
        reads: opt_view(reads),
        writes: opt_view(writes),
    }
}

/// Removes `var` from an optional set that is there.
fn opt_remove(o: &mut Option<VarSet>, var: &RcVar)
    requires
        opt_wf(*old(o)),
    ensures
        opt_wf(*final(o)),
        opt_view(*final(o)) == match opt_view(*old(o)) {
            Some(s) => Some(s.remove(*var)),
            None => None,
        },
{
    match o {
        Some(s) => {
            s.remove(var);
        },
        None => {},
    }
}

/// Adds `var` to an optional set that is there.
fn opt_insert(o: &mut Option<VarSet>, var: &RcVar)
    requires
        opt_wf(*old(o)),
    ensures
        opt_wf(*final(o)),
        opt_view(*final(o)) == match opt_view(*old(o)) {
            Some(s) => Some(s.insert(*var)),
            None => None,
        },
{
    match o {
        Some(s) => {
            s.insert(*var);
        },
        None => {},
    }
}

/// A copy of an optional set.
fn opt_clone(o: &Option<VarSet>) -> (r: Option<VarSet>)
    requires
        opt_wf(*o),
    ensures
        opt_wf(r),
        opt_view(r) == opt_view(*o),
{
    match o {
        Some(s) => Some(s.clone()),
        None => None,
    }
}

/// Walks backwards through the opcodes of `step`, recording in `events` where
/// local variables become live and where first writes kill them.
/// `last_action_reads`, when there, collects the variables whose last action
/// so far was a read; `loop_writes`, when there, the variables written in the
/// enclosing loop.
fn build_liveness_events(
    step: &Step,
    live_variables: &mut VarSet,
    first_write_kills: &mut VarSet,
    events: &mut Vec<LiveRangeEvent>,
    last_action_reads: &mut Option<VarSet>,
    loop_writes: &mut Option<VarSet>,
)
    requires
        old(live_variables).wf(),
        old(first_write_kills).wf(),
        opt_wf(*old(last_action_reads)),
        opt_wf(*old(loop_writes)),
    ensures
        final(live_variables).wf(),
        final(first_write_kills).wf(),
        opt_wf(*final(last_action_reads)),
        opt_wf(*final(loop_writes)),
        walk_ok(
            step_local_vars(*step),
            step_first_writes(*step),
            state_of(
                *old(live_variables),
                *old(first_write_kills),
                old(events)@,
                *old(last_action_reads),
                *old(loop_writes),
            ),
            state_of(
                *final(live_variables),
                *final(first_write_kills),
                final(events)@,
                *final(last_action_reads),
                *final(loop_writes),
            ),
        ),
        state_of(
            *final(live_variables),
            *final(first_write_kills),
            final(events)@,
            *final(last_action_reads),
            *final(loop_writes),
        ) == walk_step(
            *step,
            state_of(
                *old(live_variables),
                *old(first_write_kills),
                old(events)@,
                *old(last_action_reads),
                *old(loop_writes),
            ),
        ),
    decreases step, 2int,
{
    let ghost start = state_of(
        *live_variables,
        *first_write_kills,
        events@,
        *last_action_reads,
        *loop_writes,
    );
    let ghost l = step_local_vars(*step);
    let ghost f = step_first_writes(*step);
    proof {
        lemma_walk_refl(l, f, start);
    }
    let mut i: usize = step.opcodes.len();
    proof {
        assert(step.opcodes@.subrange(0, i as int) =~= step.opcodes@);
    }
    while i > 0
        invariant
            i <= step.opcodes@.len(),
            walk_opcodes(step.opcodes@, start) == walk_opcodes(
                step.opcodes@.subrange(0, i as int),
                state_of(
                    *live_variables,
                    *first_write_kills,
                    events@,
                    *last_action_reads,
                    *loop_writes,
                ),
            ),
            l == step_local_vars(*step),
            f == step_first_writes(*step),
            live_variables.wf(),
            first_write_kills.wf(),
            opt_wf(*last_action_reads),
            opt_wf(*loop_writes),
            walk_ok(
                l,
                f,
                start,
                state_of(
                    *live_variables,
                    *first_write_kills,
                    events@,
                    *last_action_reads,
                    *loop_writes,
                ),
            ),
        decreases i,
    {
        i = i - 1;
        let ghost before = state_of(
            *live_variables,
            *first_write_kills,
            events@,
            *last_action_reads,
            *loop_writes,
        );
        let op = &step.opcodes[i];
        proof {
            assert(step.opcodes@.subrange(0, i + 1).drop_last() =~= step.opcodes@.subrange(
                0,
                i as int,
            ));
            assert(step.opcodes@.subrange(0, i + 1).last() == *op);
            lemma_opcode_vars_in_opcodes(step.opcodes@, i as int);
            assert(decreases_to!(*step => step.opcodes));
        }
        process_opcode(
            op,
            live_variables,
            first_write_kills,
            events,
            last_action_reads,
            loop_writes,
        );
        proof {
            lemma_walk_compose(
                l,
                f,
                opcode_local_vars(*op),
                opcode_first_writes(*op),
                l,
                f,
                start,
                before,
                state_of(
                    *live_variables,
                    *first_write_kills,
                    events@,
                    *last_action_reads,
                    *loop_writes,
                ),
            );
        }
    }
}

/// Walks backwards through one opcode; see [`build_liveness_events`].
fn process_opcode(
    op: &IrOpcode,
    live_variables: &mut VarSet,
    first_write_kills: &mut VarSet,
    events: &mut Vec<LiveRangeEvent>,
    last_action_reads: &mut Option<VarSet>,
    loop_writes: &mut Option<VarSet>,
)
    requires
        old(live_variables).wf(),
        old(first_write_kills).wf(),
        opt_wf(*old(last_action_reads)),
        opt_wf(*old(loop_writes)),
    ensures
        final(live_variables).wf(),
        final(first_write_kills).wf(),
        opt_wf(*final(last_action_reads)),
        opt_wf(*final(loop_writes)),
        walk_ok(
            opcode_local_vars(*op),
            opcode_first_writes(*op),
            state_of(
                *old(live_variables),
                *old(first_write_kills),
                old(events)@,
                *old(last_action_reads),
                *old(loop_writes),
            ),
            state_of(
                *final(live_variables),
                *final(first_write_kills),
                final(events)@,
                *final(last_action_reads),
                *final(loop_writes),
            ),
        ),
        state_of(
            *final(live_variables),
            *final(first_write_kills),
            final(events)@,
            *final(last_action_reads),
            *final(loop_writes),
        ) == walk_opcode(
            *op,
            state_of(
                *old(live_variables),
                *old(first_write_kills),
                old(events)@,
                *old(last_action_reads),
                *old(loop_writes),
            ),
        ),
    decreases op, 1int,
{
    let ghost start = state_of(
        *live_variables,
        *first_write_kills,
        events@,
        *last_action_reads,
        *loop_writes,
    );
    match op {
        IrOpcode::DataSetvariableto { var, local_write, first_write } => {
            let ghost l = opcode_local_vars(*op);
            let ghost f = opcode_first_writes(*op);
            proof {
                assert(*local_write ==> l.contains(*var));
                assert(*local_write && *first_write ==> f.contains(*var));
            }
            if *first_write {
                if *local_write {
                    opt_remove(last_action_reads, var);
                    opt_insert(loop_writes, var);
                    live_variables.remove(var);
                    first_write_kills.insert(*var);
                    record_event(events, var, LivenessEvent::FirstWriteDead);
                }
            } else if *local_write {
                opt_remove(last_action_reads, var);
                opt_insert(loop_writes, var);
                add_live_variable(live_variables, events, var);
            }
            proof {
                assert(events@.subrange(0, start.events.len() as int) =~= start.events);
                let end = state_of(
                    *live_variables,
                    *first_write_kills,
                    events@,
                    *last_action_reads,
                    *loop_writes,
                );
                assert(end.live.subset_of(start.live.union(l)));
                assert(start.kills.subset_of(end.kills));
                assert(end.kills.subset_of(start.kills.union(f)));
                assert(opt_within(start.reads, end.reads, l));
                assert(opt_within(start.writes, end.writes, l));
                assert(events_within(start.events, end.events, l, f));
            }
        },
        IrOpcode::DataVariable { var, local_read } => {
            if *local_read {
                opt_insert(last_action_reads, var);
                add_live_variable(live_variables, events, var);
            }
            proof {
                assert(events@.subrange(0, start.events.len() as int) =~= start.events);
            }
        },
        IrOpcode::DataTeevariable { var, local_read_write } => {
            if *local_read_write {
                opt_remove(last_action_reads, var);
                opt_insert(loop_writes, var);
                add_live_variable(live_variables, events, var);
            }
            proof {
                assert(events@.subrange(0, start.events.len() as int) =~= start.events);
            }
        },
        IrOpcode::HqYieldInline { step } => {
            build_liveness_events(
                step,
                live_variables,
                first_write_kills,
                events,
                last_action_reads,
                loop_writes,
            );
        },
        IrOpcode::ControlIfElse { branch_if, branch_else } => {
            walk_if_else(
                Ghost(*op),
                branch_if,
                branch_else,
                live_variables,
                first_write_kills,
                events,
                last_action_reads,
                loop_writes,
            );
        },
        IrOpcode::ControlLoop { condition, first_condition, body, pre_body, .. } => {
            walk_loop(
                Ghost(*op),
                condition,
                first_condition,
                body,
                pre_body,
                live_variables,
                first_write_kills,
                events,
                last_action_reads,
                loop_writes,
            );
        },
        IrOpcode::ProceduresArgument { .. } | IrOpcode::OperatorNot | IrOpcode::HqYield { .. }
        | IrOpcode::ProceduresCallNonwarp | IrOpcode::Other { .. } => {
            proof {
                lemma_walk_refl(Set::empty(), Set::empty(), start);
            }
        },
    }
}

/// Walks backwards through both branches of an if/else, from the same state;
/// afterwards a variable killed in either branch is killed, and a variable
/// live in either branch and not killed is live.
fn walk_if_else(
    Ghost(op): Ghost<IrOpcode>,
    branch_if: &Step,
    branch_else: &Step,
    live_variables: &mut VarSet,
    first_write_kills: &mut VarSet,
    events: &mut Vec<LiveRangeEvent>,
    last_action_reads: &mut Option<VarSet>,
    loop_writes: &mut Option<VarSet>,
)
    requires
        op == (IrOpcode::ControlIfElse { branch_if: *branch_if, branch_else: *branch_else }),
        old(live_variables).wf(),
        old(first_write_kills).wf(),
        opt_wf(*old(last_action_reads)),
        opt_wf(*old(loop_writes)),
    ensures
        final(live_variables).wf(),
        final(first_write_kills).wf(),
        opt_wf(*final(last_action_reads)),
        opt_wf(*final(loop_writes)),
        walk_ok(
            opcode_local_vars(op),
            opcode_first_writes(op),
            state_of(
                *old(live_variables),
                *old(first_write_kills),
                old(events)@,
                *old(last_action_reads),
                *old(loop_writes),
            ),
            state_of(
                *final(live_variables),
                *final(first_write_kills),
                final(events)@,
                *final(last_action_reads),
                *final(loop_writes),
            ),
        ),
        state_of(
            *final(live_variables),
            *final(first_write_kills),
            final(events)@,
            *final(last_action_reads),
            *final(loop_writes),
        ) == walk_opcode(
            op,
            state_of(
                *old(live_variables),
                *old(first_write_kills),
                old(events)@,
                *old(last_action_reads),
                *old(loop_writes),
            ),
        ),
    decreases op, 0int,
{
    let ghost l = opcode_local_vars(op);
    let ghost f = opcode_first_writes(op);
    let ghost e0 = events@;
    let mut if_live = live_variables.clone();
    let mut if_kills = first_write_kills.clone();
    let mut if_last = opt_clone(last_action_reads);
    let mut if_writes = opt_clone(loop_writes);
    build_liveness_events(branch_if, &mut if_live, &mut if_kills, events, &mut if_last, &mut if_writes);
    let ghost e1 = events@;
    let mut else_live = live_variables.clone();
    let mut else_kills = first_write_kills.clone();
    let mut else_last = opt_clone(last_action_reads);
    let mut else_writes = opt_clone(loop_writes);
    build_liveness_events(
        branch_else,
        &mut else_live,
        &mut else_kills,
        events,
        &mut else_last,
        &mut else_writes,
    );
    proof {
        lemma_events_compose(
            e0,
            e1,
            events@,
            step_local_vars(*branch_if),
            step_first_writes(*branch_if),
            step_local_vars(*branch_else),
            step_first_writes(*branch_else),
            l,
            f,
        );
    }
    match (&if_last, &else_last) {
        (Some(a), Some(b)) => {
            *last_action_reads = Some(a.union(b));
        },
        _ => {},
    }
    match (&if_writes, &else_writes) {
        (Some(a), Some(b)) => {
            *loop_writes = Some(a.union(b));
        },
        _ => {},
    }
    *first_write_kills = if_kills.union(&else_kills);
    *live_variables = if_live.union(&else_live).difference(first_write_kills);
}

/// [`var_le`] orders all variables.
proof fn lemma_var_le_total()
    ensures
        vstd::relations::total_ordering(|a: RcVar, b: RcVar| var_le(a, b)),
{
    let r = |a: RcVar, b: RcVar| var_le(a, b);
    assert(vstd::relations::reflexive(r));
    assert(vstd::relations::antisymmetric(r)) by {
        assert forall|x: RcVar, y: RcVar| #[trigger] r(x, y) && #[trigger] r(y, x) implies x
            == y by {
            assert(x.id == y.id && x.possible_types == y.possible_types);
        }
    }
    assert(vstd::relations::transitive(r));
    assert(vstd::relations::strongly_connected(r));
}

/// A sequence of the members of a set, each once, in order of [`var_le`], is
/// the set's sorted members.
proof fn lemma_sorted_vars(q: Seq<RcVar>, s: Set<RcVar>)
    requires
        q.to_set() == s,
        q.no_duplicates(),
        vars_in_order(q),
    ensures
        sorted_vars(s) == q,
{
    broadcast use vstd::seq_lib::group_to_multiset_ensures;

    let c = sorted_vars(s);
    assert(c.to_set() == s && c.no_duplicates() && vars_in_order(c));
    let r = |a: RcVar, b: RcVar| var_le(a, b);
    assert(vstd::relations::sorted_by(c, r)) by {
        assert forall|i: int, j: int| 0 <= i < j < c.len() implies #[trigger] r(c[i], c[j]) by {
            assert(var_le(c[i], c[j]));
        }
    }
    assert(vstd::relations::sorted_by(q, r)) by {
        assert forall|i: int, j: int| 0 <= i < j < q.len() implies #[trigger] r(q[i], q[j]) by {
            assert(var_le(q[i], q[j]));
        }
    }
    lemma_var_le_total();
    q.lemma_multiset_has_no_duplicates();
    c.lemma_multiset_has_no_duplicates();
    assert forall|x: RcVar| q.to_multiset().count(x) == c.to_multiset().count(x) by {
        assert(q.to_set().contains(x) == q.contains(x));
        assert(c.to_set().contains(x) == c.contains(x));
    }
    assert(q.to_multiset() =~= c.to_multiset());
    vstd::seq_lib::lemma_sorted_unique(c, q, r);
}

/// The members of `reads` that are not in `live`, in order of [`var_le`].
fn sorted_new_reads(reads: &VarSet, live: &VarSet) -> (q: Vec<RcVar>)
    requires
        reads.wf(),
        live.wf(),
    ensures
        q@ == sorted_vars(reads@.difference(live@)),
        q@.to_set() == reads@.difference(live@),
{
    let ghost target = reads@.difference(live@);
    proof {
        reads.lemma_elements();
    }
    let mut rem: Vec<RcVar> = Vec::new();
    let mut k: usize = 0;
    while k < reads.len()
        invariant
            k <= reads.elements().len(),
            reads.wf(),
            live.wf(),
            reads.elements().no_duplicates(),
            forall|v: RcVar| reads@.contains(v) <==> reads.elements().contains(v),
            rem@.no_duplicates(),
            forall|v: RcVar|
                rem@.contains(v) <==> (reads.elements().take(k as int).contains(v)
                    && !live@.contains(v)),
        decreases reads.elements().len() - k,
    {
        let v = reads.get(k);
        let ghost before = rem@;
        if !live.contains(&v) {
            proof {
                assert(!before.contains(v)) by {
                    if before.contains(v) {
                        let j = choose|j: int| 0 <= j < k && reads.elements().take(k as int)[j]
                            == v;
                        assert(reads.elements()[j] == reads.elements()[k as int]);
                    }
                }
            }
            rem.push(v);
        }
        proof {
            let t0 = reads.elements().take(k as int);
            let t1 = reads.elements().take(k + 1);
            assert(t1 =~= t0.push(v));
            assert forall|x: RcVar| t1.contains(x) <==> (t0.contains(x) || x == v) by {
                if t1.contains(x) {
                    let j = choose|j: int| 0 <= j < t1.len() && t1[j] == x;
                    if j < t0.len() {
                        assert(t0[j] == x);
                    }
                }
                if t0.contains(x) {
                    let j = choose|j: int| 0 <= j < t0.len() && t0[j] == x;
                    assert(t1[j] == x);
                }
                if x == v {
                    assert(t1[k as int] == x);
                }
            }
            assert forall|x: RcVar|
                rem@.contains(x) <==> (reads.elements().take(k + 1).contains(x) && !live@.contains(x)) by {
                if rem@.contains(x) {
                    let j = choose|j: int| 0 <= j < rem@.len() && rem@[j] == x;
                    if j < before.len() {
                        assert(before[j] == x);
                        assert(before.contains(x));
                    } else {
                        assert(x == v && !live@.contains(v));
                    }
                }
                if reads.elements().take(k as int).contains(x) && !live@.contains(x) {
                    let j = choose|j: int| 0 <= j < before.len() && before[j] == x;
                    assert(rem@[j] == x);
                }
                if x == v && !live@.contains(x) {
                    assert(rem@[rem@.len() - 1] == v);
                }
            }
            assert forall|i: int, j: int| 0 <= i < j < rem@.len() implies rem@[i] != rem@[j] by {
                if j == rem@.len() - 1 && rem@.len() > before.len() {
                    assert(before.contains(rem@[i]) ==> rem@[i] != v);
                    assert(before[i] == rem@[i]);
                } else {
                    assert(before[i] == rem@[i] && before[j] == rem@[j]);
                }
            }
        }
        k = k + 1;
    }
    proof {
        assert(reads.elements().take(k as int) =~= reads.elements());
    }
    let ghost all = rem@;
    proof {
        assert(Seq::<RcVar>::empty() + all =~= all);
        assert forall|v: RcVar| all.contains(v) <==> target.contains(v) by {
            assert(reads@.contains(v) <==> reads.elements().contains(v));
        }
    }
    let mut out: Vec<RcVar> = Vec::new();
    while rem.len() > 0
        invariant
            (out@ + rem@).no_duplicates(),
            forall|v: RcVar| (out@ + rem@).contains(v) <==> all.contains(v),
            forall|v: RcVar| all.contains(v) <==> target.contains(v),
            vars_in_order(out@),
            forall|i: int, y: int|
                0 <= i < out@.len() && 0 <= y < rem@.len() ==> var_le(
                    #[trigger] out@[i],
                    #[trigger] rem@[y],
                ),
        decreases rem@.len(),
    {
        let mut m: usize = 0;
        let mut a: usize = 1;
        while a < rem.len()
            invariant
                0 <= m < a <= rem@.len(),
                forall|y: int| 0 <= y < a ==> var_le(rem@[m as int], #[trigger] rem@[y]),
            decreases rem@.len() - a,
        {
            let x = rem[a];
            let y = rem[m];
            if x.id < y.id || (x.id == y.id && x.possible_types < y.possible_types) {
                m = a;
            }
            a = a + 1;
        }
        let ghost old_rem = rem@;
        let ghost old_out = out@;
        let x = rem.remove(m);
        out.push(x);
        proof {
            assert(old_rem == old_rem.subrange(0, m as int) + seq![x] + old_rem.subrange(
                m + 1,
                old_rem.len() as int,
            ));
            assert(rem@ =~= old_rem.subrange(0, m as int) + old_rem.subrange(
                m + 1,
                old_rem.len() as int,
            ));
            // the same elements, in another order
            assert forall|i: int|
                0 <= i < (out@ + rem@).len() implies #[trigger] (out@ + rem@)[i] == (old_out
                + old_rem)[if i < old_out.len() {
                i
            } else if i == old_out.len() {
                old_out.len() + m
            } else if i <= old_out.len() + m {
                i - 1
            } else {
                i
            }] by {}
            assert forall|i: int, j: int|
                0 <= i < j < (out@ + rem@).len() implies (out@ + rem@)[i] != (out@ + rem@)[j] by {
                let f = |i: int|
                    if i < old_out.len() {
                        i
                    } else if i == old_out.len() {
                        old_out.len() + m
                    } else if i <= old_out.len() + m {
                        i - 1
                    } else {
                        i
                    };
                assert((out@ + rem@)[i] == (old_out + old_rem)[f(i)]);
                assert((out@ + rem@)[j] == (old_out + old_rem)[f(j)]);
                assert(f(i) != f(j));
            }
            assert forall|v: RcVar| (out@ + rem@).contains(v) <==> all.contains(v) by {
                if (out@ + rem@).contains(v) {
                    let i = choose|i: int| 0 <= i < (out@ + rem@).len() && (out@ + rem@)[i] == v;
                    let f = if i < old_out.len() {
                        i
                    } else if i == old_out.len() {
                        old_out.len() + m
                    } else if i <= old_out.len() + m {
                        i - 1
                    } else {
                        i
                    };
                    assert((old_out + old_rem)[f] == v);
                }
                if all.contains(v) {
                    assert((old_out + old_rem).contains(v));
                    let i = choose|i: int| 0 <= i < (old_out + old_rem).len() && (old_out
                        + old_rem)[i] == v;
                    let g = if i < old_out.len() {
                        i
                    } else if i == old_out.len() + m {
                        old_out.len() as int
                    } else if i < old_out.len() + m {
                        i + 1
                    } else {
                        i
                    };
                    assert((out@ + rem@)[g] == v);
                }
            }
            assert forall|i: int, y: int|
                0 <= i < out@.len() && 0 <= y < rem@.len() implies var_le(
                #[trigger] out@[i],
                #[trigger] rem@[y],
            ) by {
                let oy = if y < m { y } else { y + 1 };
                assert(rem@[y] == old_rem[oy]);
                if i < old_out.len() {
                    assert(out@[i] == old_out[i]);
                }
            }
            assert forall|i: int, j: int| 0 <= i < j < out@.len() implies var_le(
                #[trigger] out@[i],
                #[trigger] out@[j],
            ) by {
                if j < old_out.len() {
                    assert(out@[i] == old_out[i] && out@[j] == old_out[j]);
                } else {
                    assert(out@[i] == old_out[i]);
                    assert(var_le(old_out[i], old_rem[m as int]));
                }
            }
        }
    }
    proof {
        assert(out@ + rem@ =~= out@);
        assert(out@.to_set() =~= target) by {
            assert forall|v: RcVar| out@.to_set().contains(v) <==> target.contains(v) by {
                assert(out@.to_set().contains(v) == out@.contains(v));
            }
        }
        lemma_sorted_vars(out@, target);
    }
    out
}

/// Walks backwards through a loop: its condition, body, pre-body and first
/// condition, collecting the variables read before anything else in the loop,
/// which stay live through the whole loop when they were not live after it.
fn walk_loop(
    Ghost(op): Ghost<IrOpcode>,
    condition: &Step,
    first_condition: &Option<Step>,
    body: &Step,
    pre_body: &Option<Step>,
    live_variables: &mut VarSet,
    first_write_kills: &mut VarSet,
    events: &mut Vec<LiveRangeEvent>,
    last_action_reads: &mut Option<VarSet>,
    loop_writes: &mut Option<VarSet>,
)
    requires
        op is ControlLoop,
        op->condition == *condition,
        op->first_condition == *first_condition,
        op->body == *body,
        op->pre_body == *pre_body,
        old(live_variables).wf(),
        old(first_write_kills).wf(),
        opt_wf(*old(last_action_reads)),
        opt_wf(*old(loop_writes)),
    ensures
        final(live_variables).wf(),
        final(first_write_kills).wf(),
        opt_wf(*final(last_action_reads)),
        opt_wf(*final(loop_writes)),
        walk_ok(
            opcode_local_vars(op),
            opcode_first_writes(op),
            state_of(
                *old(live_variables),
                *old(first_write_kills),
                old(events)@,
                *old(last_action_reads),
                *old(loop_writes),
            ),
            state_of(
                *final(live_variables),
                *final(first_write_kills),
                final(events)@,
                *final(last_action_reads),
                *final(loop_writes),
            ),
        ),
        state_of(
            *final(live_variables),
            *final(first_write_kills),
            final(events)@,
            *final(last_action_reads),
            *final(loop_writes),
        ) == walk_opcode(
            op,
            state_of(
                *old(live_variables),
                *old(first_write_kills),
                old(events)@,
                *old(last_action_reads),
                *old(loop_writes),
            ),
        ),
    decreases op, 0int,
{
    let ghost l = opcode_local_vars(op);
    let ghost f = opcode_first_writes(op);
    let loop_start_index = events.len();
    let mut loop_live = live_variables.clone();
    let mut loop_last_action_reads: Option<VarSet> = Some(VarSet::new());
    let mut inner_loop_writes: Option<VarSet> = Some(VarSet::new());
    let ghost start = state_of(
        loop_live,
        *first_write_kills,
        events@,
        loop_last_action_reads,
        inner_loop_writes,
    );
    proof {
        lemma_walk_refl(l, f, start);
    }
    if first_condition.is_none() {
        let ghost before = state_of(
            loop_live,
            *first_write_kills,
            events@,
            loop_last_action_reads,
            inner_loop_writes,
        );
        build_liveness_events(
            condition,
            &mut loop_live,
            first_write_kills,
            events,
            &mut loop_last_action_reads,
            &mut inner_loop_writes,
        );
        proof {
            lemma_walk_compose(
                l,
                f,
                step_local_vars(*condition),
                step_first_writes(*condition),
                l,
                f,
                start,
                before,
                state_of(
                    loop_live,
                    *first_write_kills,
                    events@,
                    loop_last_action_reads,
                    inner_loop_writes,
                ),
            );
        }
    }
    let ghost before = state_of(
        loop_live,
        *first_write_kills,
        events@,
        loop_last_action_reads,
        inner_loop_writes,
    );
    build_liveness_events(
        body,
        &mut loop_live,
        first_write_kills,
        events,
        &mut loop_last_action_reads,
        &mut inner_loop_writes,
    );
    proof {
        lemma_walk_compose(
            l,
            f,
            step_local_vars(*body),
            step_first_writes(*body),
            l,
            f,
            start,
            before,
            state_of(
                loop_live,
                *first_write_kills,
                events@,
                loop_last_action_reads,
                inner_loop_writes,
            ),
        );
    }
    match pre_body {
        Some(pre_body_step) => {
            let ghost before = state_of(
                loop_live,
                *first_write_kills,
                events@,
                loop_last_action_reads,
                inner_loop_writes,
            );
            build_liveness_events(
                pre_body_step,
                &mut loop_live,
                first_write_kills,
                events,
                &mut loop_last_action_reads,
                &mut inner_loop_writes,
            );
            proof {
                lemma_walk_compose(
                    l,
                    f,
                    step_local_vars(*pre_body_step),
                    step_first_writes(*pre_body_step),
                    l,
                    f,
                    start,
                    before,
                    state_of(
                        loop_live,
                        *first_write_kills,
                        events@,
                        loop_last_action_reads,
                        inner_loop_writes,
                    ),
                );
            }
        },
        None => {},
    }
    let ghost before = state_of(
        loop_live,
        *first_write_kills,
        events@,
        loop_last_action_reads,
        inner_loop_writes,
    );
    let last_step = match first_condition {
        Some(first_condition_step) => first_condition_step,
        None => condition,
    };
    build_liveness_events(
        last_step,
        &mut loop_live,
        first_write_kills,
        events,
        &mut loop_last_action_reads,
        &mut inner_loop_writes,
    );
    proof {
        lemma_walk_compose(
            l,
            f,
            step_local_vars(*last_step),
            step_first_writes(*last_step),
            l,
            f,
            start,
            before,
            state_of(
                loop_live,
                *first_write_kills,
                events@,
                loop_last_action_reads,
                inner_loop_writes,
            ),
        );
    }
    let reads_in_loop = match loop_last_action_reads {
        Some(s) => s,
        None => VarSet::new(),
    };
    let writes_in_loop = match inner_loop_writes {
        Some(s) => s,
        None => VarSet::new(),
    };
    // a variable that the loop reads before anything else, and that was not
    // live after the loop, is live through the whole loop
    let new_reads = sorted_new_reads(&reads_in_loop, live_variables);
    let ghost batch_start = events@;
    proof {
        assert(reads_in_loop@.subset_of(l));
        assert forall|j: int| 0 <= j < new_reads@.len() implies l.contains(
            #[trigger] new_reads@[j],
        ) by {
            assert(new_reads@.to_set().contains(new_reads@[j]));
        }
        assert(events@ =~= batch_start + became_live_at(new_reads@.take(0), loop_start_index));
    }
    let mut k: usize = 0;
    while k < new_reads.len()
        invariant
            k <= new_reads@.len(),
            forall|j: int| 0 <= j < new_reads@.len() ==> l.contains(#[trigger] new_reads@[j]),
            loop_start_index == start.events.len(),
            events@ == batch_start + became_live_at(new_reads@.take(k as int), loop_start_index),
            events_within(start.events, events@, l, f),
        decreases new_reads@.len() - k,
    {
        let var = new_reads[k];
        let ghost prev = events@;
        record_event_at(events, loop_start_index, &var, LivenessEvent::BecameLive);
        proof {
            assert(new_reads@.take(k + 1) =~= new_reads@.take(k as int).push(var));
            assert(became_live_at(new_reads@.take(k + 1), loop_start_index) =~= became_live_at(
                new_reads@.take(k as int),
                loop_start_index,
            ).push(LiveRangeEvent { index: loop_start_index, kind: LivenessEvent::BecameLive, var }));
            assert(events@.subrange(0, prev.len() as int) =~= prev);
            assert(events@.subrange(0, start.events.len() as int) =~= prev.subrange(
                0,
                start.events.len() as int,
            ));
            assert(l.contains(new_reads@[k as int]));
            assert forall|i: int| start.events.len() <= i < events@.len() implies l.contains(
                #[trigger] events@[i].var,
            ) && start.events.len() <= events@[i].index < events@.len() && (events@[i].kind
                == LivenessEvent::FirstWriteDead ==> f.contains(events@[i].var)) by {
                if i < prev.len() {
                    assert(events@[i] == prev[i]);
                    assert(l.contains(prev[i].var));
                }
            }
        }
        k = k + 1;
    }
    proof {
        assert(new_reads@.take(k as int) =~= new_reads@);
    }
    *live_variables = loop_live;
    match last_action_reads {
        Some(reads) => {
            let written = match loop_writes {
                Some(w) => w.clone(),
                None => VarSet::new(),
            };
            let kept = reads.difference(&written);
            let updated = kept.union(&reads_in_loop);
            *reads = updated.union(&writes_in_loop);
        },
        None => {},
    }
}

/// A variable's liveness range: it is live from `start` to `end`.
#[derive(Clone, Copy, Debug, PartialEq, Eq, Structural)]
pub struct LivenessRange {
    pub var: RcVar,
    pub start: usize,
    pub end: usize,
}

/// The variable that `v` is merged into: itself when it is not merged.
pub open spec fn root_of(m: Map<u64, RcVar>, v: RcVar) -> RcVar {
    if m.contains_key(v.id) {
        m[v.id]
    } else {
        v
    }
}

/// Neither range overlaps the other.
pub open spec fn disjoint(a: LivenessRange, b: LivenessRange) -> bool {
    a.end < b.start || b.end < a.start
}

/// No variable has two ranges, and every range starts before it ends.
pub open spec fn well_formed_ranges(rs: Seq<LivenessRange>) -> bool {
    &&& forall|i: int, j: int|
        0 <= i < rs.len() && 0 <= j < rs.len() && i != j ==> #[trigger] rs[i].var.id
            != #[trigger] rs[j].var.id
    &&& forall|i: int| 0 <= i < rs.len() ==> #[trigger] rs[i].start <= rs[i].end
}

/// The identities of the ranges' variables.
pub open spec fn range_ids(rs: Seq<LivenessRange>) -> Set<u64> {
    rs.map_values(|r: LivenessRange| r.var.id).to_set()
}

/// A merge of the ranges' variables is sound: only those variables are
/// merged; each is merged into one of them, of the same type, that is not
/// merged itself; and two variables merged into one have disjoint ranges.
pub open spec fn sound_merge(rs: Seq<LivenessRange>, m: Map<u64, RcVar>) -> bool {
    &&& m.dom().subset_of(range_ids(rs))
    &&& forall|j: int|
        0 <= j < rs.len() ==> {
            let root = #[trigger] root_of(m, rs[j].var);
            &&& root.possible_types == rs[j].var.possible_types
            &&& !m.contains_key(root.id)
            &&& exists|r: int| 0 <= r < rs.len() && rs[r].var == root
        }
    &&& forall|i: int, j: int|
        0 <= i < rs.len() && 0 <= j < rs.len() && i != j && root_of(m, rs[i].var) == root_of(
            m,
            rs[j].var,
        ) ==> disjoint(#[trigger] rs[i], #[trigger] rs[j])
}

/// An optional point as an optional integer.
pub open spec fn opt_int(o: Option<usize>) -> Option<int> {
    match o {
        Some(x) => Some(x as int),
        None => None,
    }
}

proof fn lemma_birth_death_step(events: Seq<LiveRangeEvent>, i: int, v: RcVar)
    requires
        0 <= i < events.len(),
    ensures
        events.take(i + 1).drop_last() == events.take(i),
        events.take(i + 1).last() == events[i],
        events[i].var.id != v.id ==> birth(events.take(i + 1), v) == birth(events.take(i), v)
            && death(events.take(i + 1), v) == death(events.take(i), v),
{
    assert(events.take(i + 1).drop_last() =~= events.take(i));
}

/// The liveness range of every variable that dies somewhere, each once.
fn liveness_ranges(events: &[LiveRangeEvent]) -> (out: Vec<LivenessRange>)
    requires
        consistent_vars(events@),
    ensures
        ranges_of_events(events@, out@),
        well_formed_ranges(out@),
        forall|j: int|
            0 <= j < out@.len() ==> event_var(events@, #[trigger] out@[j].var) && live_range(
                events@,
                out@[j].var,
            ) == Some((out@[j].start as int, out@[j].end as int)),
        forall|v: RcVar|
            event_var(events@, v) && (#[trigger] live_range(events@, v)) is Some ==> exists|j: int|
                0 <= j < out@.len() && out@[j].var == v,
{
    // each variable with its earliest birth and latest death so far
    let mut builder: Vec<(RcVar, Option<usize>, Option<usize>)> = Vec::new();
    let ghost mut src: Seq<int> = Seq::empty();
    let ghost mut pos: Seq<int> = Seq::empty();
    let mut i: usize = 0;
    while i < events.len()
        invariant
            i <= events@.len(),
            consistent_vars(events@),
            src.len() == builder@.len(),
            pos.len() == i,
            forall|a: int|
                0 <= a < builder@.len() ==> 0 <= #[trigger] src[a] < i && events@[src[a]].var
                    == builder@[a].0 && opt_int(builder@[a].1) == birth(
                    events@.take(i as int),
                    builder@[a].0,
                ) && opt_int(builder@[a].2) == death(events@.take(i as int), builder@[a].0),
            forall|a: int, b: int|
                0 <= a < builder@.len() && 0 <= b < builder@.len() && a != b
                    ==> #[trigger] builder@[a].0.id != #[trigger] builder@[b].0.id,
            forall|j: int|
                0 <= j < i ==> 0 <= #[trigger] pos[j] < builder@.len() && builder@[pos[j]].0.id
                    == events@[j].var.id,
        decreases events@.len() - i,
    {
        let e = events[i];
        let mut found: Option<usize> = None;
        let mut a: usize = 0;
        while a < builder.len()
            invariant
                a <= builder@.len(),
                match found {
                    Some(f) => f < builder@.len() && builder@[f as int].0.id == e.var.id,
                    None => forall|b: int| 0 <= b < a ==> builder@[b].0.id != e.var.id,
                },
            decreases builder@.len() - a,
        {
            if found.is_none() && builder[a].0.id == e.var.id {
                found = Some(a);
            }
            a = a + 1;
        }
        let ghost old_builder = builder@;
        let ghost old_src = src;
        let idx = match found {
            Some(f) => f,
            None => {
                proof {
                    // a variable not seen before has neither birth nor death so far
                    assert forall|j: int| 0 <= j < i implies events@[j].var.id != e.var.id by {
                        assert(builder@[pos[j]].0.id == events@[j].var.id);
                    }
                    lemma_no_events(events@.take(i as int), e.var);
                }
                builder.push((e.var, None, None));
                proof {
                    src = src.push(i as int);
                }
                builder.len() - 1
            },
        };
        let (v, b, d) = builder[idx];
        let nb = if e.kind == LivenessEvent::BecameLive {
            Some(
                match b {
                    Some(x) => if x <= e.index {
                        x
                    } else {
                        e.index
                    },
                    None => e.index,
                },
            )
        } else {
            b
        };
        let nd = if e.kind == LivenessEvent::FirstWriteDead {
            Some(
                match d {
                    Some(x) => if x >= e.index {
                        x
                    } else {
                        e.index
                    },
                    None => e.index,
                },
            )
        } else {
            d
        };
        builder.set(idx, (v, nb, nd));
        proof {
            pos = pos.push(idx as int);
            assert(v.id == e.var.id);
            assert forall|a: int|
                0 <= a < builder@.len() implies 0 <= #[trigger] src[a] < i + 1 && events@[src[a]].var
                == builder@[a].0 && opt_int(builder@[a].1) == birth(
                events@.take(i + 1),
                builder@[a].0,
            ) && opt_int(builder@[a].2) == death(events@.take(i + 1), builder@[a].0) by {
                lemma_birth_death_step(events@, i as int, builder@[a].0);
            }
        }
        i = i + 1;
    }
    let mut out: Vec<LivenessRange> = Vec::new();
    let ghost mut from: Seq<int> = Seq::empty();
    let mut a: usize = 0;
    while a < builder.len()
        invariant
            a <= builder@.len(),
            i == events@.len(),
            src.len() == builder@.len(),
            pos.len() == events@.len(),
            from.len() == out@.len(),
            forall|c: int|
                0 <= c < builder@.len() ==> 0 <= #[trigger] src[c] < i && events@[src[c]].var
                    == builder@[c].0 && opt_int(builder@[c].1) == birth(
                    events@.take(i as int),
                    builder@[c].0,
                ) && opt_int(builder@[c].2) == death(events@.take(i as int), builder@[c].0),
            forall|c: int, b: int|
                0 <= c < builder@.len() && 0 <= b < builder@.len() && c != b
                    ==> #[trigger] builder@[c].0.id != #[trigger] builder@[b].0.id,
            forall|j: int|
                0 <= j < out@.len() ==> 0 <= #[trigger] from[j] < a && builder@[from[j]].0
                    == out@[j].var && out@[j].start <= out@[j].end && live_range(
                    events@,
                    out@[j].var,
                ) == Some((out@[j].start as int, out@[j].end as int)),
            forall|j: int, k: int|
                0 <= j < out@.len() && 0 <= k < out@.len() && j != k ==> #[trigger] from[j]
                    != #[trigger] from[k],
            forall|c: int|
                0 <= c < a && builder@[c].2 is Some ==> exists|j: int|
                    0 <= j < out@.len() && #[trigger] from[j] == c,
        decreases builder@.len() - a,
    {
        let (v, b, d) = builder[a];
        let ghost old_out = out@;
        let ghost old_from = from;
        proof {
            assert(events@.take(i as int) =~= events@);
            assert(0 <= src[a as int] < i);
            assert(opt_int(b) == birth(events@, v));
            assert(opt_int(d) == death(events@, v));
        }
        match d {
            Some(dead) => {
                let live = match b {
                    Some(x) => x,
                    None => dead,
                };
                let (start, end) = if live <= dead {
                    (live, dead)
                } else {
                    (dead, live)
                };
                out.push(LivenessRange { var: v, start, end });
                proof {
                    from = from.push(a as int);
                    assert(from[out@.len() - 1] == a);
                    assert(live_range(events@, v) == Some((start as int, end as int)));
                }
            },
            None => {},
        }
        proof {
            assert forall|c: int|
                0 <= c < a + 1 && builder@[c].2 is Some implies exists|j: int|
                    0 <= j < out@.len() && #[trigger] from[j] == c by {
                if c < a {
                    let j = choose|j: int| 0 <= j < old_out.len() && #[trigger] old_from[j] == c;
                    assert(from[j] == c);
                } else {
                    assert(from[out@.len() - 1] == c);
                }
            }
        }
        a = a + 1;
    }
    proof {
        assert(events@.take(i as int) =~= events@);
        assert forall|x: int, y: int|
            0 <= x < out@.len() && 0 <= y < out@.len() && x != y implies #[trigger] out@[x].var.id
            != #[trigger] out@[y].var.id by {
            assert(0 <= from[x] < builder@.len());
            assert(0 <= from[y] < builder@.len());
            assert(from[x] != from[y]);
            assert(builder@[from[x]].0.id != builder@[from[y]].0.id);
        }
        assert forall|x: int| 0 <= x < out@.len() implies #[trigger] out@[x].start <= out@[x].end by {
            assert(0 <= from[x] < builder@.len());
        }
        assert forall|j: int| 0 <= j < out@.len() implies event_var(events@, #[trigger] out@[j].var)
            && live_range(events@, out@[j].var) == Some((out@[j].start as int, out@[j].end as int)) by {
            assert(0 <= from[j] < builder@.len());
            assert(0 <= src[from[j]] < i);
            assert(events@[src[from[j]]].var == out@[j].var);
        }
        assert forall|v: RcVar|
            event_var(events@, v) && (#[trigger] live_range(events@, v)) is Some implies exists|j: int|
                0 <= j < out@.len() && out@[j].var == v by {
            let e = choose|e: int| 0 <= e < events@.len() && #[trigger] events@[e].var == v;
            let c = pos[e];
            assert(builder@[c].0.id == v.id);
            assert(events@[src[c]].var.id == events@[e].var.id);
            assert(builder@[c].0 == v);
            assert(builder@[c].2 is Some);
            let j = choose|j: int| 0 <= j < out@.len() && #[trigger] from[j] == c;
            assert(out@[j].var == v);
        }
    }
    out
}

/// A variable with no events so far has neither birth nor death.
proof fn lemma_no_events(events: Seq<LiveRangeEvent>, v: RcVar)
    requires
        forall|j: int| 0 <= j < events.len() ==> events[j].var.id != v.id,
    ensures
        birth(events, v) is None,
        death(events, v) is None,
    decreases events.len(),
{
    if events.len() > 0 {
        lemma_no_events(events.drop_last(), v);
    }
}

/// Orders ranges by start, then end, then variable.
pub open spec fn range_le(a: LivenessRange, b: LivenessRange) -> bool {
    a.start < b.start || (a.start == b.start && (a.end < b.end || (a.end == b.end && a.var.id
        <= b.var.id)))
}

/// Ranges in order of [`range_le`].
pub open spec fn sorted_ranges(rs: Seq<LivenessRange>) -> bool {
    forall|i: int, j: int| 0 <= i < j < rs.len() ==> range_le(#[trigger] rs[i], #[trigger] rs[j])
}

/// Sorts ranges by start, then end, then variable.
fn sort_ranges(ranges: Vec<LivenessRange>) -> (out: Vec<LivenessRange>)
    ensures
        out@.to_multiset() == ranges@.to_multiset(),
        sorted_ranges(out@),
{
    broadcast use vstd::seq_lib::group_to_multiset_ensures;

    let mut rem = ranges;
    let mut out: Vec<LivenessRange> = Vec::new();
    while rem.len() > 0
        invariant
            out@.to_multiset().add(rem@.to_multiset()) == ranges@.to_multiset(),
            sorted_ranges(out@),
            forall|i: int, y: int|
                0 <= i < out@.len() && 0 <= y < rem@.len() ==> range_le(
                    #[trigger] out@[i],
                    #[trigger] rem@[y],
                ),
        decreases rem@.len(),
    {
        let mut m: usize = 0;
        let mut a: usize = 1;
        while a < rem.len()
            invariant
                0 <= m < a <= rem@.len(),
                forall|y: int| 0 <= y < a ==> range_le(rem@[m as int], #[trigger] rem@[y]),
            decreases rem@.len() - a,
        {
            let x = rem[a];
            let y = rem[m];
            if x.start < y.start || (x.start == y.start && (x.end < y.end || (x.end == y.end
                && x.var.id < y.var.id))) {
                m = a;
            }
            a = a + 1;
        }
        let ghost old_rem = rem@;
        let ghost old_out = out@;
        let x = rem.remove(m);
        out.push(x);
        proof {
            vstd::seq_lib::to_multiset_remove(old_rem, m as int);
            vstd::seq_lib::to_multiset_build(old_out, x);
            vstd::seq_lib::to_multiset_contains(old_rem, x);
            assert(old_rem.contains(x)) by {
                assert(old_rem[m as int] == x);
            }
            assert(out@.to_multiset().add(rem@.to_multiset()) =~= ranges@.to_multiset());
            assert forall|i: int, y: int|
                0 <= i < out@.len() && 0 <= y < rem@.len() implies range_le(
                #[trigger] out@[i],
                #[trigger] rem@[y],
            ) by {
                let oy = if y < m { y } else { y + 1 };
                assert(rem@[y] == old_rem[oy]);
                if i < old_out.len() {
                    assert(out@[i] == old_out[i]);
                }
            }
            assert forall|i: int, j: int| 0 <= i < j < out@.len() implies range_le(
                #[trigger] out@[i],
                #[trigger] out@[j],
            ) by {
                if j < old_out.len() {
                    assert(out@[i] == old_out[i] && out@[j] == old_out[j]);
                } else {
                    assert(out@[i] == old_out[i]);
                    assert(range_le(old_out[i], old_rem[m as int]));
                }
            }
        }
    }
    proof {
        assert(rem@.to_multiset() =~= vstd::multiset::Multiset::<LivenessRange>::empty());
        assert(out@.to_multiset() =~= ranges@.to_multiset());
    }
    out
}

/// Sorting keeps the ranges well formed and keeps which ranges there are.
proof fn lemma_sorted_same_ranges(a: Seq<LivenessRange>, b: Seq<LivenessRange>)
    requires
        well_formed_ranges(a),
        b.to_multiset() == a.to_multiset(),
    ensures
        well_formed_ranges(b),
        forall|x: LivenessRange| b.contains(x) <==> a.contains(x),
{
    broadcast use vstd::seq_lib::group_to_multiset_ensures;

    assert forall|x: LivenessRange| b.contains(x) <==> a.contains(x) by {
        vstd::seq_lib::to_multiset_contains(a, x);
        vstd::seq_lib::to_multiset_contains(b, x);
    }
    assert(a.no_duplicates()) by {
        assert forall|i: int, j: int| 0 <= i < a.len() && 0 <= j < a.len() && i != j implies a[i]
            != a[j] by {
            assert(a[i].var.id != a[j].var.id);
        }
    }
    a.lemma_multiset_has_no_duplicates();
    b.lemma_multiset_has_no_duplicates_conv();
    assert forall|i: int, j: int| 0 <= i < b.len() && 0 <= j < b.len() && i != j implies #[trigger] b[i].var.id
        != #[trigger] b[j].var.id by {
        if b[i].var.id == b[j].var.id {
            assert(a.contains(b[i]));
            assert(a.contains(b[j]));
            let p = choose|p: int| 0 <= p < a.len() && a[p] == b[i];
            let q = choose|q: int| 0 <= q < a.len() && a[q] == b[j];
            assert(a[p].var.id == a[q].var.id);
        }
    }
    assert forall|i: int| 0 <= i < b.len() implies #[trigger] b[i].start <= b[i].end by {
        assert(a.contains(b[i]));
        let p = choose|p: int| 0 <= p < a.len() && a[p] == b[i];
        assert(a[p].start <= a[p].end);
    }
}

/// Group tails in order: `a` ends before `b`, or with it and has the
/// smaller identity.
pub open spec fn tail_le(a: (usize, RcVar), b: (usize, RcVar)) -> bool {
    a.0 < b.0 || (a.0 == b.0 && a.1.id <= b.1.id)
}

/// Of the groups whose last ranges are `joined`, the group `b` has `r`'s type
/// and its last range ends earliest among the groups of that type.
pub open spec fn earliest_group(joined: Seq<(usize, RcVar)>, r: LivenessRange, b: int) -> bool {
    &&& 0 <= b < joined.len()
    &&& joined[b].1.possible_types == r.var.possible_types
    &&& forall|a: int|
        0 <= a < joined.len() && (#[trigger] joined[a]).1.possible_types
            == r.var.possible_types ==> tail_le(joined[b], joined[a])
}

/// One step of the greedy merge: the range `r` joins the group of its type
/// whose last range ends earliest, when that range ends before `r` starts,
/// and is merged into that group's first variable; otherwise `r` starts a
/// group of its own. The state is the last range of each group (where it
/// ends and its variable) and the merges so far.
#[verifier::opaque]
pub open spec fn greedy_step(
    st: (Seq<(usize, RcVar)>, Map<u64, RcVar>),
    r: LivenessRange,
) -> (Seq<(usize, RcVar)>, Map<u64, RcVar>) {
    let joined = st.0;
    let merged = st.1;
    if exists|b: int| earliest_group(joined, r, b) {
        let b = choose|b: int| earliest_group(joined, r, b);
        if joined[b].0 < r.start {
            (
                joined.update(b, (r.end, r.var)),
                merged.insert(r.var.id, root_of(merged, joined[b].1)),
            )
        } else {
            (joined.push((r.end, r.var)), merged)
        }
    } else {
        (joined.push((r.end, r.var)), merged)
    }
}

/// The greedy merge of ranges taken in the order given.
pub open spec fn greedy_merge(rs: Seq<LivenessRange>) -> (Seq<(usize, RcVar)>, Map<u64, RcVar>)
    decreases rs.len(),
{
    if rs.len() == 0 {
        (Seq::empty(), Map::empty())
    } else {
        greedy_step(greedy_merge(rs.drop_last()), rs.last())
    }
}

/// Greedily merges ranges: each range, in order, joins the group of its type
/// whose last range ends earliest, if that range ends before this one starts,
/// and otherwise starts a group of its own.
/// Finds the group of `range`'s type whose last range ends earliest, if
/// there is a group of that type.
fn find_earliest_group(joined: &Vec<(usize, RcVar)>, range: &LivenessRange) -> (best: Option<usize>)
    ensures
        match best {
            Some(b) => earliest_group(joined@, *range, b as int),
            None => forall|c: int| !earliest_group(joined@, *range, c),
        },
{
    let mut best: Option<usize> = None;
    let mut a: usize = 0;
    while a < joined.len()
        invariant
            a <= joined@.len(),
            match best {
                Some(b) => b < a && joined@[b as int].1.possible_types == range.var.possible_types
                    && forall|c: int|
                    0 <= c < a && (#[trigger] joined@[c]).1.possible_types
                        == range.var.possible_types ==> tail_le(joined@[b as int], joined@[c]),
                None => forall|c: int|
                    0 <= c < a ==> (#[trigger] joined@[c]).1.possible_types
                        != range.var.possible_types,
            },
        decreases joined@.len() - a,
    {
        let (end, var) = joined[a];
        if var.possible_types == range.var.possible_types {
            match best {
                None => {
                    best = Some(a);
                },
                Some(b) => {
                    let (best_end, best_var) = joined[b];
                    if end < best_end || (end == best_end && var.id < best_var.id) {
                        best = Some(a);
                    }
                },
            }
        }
        a = a + 1;
    }
    proof {
        if best is None {
            assert forall|c: int| !earliest_group(joined@, *range, c) by {
                if 0 <= c < joined@.len() {
                    assert(joined@[c].1.possible_types != range.var.possible_types);
                }
            }
        }
    }
    best
}

/// The greedy step for a range, given the earliest group of its type (or
/// that there is none), when no two groups end with the same variable.
proof fn lemma_greedy_step(
    joined: Seq<(usize, RcVar)>,
    merged: Map<u64, RcVar>,
    r: LivenessRange,
    best: Option<usize>,
)
    requires
        match best {
            Some(b) => earliest_group(joined, r, b as int),
            None => forall|c: int| !earliest_group(joined, r, c),
        },
        forall|a: int, c: int|
            0 <= a < joined.len() && 0 <= c < joined.len() && a != c ==> #[trigger] joined[a].1.id
                != #[trigger] joined[c].1.id,
    ensures
        greedy_step((joined, merged), r) == match best {
            Some(b) => if joined[b as int].0 < r.start {
                (
                    joined.update(b as int, (r.end, r.var)),
                    merged.insert(r.var.id, root_of(merged, joined[b as int].1)),
                )
            } else {
                (joined.push((r.end, r.var)), merged)
            },
            None => (joined.push((r.end, r.var)), merged),
        },
{
    reveal(greedy_step);
    match best {
        Some(b) => {
            lemma_earliest_group_unique(joined, r, b as int);
            let c = choose|c: int| earliest_group(joined, r, c);
            assert(earliest_group(joined, r, c));
        },
        None => {},
    }
}

/// When no two groups end with the same variable, the earliest group of a
/// range's type is the only one.
proof fn lemma_earliest_group_unique(joined: Seq<(usize, RcVar)>, r: LivenessRange, b: int)
    requires
        earliest_group(joined, r, b),
        forall|a: int, c: int|
            0 <= a < joined.len() && 0 <= c < joined.len() && a != c ==> #[trigger] joined[a].1.id
                != #[trigger] joined[c].1.id,
    ensures
        forall|c: int| earliest_group(joined, r, c) ==> c == b,
{
    assert forall|c: int| earliest_group(joined, r, c) implies c == b by {
        assert(tail_le(joined[c], joined[b]));
        assert(tail_le(joined[b], joined[c]));
    }
}

#[verifier::spinoff_prover]
fn merge_ranges(rs: &Vec<LivenessRange>) -> (r: BTreeMap<u64, RcVar>)
    requires
        well_formed_ranges(rs@),
    ensures
        r@ == greedy_merge(rs@).1,
        sound_merge(rs@, r@),
{
    let mut merged: BTreeMap<u64, RcVar> = BTreeMap::new();
    // the last range of each group: where it ends and its variable
    let mut joined: Vec<(usize, RcVar)> = Vec::new();
    // for each range its group; for each group its first and its last range
    let ghost mut slot: Seq<int> = Seq::empty();
    let ghost mut first: Seq<int> = Seq::empty();
    let ghost mut last: Seq<int> = Seq::empty();
    let mut k: usize = 0;
    while k < rs.len()
        invariant
            0 <= k <= rs@.len(),
            well_formed_ranges(rs@),
            slot.len() == k,
            joined@ == greedy_merge(rs@.subrange(0, k as int)).0,
            merged@ == greedy_merge(rs@.subrange(0, k as int)).1,
            first.len() == joined@.len(),
            last.len() == joined@.len(),
            merged@.dom().subset_of(range_ids(rs@.subrange(0, k as int))),
            forall|a: int|
                0 <= a < joined@.len() ==> 0 <= #[trigger] first[a] < k && !merged@.contains_key(
                    rs@[first[a]].var.id,
                ),
            forall|a: int, b: int|
                0 <= a < joined@.len() && 0 <= b < joined@.len() && a != b ==> #[trigger] first[a]
                    != #[trigger] first[b],
            forall|a: int|
                0 <= a < joined@.len() ==> 0 <= #[trigger] last[a] < k && rs@[last[a]].var
                    == joined@[a].1 && rs@[last[a]].end == joined@[a].0 && slot[last[a]] == a,
            forall|j: int|
                0 <= j < k ==> 0 <= #[trigger] slot[j] < joined@.len() && root_of(
                    merged@,
                    rs@[j].var,
                ) == rs@[first[slot[j]]].var && rs@[j].end <= joined@[slot[j]].0
                    && rs@[first[slot[j]]].var.possible_types == rs@[j].var.possible_types,
            forall|i: int, j: int|
                0 <= i < k && 0 <= j < k && i != j && slot[i] == slot[j] ==> disjoint(
                    #[trigger] rs@[i],
                    #[trigger] rs@[j],
                ),
        decreases rs@.len() - k,
    {
        let range = rs[k];
        let best = find_earliest_group(&joined, &range);
        proof {
            assert(rs@.subrange(0, k + 1).drop_last() =~= rs@.subrange(0, k as int));
            assert(rs@.subrange(0, k + 1).last() == range);
            // no two groups end with the same variable
            assert forall|a: int, c: int|
                0 <= a < joined@.len() && 0 <= c < joined@.len() && a != c
                    implies #[trigger] joined@[a].1.id != #[trigger] joined@[c].1.id by {
                let la = last[a];
                let lc = last[c];
                assert(slot[la] == a && slot[lc] == c);
                assert(rs@[la].var.id != rs@[lc].var.id);
            }
            lemma_greedy_step(joined@, merged@, range, best);
        }
        let ghost old_merged = merged@;
        let ghost old_joined = joined@;
        let ghost old_slot = slot;
        let ghost old_first = first;
        let ghost old_last = last;
        proof {
            assert(!merged@.contains_key(range.var.id)) by {
                if range_ids(rs@.subrange(0, k as int)).contains(range.var.id) {
                    let s = rs@.subrange(0, k as int).map_values(|r: LivenessRange| r.var.id);
                    let i = choose|i: int| 0 <= i < s.len() && s[i] == range.var.id;
                    assert(rs@[i].var.id == rs@[k as int].var.id);
                }
            }
            assert(rs@.subrange(0, k + 1).map_values(|r: LivenessRange| r.var.id)
                =~= rs@.subrange(0, k as int).map_values(|r: LivenessRange| r.var.id).push(range.var.id));
            rs@.subrange(0, k as int).map_values(|r: LivenessRange| r.var.id).lemma_push_to_set_commute(range.var.id);
        }
        let mut joins = false;
        match best {
            Some(b) => {
                let (best_end, best_var) = joined[b];
                if best_end < range.start {
                    joins = true;
                    let root = match merged.get(&best_var.id) {
                        Some(v) => *v,
                        None => best_var,
                    };
                    proof {
                        let lb = last[b as int];
                        assert(rs@[lb].var == best_var);
                        assert(root == rs@[first[b as int]].var);
                    }
                    merged.insert(range.var.id, root);
                    joined.set(b, (range.end, range.var));
                    proof {
                        slot = slot.push(b as int);
                        last = last.update(b as int, k as int);
                        let lb = old_last[b as int];
                        assert forall|j: int| 0 <= j < k + 1 implies 0 <= #[trigger] slot[j] < joined@.len() && root_of(
                            merged@,
                            rs@[j].var,
                        ) == rs@[first[slot[j]]].var && rs@[j].end <= joined@[slot[j]].0
                            && rs@[first[slot[j]]].var.possible_types == rs@[j].var.possible_types by {
                            if j < k {
                                assert(rs@[j].var.id != range.var.id);
                                assert(old_slot[j] == slot[j]);
                            } else {
                                assert(rs@[lb].var == best_var);
                            }
                        }
                        assert forall|i: int, j: int|
                            0 <= i < k + 1 && 0 <= j < k + 1 && i != j && slot[i] == slot[j] implies disjoint(
                            #[trigger] rs@[i],
                            #[trigger] rs@[j],
                        ) by {
                            if i < k && j < k {
                                assert(old_slot[i] == slot[i] && old_slot[j] == slot[j]);
                            } else if i < k {
                                assert(rs@[i].end <= old_joined[b as int].0);
                            } else {
                                assert(rs@[j].end <= old_joined[b as int].0);
                            }
                        }
                        assert forall|a: int| 0 <= a < joined@.len() implies 0 <= #[trigger] first[a] < k + 1 && !merged@.contains_key(
                            rs@[first[a]].var.id,
                        ) by {
                            assert(rs@[first[a]].var.id != range.var.id);
                        }
                    }
                }
            },
            None => {},
        }
        if !joins {
            joined.push((range.end, range.var));
            proof {
                slot = slot.push(old_joined.len() as int);
                first = first.push(k as int);
                last = last.push(k as int);
                assert forall|j: int| 0 <= j < k + 1 implies 0 <= #[trigger] slot[j] < joined@.len() && root_of(
                    merged@,
                    rs@[j].var,
                ) == rs@[first[slot[j]]].var && rs@[j].end <= joined@[slot[j]].0
                    && rs@[first[slot[j]]].var.possible_types == rs@[j].var.possible_types by {
                    if j < k {
                        assert(old_slot[j] == slot[j]);
                    }
                }
                assert forall|i: int, j: int|
                    0 <= i < k + 1 && 0 <= j < k + 1 && i != j && slot[i] == slot[j] implies disjoint(
                    #[trigger] rs@[i],
                    #[trigger] rs@[j],
                ) by {
                    if i < k && j < k {
                        assert(old_slot[i] == slot[i] && old_slot[j] == slot[j]);
                    }
                }
            }
        }
        k = k + 1;
    }
    proof {
        assert(rs@.subrange(0, rs@.len() as int) =~= rs@);
        assert forall|j: int| 0 <= j < rs@.len() implies {
            let root = #[trigger] root_of(merged@, rs@[j].var);
            &&& root.possible_types == rs@[j].var.possible_types
            &&& !merged@.contains_key(root.id)
            &&& exists|r: int| 0 <= r < rs@.len() && rs@[r].var == root
        } by {
            assert(slot[j] < joined@.len());
            let f = first[slot[j]];
            assert(rs@[f].var == root_of(merged@, rs@[j].var));
        }
        assert forall|i: int, j: int|
            0 <= i < rs@.len() && 0 <= j < rs@.len() && i != j && root_of(merged@, rs@[i].var) == root_of(
            merged@,
            rs@[j].var,
        ) implies disjoint(#[trigger] rs@[i], #[trigger] rs@[j]) by {
            assert(slot[i] < joined@.len() && slot[j] < joined@.len());
            assert(rs@[first[slot[i]]].var == rs@[first[slot[j]]].var);
            assert(first[slot[i]] == first[slot[j]]);
        }

    }
    merged
}

/// `rs` holds the range of every variable of `events` that has one, once.
pub open spec fn ranges_of_events(events: Seq<LiveRangeEvent>, rs: Seq<LivenessRange>) -> bool {
    &&& well_formed_ranges(rs)
    &&& forall|j: int|
        0 <= j < rs.len() ==> event_var(events, #[trigger] rs[j].var) && live_range(
            events,
            rs[j].var,
        ) == Some((rs[j].start as int, rs[j].end as int))
    &&& forall|v: RcVar|
        event_var(events, v) && (#[trigger] live_range(events, v)) is Some ==> exists|j: int|
            0 <= j < rs.len() && rs[j].var == v
}

proof fn lemma_merge_keys(
    events: Seq<LiveRangeEvent>,
    rs: Seq<LivenessRange>,
    ss: Seq<LivenessRange>,
    m: Map<u64, RcVar>,
)
    requires
        ranges_of_events(events, rs),
        forall|x: LivenessRange| ss.contains(x) <==> rs.contains(x),
        sound_merge(ss, m),
    ensures
        forall|id: u64|
            #[trigger] m.contains_key(id) ==> exists|v: RcVar|
                event_var(events, v) && v.id == id && (#[trigger] live_range(events, v)) is Some,
{
    assert forall|id: u64| #[trigger] m.contains_key(id) implies exists|v: RcVar|
        event_var(events, v) && v.id == id && (#[trigger] live_range(events, v)) is Some by {
        assert(range_ids(ss).contains(id));
        let ids = ss.map_values(|r: LivenessRange| r.var.id);
        let j = choose|j: int| 0 <= j < ids.len() && ids[j] == id;
        assert(ss.contains(ss[j]));
        let p = choose|p: int| 0 <= p < rs.len() && rs[p] == ss[j];
        assert(event_var(events, rs[p].var));
    }
}

proof fn lemma_merge_roots(
    events: Seq<LiveRangeEvent>,
    rs: Seq<LivenessRange>,
    ss: Seq<LivenessRange>,
    m: Map<u64, RcVar>,
)
    requires
        ranges_of_events(events, rs),
        forall|x: LivenessRange| ss.contains(x) <==> rs.contains(x),
        sound_merge(ss, m),
    ensures
        forall|v: RcVar|
            event_var(events, v) && (#[trigger] live_range(events, v)) is Some ==> {
                let root = root_of(m, v);
                &&& root.possible_types == v.possible_types
                &&& !m.contains_key(root.id)
                &&& event_var(events, root)
                &&& live_range(events, root) is Some
            },
{
    assert forall|v: RcVar| event_var(events, v) && (#[trigger] live_range(events, v)) is Some implies {
        let root = root_of(m, v);
        &&& root.possible_types == v.possible_types
        &&& !m.contains_key(root.id)
        &&& event_var(events, root)
        &&& live_range(events, root) is Some
    } by {
        let p = choose|p: int| 0 <= p < rs.len() && rs[p].var == v;
        assert(rs.contains(rs[p]));
        let j = choose|j: int| 0 <= j < ss.len() && ss[j] == rs[p];
        let root = root_of(m, ss[j].var);
        let r = choose|r: int| 0 <= r < ss.len() && ss[r].var == root;
        assert(ss.contains(ss[r]));
        let q = choose|q: int| 0 <= q < rs.len() && rs[q] == ss[r];
        assert(event_var(events, rs[q].var));
    }
}

proof fn lemma_merge_disjoint(
    events: Seq<LiveRangeEvent>,
    rs: Seq<LivenessRange>,
    ss: Seq<LivenessRange>,
    m: Map<u64, RcVar>,
)
    requires
        ranges_of_events(events, rs),
        forall|x: LivenessRange| ss.contains(x) <==> rs.contains(x),
        sound_merge(ss, m),
    ensures
        forall|a: RcVar, b: RcVar|
            event_var(events, a) && event_var(events, b) && (#[trigger] live_range(events, a)) is Some
                && (#[trigger] live_range(events, b)) is Some && a.id != b.id && root_of(m, a)
                == root_of(m, b) ==> ranges_disjoint(
                live_range(events, a).unwrap(),
                live_range(events, b).unwrap(),
            ),
{
    assert forall|a: RcVar, b: RcVar|
        event_var(events, a) && event_var(events, b) && (#[trigger] live_range(events, a)) is Some
            && (#[trigger] live_range(events, b)) is Some && a.id != b.id && root_of(m, a)
            == root_of(m, b) implies ranges_disjoint(
            live_range(events, a).unwrap(),
            live_range(events, b).unwrap(),
        ) by {
        let pa = choose|p: int| 0 <= p < rs.len() && rs[p].var == a;
        let pb = choose|p: int| 0 <= p < rs.len() && rs[p].var == b;
        assert(rs.contains(rs[pa]));
        assert(rs.contains(rs[pb]));
        let ja = choose|j: int| 0 <= j < ss.len() && ss[j] == rs[pa];
        let jb = choose|j: int| 0 <= j < ss.len() && ss[j] == rs[pb];
        assert(disjoint(ss[ja], ss[jb]));
    }
}

/// Two sequences of well-formed ranges, both in order, that hold the same
/// ranges are equal.
proof fn lemma_sorted_ranges_unique(s1: Seq<LivenessRange>, s2: Seq<LivenessRange>)
    requires
        well_formed_ranges(s1),
        well_formed_ranges(s2),
        sorted_ranges(s1),
        sorted_ranges(s2),
        forall|x: LivenessRange| s1.contains(x) <==> s2.contains(x),
    ensures
        s1 == s2,
    decreases s1.len(),
{
    if s1.len() == 0 {
        if s2.len() > 0 {
            assert(s2.contains(s2[0]));
        }
        assert(s1 =~= s2);
    } else if s2.len() == 0 {
        assert(s1.contains(s1[0]));
    } else {
        // the first ranges are each the least of the same ranges
        assert(s1.contains(s1[0]));
        assert(s2.contains(s2[0]));
        let p = choose|p: int| 0 <= p < s1.len() && s1[p] == s2[0];
        let q = choose|q: int| 0 <= q < s2.len() && s2[q] == s1[0];
        if p != 0 {
            assert(range_le(s1[0], s1[p]));
        }
        if q != 0 {
            assert(range_le(s2[0], s2[q]));
        }
        if p != 0 {
            assert(s1[0].var.id != s1[p].var.id);
        }
        assert(s1[0] == s2[0]);
        let t1 = s1.drop_first();
        let t2 = s2.drop_first();
        assert forall|x: LivenessRange| t1.contains(x) <==> t2.contains(x) by {
            if t1.contains(x) {
                let i = choose|i: int| 0 <= i < t1.len() && t1[i] == x;
                assert(s1[i + 1] == x);
                assert(s1[0].var.id != s1[i + 1].var.id);
                assert(s2.contains(x));
                let j = choose|j: int| 0 <= j < s2.len() && s2[j] == x;
                assert(j != 0);
                assert(t2[j - 1] == x);
            }
            if t2.contains(x) {
                let i = choose|i: int| 0 <= i < t2.len() && t2[i] == x;
                assert(s2[i + 1] == x);
                assert(s2[0].var.id != s2[i + 1].var.id);
                assert(s1.contains(x));
                let j = choose|j: int| 0 <= j < s1.len() && s1[j] == x;
                assert(j != 0);
                assert(t1[j - 1] == x);
            }
        }
        assert forall|i: int, j: int|
            0 <= i < t1.len() && 0 <= j < t1.len() && i != j implies #[trigger] t1[i].var.id
            != #[trigger] t1[j].var.id by {
            assert(s1[i + 1].var.id != s1[j + 1].var.id);
        }
        assert forall|i: int| 0 <= i < t1.len() implies #[trigger] t1[i].start <= t1[i].end by {
            assert(s1[i + 1].start <= s1[i + 1].end);
        }
        assert forall|i: int, j: int| 0 <= i < j < t1.len() implies range_le(
            #[trigger] t1[i],
            #[trigger] t1[j],
        ) by {
            assert(range_le(s1[i + 1], s1[j + 1]));
        }
        assert forall|i: int, j: int|
            0 <= i < t2.len() && 0 <= j < t2.len() && i != j implies #[trigger] t2[i].var.id
            != #[trigger] t2[j].var.id by {
            assert(s2[i + 1].var.id != s2[j + 1].var.id);
        }
        assert forall|i: int| 0 <= i < t2.len() implies #[trigger] t2[i].start <= t2[i].end by {
            assert(s2[i + 1].start <= s2[i + 1].end);
        }
        assert forall|i: int, j: int| 0 <= i < j < t2.len() implies range_le(
            #[trigger] t2[i],
            #[trigger] t2[j],
        ) by {
            assert(range_le(s2[i + 1], s2[j + 1]));
        }
        lemma_sorted_ranges_unique(t1, t2);
        assert forall|i: int| 0 <= i < s1.len() implies s1[i] == s2[i] by {
            if i > 0 {
                assert(s1[i] == t1[i - 1]);
                assert(s2[i] == t2[i - 1]);
            }
        }
        assert(s1 =~= s2);
    }
}

/// Two sequences that each hold the range of every variable of `events`
/// once hold the same ranges.
proof fn lemma_ranges_of_events_same(
    events: Seq<LiveRangeEvent>,
    s1: Seq<LivenessRange>,
    s2: Seq<LivenessRange>,
)
    requires
        ranges_of_events(events, s1),
        ranges_of_events(events, s2),
    ensures
        forall|x: LivenessRange| s1.contains(x) <==> s2.contains(x),
{
    assert forall|x: LivenessRange| s1.contains(x) implies s2.contains(x) by {
        let i = choose|i: int| 0 <= i < s1.len() && s1[i] == x;
        assert(event_var(events, s1[i].var));
        assert(live_range(events, s1[i].var) is Some);
        let j = choose|j: int| 0 <= j < s2.len() && s2[j].var == x.var;
        assert(s2[j] == x);
    }
    assert forall|x: LivenessRange| s2.contains(x) implies s1.contains(x) by {
        let i = choose|i: int| 0 <= i < s2.len() && s2[i] == x;
        assert(event_var(events, s2[i].var));
        assert(live_range(events, s2[i].var) is Some);
        let j = choose|j: int| 0 <= j < s1.len() && s1[j].var == x.var;
        assert(s1[j] == x);
    }
}

/// The ranges of the variables of `events`, in order of start, end and
/// identity.
pub open spec fn sorted_event_ranges(events: Seq<LiveRangeEvent>) -> Seq<LivenessRange> {
    choose|s: Seq<LivenessRange>| ranges_of_events(events, s) && sorted_ranges(s)
}

/// The merges that the greedy merge of the ranges of `events`, taken in
/// order, gives.
pub open spec fn merges_of_events(events: Seq<LiveRangeEvent>) -> Map<u64, RcVar> {
    greedy_merge(sorted_event_ranges(events)).1
}

/// Two liveness ranges do not overlap.
pub open spec fn ranges_disjoint(a: (int, int), b: (int, int)) -> bool {
    a.1 < b.0 || b.1 < a.0
}

/// Merging the variables of `events` as `m` says is sound: only variables
/// that die somewhere are merged; each variable with a range is merged into
/// one (itself when it is not merged) that has a range, has the same type
/// and is not merged itself; and two variables merged into one have ranges
/// that do not overlap.
pub open spec fn merge_is_sound(events: Seq<LiveRangeEvent>, m: Map<u64, RcVar>) -> bool {
    &&& forall|id: u64|
        #[trigger] m.contains_key(id) ==> exists|v: RcVar|
            event_var(events, v) && v.id == id && (#[trigger] live_range(events, v)) is Some
    &&& forall|v: RcVar|
        event_var(events, v) && (#[trigger] live_range(events, v)) is Some ==> {
            let root = root_of(m, v);
            &&& root.possible_types == v.possible_types
            &&& !m.contains_key(root.id)
            &&& event_var(events, root)
            &&& live_range(events, root) is Some
        }
    &&& forall|a: RcVar, b: RcVar|
        event_var(events, a) && event_var(events, b) && (#[trigger] live_range(events, a)) is Some
            && (#[trigger] live_range(events, b)) is Some && a.id != b.id && root_of(m, a)
            == root_of(m, b) ==> ranges_disjoint(
            live_range(events, a).unwrap(),
            live_range(events, b).unwrap(),
        )
}

/// Decides which variables to merge, from the liveness events of a step:
/// variables of the same type share a local when their ranges do not overlap.
/// The ranges are taken in order of start, end and identity; each joins the
/// group of its type whose last range ends earliest, when that range ends
/// before it starts, and otherwise starts a group. The result maps each merged
/// variable's identity to the variable that it is merged into.
pub fn build_merges_from_events(events: &[LiveRangeEvent]) -> (merged: BTreeMap<u64, RcVar>)
    requires
        consistent_vars(events@),
    ensures
        merged@ == merges_of_events(events@),
        merge_is_sound(events@, merged@),
        merges_are_final(merged@),
{
    let ranges = liveness_ranges(events);
    let ghost rs = ranges@;
    let sorted = sort_ranges(ranges);
    proof {
        lemma_sorted_same_ranges(rs, sorted@);
        let ss = sorted@;
        assert forall|j: int| 0 <= j < ss.len() implies event_var(events@, #[trigger] ss[j].var)
            && live_range(events@, ss[j].var) == Some((ss[j].start as int, ss[j].end as int)) by {
            assert(ss.contains(ss[j]));
            let p = choose|p: int| 0 <= p < rs.len() && rs[p] == ss[j];
        }
        assert forall|v: RcVar| event_var(events@, v) && (#[trigger] live_range(events@, v)) is Some
            implies exists|j: int| 0 <= j < ss.len() && ss[j].var == v by {
            let p = choose|p: int| 0 <= p < rs.len() && rs[p].var == v;
            assert(rs.contains(rs[p]));
            let j = choose|j: int| 0 <= j < ss.len() && ss[j] == rs[p];
        }
        assert(ranges_of_events(events@, ss));
        let chosen = sorted_event_ranges(events@);
        assert(ranges_of_events(events@, chosen) && sorted_ranges(chosen));
        lemma_ranges_of_events_same(events@, chosen, ss);
        lemma_sorted_ranges_unique(chosen, ss);
    }
    let merged = merge_ranges(&sorted);
    proof {
        lemma_merge_keys(events@, rs, sorted@, merged@);
        lemma_merge_roots(events@, rs, sorted@, merged@);
        lemma_merge_disjoint(events@, rs, sorted@, merged@);
        let m = merged@;
        assert forall|k: u64| m.contains_key(k) implies !m.contains_key(#[trigger] m[k].id) by {
            let v = choose|v: RcVar|
                event_var(events@, v) && v.id == k && (#[trigger] live_range(events@, v)) is Some;
            assert(root_of(m, v) == m[k]);
        }
    }
    merged
}

/// `new` is `old` with every variable access renamed by `m`.
pub open spec fn renamed_opcode(old: IrOpcode, new: IrOpcode, m: Map<u64, RcVar>) -> bool
    decreases old,
{
    match (old, new) {
        (
            IrOpcode::DataSetvariableto { var, local_write, first_write },
            IrOpcode::DataSetvariableto { var: v2, local_write: l2, first_write: f2 },
        ) => v2 == root_of(m, var) && l2 == local_write && f2 == first_write,
        (
            IrOpcode::DataVariable { var, local_read },
            IrOpcode::DataVariable { var: v2, local_read: l2 },
        ) => v2 == root_of(m, var) && l2 == local_read,
        (
            IrOpcode::DataTeevariable { var, local_read_write },
            IrOpcode::DataTeevariable { var: v2, local_read_write: l2 },
        ) => v2 == root_of(m, var) && l2 == local_read_write,
        (IrOpcode::HqYieldInline { step }, IrOpcode::HqYieldInline { step: s2 }) => renamed_step(
            step,
            s2,
            m,
        ),
        (
            IrOpcode::ControlIfElse { branch_if, branch_else },
            IrOpcode::ControlIfElse { branch_if: i2, branch_else: e2 },
        ) => renamed_step(branch_if, i2, m) && renamed_step(branch_else, e2, m),
        (
            IrOpcode::ControlLoop { condition, first_condition, body, pre_body, flip_if },
            IrOpcode::ControlLoop {
                condition: c2,
                first_condition: fc2,
                body: b2,
                pre_body: pb2,
                flip_if: f2,
            },
        ) => flip_if == f2 && renamed_step(condition, c2, m) && renamed_step(body, b2, m) && match (
            first_condition,
            fc2,
        ) {
            (Some(a), Some(b)) => renamed_step(a, b, m),
            (None, None) => true,
            _ => false,
        } && match (pre_body, pb2) {
            (Some(a), Some(b)) => renamed_step(a, b, m),
            (None, None) => true,
            _ => false,
        },
        (IrOpcode::OperatorNot, IrOpcode::OperatorNot) => true,
        (IrOpcode::HqYield { mode }, IrOpcode::HqYield { mode: m2 }) => mode == m2,
        (IrOpcode::ProceduresCallNonwarp, IrOpcode::ProceduresCallNonwarp) => true,
        (IrOpcode::Other { code }, IrOpcode::Other { code: c2 }) => code == c2,
        (
            IrOpcode::ProceduresArgument { index, arg_var },
            IrOpcode::ProceduresArgument { index: i2, arg_var: a2 },
        ) => index == i2 && arg_var == a2,
        _ => false,
    }
}

/// `new` is `old` with every variable access, here and in nested steps,
/// renamed by `m`.
pub open spec fn renamed_step(old: Step, new: Step, m: Map<u64, RcVar>) -> bool
    decreases old,
{
    &&& new.opcodes@.len() == old.opcodes@.len()
    &&& forall|i: int|
        0 <= i < old.opcodes@.len() ==> renamed_opcode(
            #[trigger] old.opcodes@[i],
            new.opcodes@[i],
            m,
        )
}

/// No variable is merged into one that is itself merged.
pub open spec fn merges_are_final(m: Map<u64, RcVar>) -> bool {
    forall|k: u64| m.contains_key(k) ==> !m.contains_key(#[trigger] m[k].id)
}

/// Renaming an opcode a second time by the same final merges gives it back.
proof fn lemma_opcode_renamed_again(old: IrOpcode, new: IrOpcode, m: Map<u64, RcVar>)
    requires
        renamed_opcode(old, new, m),
        merges_are_final(m),
    ensures
        renamed_opcode(new, new, m),
    decreases old,
{
    match (old, new) {
        (IrOpcode::HqYieldInline { step }, IrOpcode::HqYieldInline { step: s2 }) => {
            law_renaming_twice_changes_nothing(step, s2, m);
        },
        (
            IrOpcode::ControlIfElse { branch_if, branch_else },
            IrOpcode::ControlIfElse { branch_if: i2, branch_else: e2 },
        ) => {
            law_renaming_twice_changes_nothing(branch_if, i2, m);
            law_renaming_twice_changes_nothing(branch_else, e2, m);
        },
        (
            IrOpcode::ControlLoop { condition, first_condition, body, pre_body, .. },
            IrOpcode::ControlLoop {
                condition: c2,
                first_condition: fc2,
                body: b2,
                pre_body: pb2,
                ..
            },
        ) => {
            law_renaming_twice_changes_nothing(condition, c2, m);
            law_renaming_twice_changes_nothing(body, b2, m);
            match (first_condition, fc2) {
                (Some(a), Some(b)) => law_renaming_twice_changes_nothing(a, b, m),
                _ => {},
            }
            match (pre_body, pb2) {
                (Some(a), Some(b)) => law_renaming_twice_changes_nothing(a, b, m),
                _ => {},
            }
        },
        _ => {},
    }
}

/// Renaming a step a second time by the same merges changes nothing, when no
/// variable is merged into one that is itself merged: the renamed step is
/// its own renaming.
pub proof fn law_renaming_twice_changes_nothing(old: Step, new: Step, m: Map<u64, RcVar>)
    requires
        renamed_step(old, new, m),
        merges_are_final(m),
    ensures
        renamed_step(new, new, m),
    decreases old,
{
    assert forall|i: int| 0 <= i < new.opcodes@.len() implies renamed_opcode(
        #[trigger] new.opcodes@[i],
        new.opcodes@[i],
        m,
    ) by {
        assert(renamed_opcode(old.opcodes@[i], new.opcodes@[i], m));
        assert(decreases_to!(old => old.opcodes));
        lemma_opcode_renamed_again(old.opcodes@[i], new.opcodes@[i], m);
    }
}

/// `a` and `b` hold the same opcodes, nested steps included: `b` is `a`
/// renamed by no merges.
pub open spec fn same_step(a: Step, b: Step) -> bool {
    renamed_step(a, b, Map::empty())
}

/// Renaming an opcode that its renaming leaves as it is gives the same
/// opcode.
proof fn lemma_fixed_opcode_renamed(a: IrOpcode, c: IrOpcode, m: Map<u64, RcVar>)
    requires
        renamed_opcode(a, a, m),
        renamed_opcode(a, c, m),
    ensures
        renamed_opcode(a, c, Map::empty()),
    decreases a,
{
    match (a, c) {
        (IrOpcode::HqYieldInline { step }, IrOpcode::HqYieldInline { step: s2 }) => {
            lemma_fixed_step_renamed(step, s2, m);
        },
        (
            IrOpcode::ControlIfElse { branch_if, branch_else },
            IrOpcode::ControlIfElse { branch_if: i2, branch_else: e2 },
        ) => {
            lemma_fixed_step_renamed(branch_if, i2, m);
            lemma_fixed_step_renamed(branch_else, e2, m);
        },
        (
            IrOpcode::ControlLoop { condition, first_condition, body, pre_body, .. },
            IrOpcode::ControlLoop {
                condition: c2,
                first_condition: fc2,
                body: b2,
                pre_body: pb2,
                ..
            },
        ) => {
            lemma_fixed_step_renamed(condition, c2, m);
            lemma_fixed_step_renamed(body, b2, m);
            match (first_condition, fc2) {
                (Some(x), Some(y)) => lemma_fixed_step_renamed(x, y, m),
                _ => {},
            }
            match (pre_body, pb2) {
                (Some(x), Some(y)) => lemma_fixed_step_renamed(x, y, m),
                _ => {},
            }
        },
        _ => {},
    }
}

/// Renaming a step that its renaming leaves as it is gives the same step.
proof fn lemma_fixed_step_renamed(a: Step, c: Step, m: Map<u64, RcVar>)
    requires
        renamed_step(a, a, m),
        renamed_step(a, c, m),
    ensures
        renamed_step(a, c, Map::empty()),
    decreases a,
{
    assert forall|i: int| 0 <= i < a.opcodes@.len() implies renamed_opcode(
        #[trigger] a.opcodes@[i],
        c.opcodes@[i],
        Map::empty(),
    ) by {
        assert(renamed_opcode(a.opcodes@[i], a.opcodes@[i], m));
        assert(renamed_opcode(a.opcodes@[i], c.opcodes@[i], m));
        assert(decreases_to!(a => a.opcodes));
        lemma_fixed_opcode_renamed(a.opcodes@[i], c.opcodes@[i], m);
    }
}

/// Merging a step's variables a second time by the same merges, when no
/// variable is merged into one that is itself merged, gives the same step:
/// if `new` is `old` renamed and `newer` is `new` renamed (two calls of
/// [`merge_variables_in_step`] with the same merges), `newer` holds the same
/// opcodes as `new`.
pub proof fn law_merging_twice_gives_the_same_step(
    old: Step,
    new: Step,
    newer: Step,
    m: Map<u64, RcVar>,
)
    requires
        renamed_step(old, new, m),
        renamed_step(new, newer, m),
        merges_are_final(m),
    ensures
        same_step(new, newer),
{
    law_renaming_twice_changes_nothing(old, new, m);
    lemma_fixed_step_renamed(new, newer, m);
}

/// The variable that `var` is merged into.
fn merged_var(var: &RcVar, merges: &BTreeMap<u64, RcVar>) -> (r: RcVar)
    ensures
        r == root_of(merges@, *var),
{
    match merges.get(&var.id) {
        Some(v) => *v,
        None => *var,
    }
}

/// A copy of `op` with its variable accesses renamed by `merges`.
fn rename_opcode(op: &IrOpcode, merges: &BTreeMap<u64, RcVar>) -> (r: IrOpcode)
    ensures
        renamed_opcode(*op, r, merges@),
    decreases op, 0int,
{
    match op {
        IrOpcode::DataSetvariableto { var, local_write, first_write } => {
            IrOpcode::DataSetvariableto {
                var: merged_var(var, merges),
                local_write: *local_write,
                first_write: *first_write,
            }
        },
        IrOpcode::DataVariable { var, local_read } => {
            IrOpcode::DataVariable { var: merged_var(var, merges), local_read: *local_read }
        },
        IrOpcode::DataTeevariable { var, local_read_write } => {
            IrOpcode::DataTeevariable {
                var: merged_var(var, merges),
                local_read_write: *local_read_write,
            }
        },
        IrOpcode::HqYieldInline { step } => {
            IrOpcode::HqYieldInline { step: rename_step(step, merges) }
        },
        IrOpcode::ControlIfElse { branch_if, branch_else } => {
            IrOpcode::ControlIfElse {
                branch_if: rename_step(branch_if, merges),
                branch_else: rename_step(branch_else, merges),
            }
        },
        IrOpcode::ControlLoop { condition, first_condition, body, pre_body, flip_if } => {
            let fc = match first_condition {
                Some(s) => Some(rename_step(s, merges)),
                None => None,
            };
            let pb = match pre_body {
                Some(s) => Some(rename_step(s, merges)),
                None => None,
            };
            IrOpcode::ControlLoop {
                condition: rename_step(condition, merges),
                first_condition: fc,
                body: rename_step(body, merges),
                pre_body: pb,
                flip_if: *flip_if,
            }
        },
        IrOpcode::OperatorNot => IrOpcode::OperatorNot,
        IrOpcode::HqYield { mode } => IrOpcode::HqYield { mode: *mode },
        IrOpcode::ProceduresCallNonwarp => IrOpcode::ProceduresCallNonwarp,
        IrOpcode::Other { code } => IrOpcode::Other { code: *code },
        IrOpcode::ProceduresArgument { index, arg_var } => IrOpcode::ProceduresArgument {
            index: *index,
            arg_var: *arg_var,
        },
    }
}

/// A copy of `step` with its variable accesses renamed by `merges`.
fn rename_step(step: &Step, merges: &BTreeMap<u64, RcVar>) -> (r: Step)
    ensures
        renamed_step(*step, r, merges@),
    decreases step, 1int,
{
    let mut opcodes: Vec<IrOpcode> = Vec::new();
    let mut i: usize = 0;
    while i < step.opcodes.len()
        invariant
            i <= step.opcodes@.len(),
            opcodes@.len() == i,
            forall|j: int|
                0 <= j < i ==> renamed_opcode(#[trigger] step.opcodes@[j], opcodes@[j], merges@),
        decreases step.opcodes@.len() - i,
    {
        proof {
            assert(decreases_to!(*step => step.opcodes));
        }
        let op = rename_opcode(&step.opcodes[i], merges);
        opcodes.push(op);
        i = i + 1;
    }
    Step { opcodes }
}

/// Replaces the variable accesses of a step, and of its nested steps, by the
/// variables that they are merged into.
pub fn merge_variables_in_step(step: &mut Step, merges: &BTreeMap<u64, RcVar>)
    ensures
        renamed_step(*old(step), *final(step), merges@),
{
    let renamed = rename_step(step, merges);
    *step = renamed;
}

/// Variables of one identity are one variable.
pub open spec fn consistent_set(s: Set<RcVar>) -> bool {
    forall|a: RcVar, b: RcVar| s.contains(a) && s.contains(b) && a.id == b.id ==> a == b
}

/// The state at the start of the walk through a step: nothing is live or
/// killed, there are no events, and there is no enclosing loop.
pub open spec fn walk_start() -> WalkState {
    WalkState {
        live: Set::empty(),
        kills: Set::empty(),
        events: Seq::empty(),
        reads: None,
        writes: None,
    }
}

/// The liveness events of a step's local variables, from the backwards walk
/// through it.
pub open spec fn step_events(step: Step) -> Seq<LiveRangeEvent> {
    walk_step(step, walk_start()).events
}

/// `new` is `old` with its local variables merged: `new` renames `old` by
/// the greedy merge of the ranges that its liveness events give, and that
/// merge is sound.
pub open spec fn step_merged(old: Step, new: Step) -> bool {
    let events = step_events(old);
    &&& merge_is_sound(events, merges_of_events(events))
    &&& renamed_step(old, new, merges_of_events(events))
}

/// Merges local variables of the same type whose usage does not overlap, in
/// each step. This keeps the number of locals of the generated module down.
/// Liveness is read from the first-write marks of variable writes, so the
/// pass belongs after the SSA pass.
pub fn merge_variables(proj: &mut IrProject)
    requires
        forall|i: int|
            0 <= i < old(proj).steps@.len() ==> consistent_set(
                #[trigger] step_local_vars(old(proj).steps@[i]),
            ),
    ensures
        final(proj).steps@.len() == old(proj).steps@.len(),
        forall|i: int|
            0 <= i < old(proj).steps@.len() ==> step_merged(
                #[trigger] old(proj).steps@[i],
                final(proj).steps@[i],
            ),
{
    let ghost old_steps = proj.steps@;
    let mut i: usize = 0;
    while i < proj.steps.len()
        invariant
            i <= proj.steps@.len(),
            proj.steps@.len() == old_steps.len(),
            forall|j: int| 0 <= j < old_steps.len() ==> consistent_set(
                #[trigger] step_local_vars(old_steps[j]),
            ),
            forall|j: int| i <= j < old_steps.len() ==> proj.steps@[j] == old_steps[j],
            forall|j: int| 0 <= j < i ==> step_merged(#[trigger] old_steps[j], proj.steps@[j]),
        decreases proj.steps@.len() - i,
    {
        let mut events: Vec<LiveRangeEvent> = Vec::new();
        let mut live = VarSet::new();
        let mut kills = VarSet::new();
        let mut reads: Option<VarSet> = None;
        let mut writes: Option<VarSet> = None;
        build_liveness_events(&proj.steps[i], &mut live, &mut kills, &mut events, &mut reads, &mut writes);
        let ghost l = step_local_vars(old_steps[i as int]);
        proof {
            assert(consistent_set(l));
            assert forall|a: int, b: int|
                0 <= a < events@.len() && 0 <= b < events@.len() && #[trigger] events@[a].var.id
                    == #[trigger] events@[b].var.id implies events@[a].var == events@[b].var by {
                assert(l.contains(events@[a].var));
                assert(l.contains(events@[b].var));
            }
        }
        let merged = build_merges_from_events(&events);
        let renamed = rename_step(&proj.steps[i], &merged);
        let ghost before = proj.steps@;
        proj.steps.set(i, renamed);
        proof {
            assert(Seq::<LiveRangeEvent>::empty() =~= Seq::<LiveRangeEvent>::empty());
            assert(step_merged(old_steps[i as int], proj.steps@[i as int]));
            assert forall|j: int| 0 <= j < i + 1 implies step_merged(#[trigger] old_steps[j], proj.steps@[j]) by {
                if j < i {
                    assert(proj.steps@[j] == before[j]);
                }
            }
        }
        i = i + 1;
    }
}


/// `v` became live at some point of the events.
pub open spec fn born(events: Seq<LiveRangeEvent>, v: RcVar) -> bool {
    exists|i: int|
        0 <= i < events.len() && #[trigger] events[i].var == v && events[i].kind
            == LivenessEvent::BecameLive
}

/// The variables that an opcode reads locally, here or in nested steps,
/// leaving out the condition of a loop that has a first condition (the walk
/// visits the first condition in its place).
pub open spec fn opcode_local_reads(op: IrOpcode) -> Set<RcVar>
    decreases op,
{
    match op {
        IrOpcode::DataVariable { var, local_read } => if local_read {
            set![var]
        } else {
            Set::empty()
        },
        IrOpcode::HqYieldInline { step } => step_local_reads(step),
        IrOpcode::ControlIfElse { branch_if, branch_else } => step_local_reads(branch_if).union(
            step_local_reads(branch_else),
        ),
        IrOpcode::ControlLoop { condition, first_condition, body, pre_body, .. } => {
            let fc = match first_condition {
                Some(s) => step_local_reads(s),
                None => Set::empty(),
            };
            let pb = match pre_body {
                Some(s) => step_local_reads(s),
                None => Set::empty(),
            };
            let c = match first_condition {
                Some(_) => Set::empty(),
                None => step_local_reads(condition),
            };
            c.union(step_local_reads(body)).union(fc).union(pb)
        },
        _ => Set::empty(),
    }
}

/// The variables that some opcodes read locally.
pub open spec fn opcodes_local_reads(ops: Seq<IrOpcode>) -> Set<RcVar>
    decreases ops,
{
    if ops.len() == 0 {
        Set::empty()
    } else {
        opcodes_local_reads(ops.drop_last()).union(opcode_local_reads(ops.last()))
    }
}

/// The variables that a step reads locally, nested steps included.
pub open spec fn step_local_reads(step: Step) -> Set<RcVar>
    decreases step,
{
    opcodes_local_reads(step.opcodes@)
}

/// Every live variable of the walk became live at some recorded point.
pub open spec fn live_are_born(st: WalkState) -> bool {
    forall|v: RcVar| #[trigger] st.live.contains(v) ==> born(st.events, v)
}

/// `b` extends `a`.
pub open spec fn extends_events(a: Seq<LiveRangeEvent>, b: Seq<LiveRangeEvent>) -> bool {
    a.len() <= b.len() && b.subrange(0, a.len() as int) == a
}

proof fn lemma_born_grows(a: Seq<LiveRangeEvent>, b: Seq<LiveRangeEvent>, v: RcVar)
    requires
        born(a, v),
        extends_events(a, b),
    ensures
        born(b, v),
{
    let i = choose|i: int|
        0 <= i < a.len() && #[trigger] a[i].var == v && a[i].kind == LivenessEvent::BecameLive;
    assert(b.subrange(0, a.len() as int)[i] == b[i]);
    assert(b[i].var == v);
}

proof fn lemma_extends_trans(a: Seq<LiveRangeEvent>, b: Seq<LiveRangeEvent>, c: Seq<LiveRangeEvent>)
    requires
        extends_events(a, b),
        extends_events(b, c),
    ensures
        extends_events(a, c),
{
    assert forall|i: int| 0 <= i < a.len() implies c.subrange(0, a.len() as int)[i] == a[i] by {
        assert(c.subrange(0, b.len() as int)[i] == b[i]);
        assert(b.subrange(0, a.len() as int)[i] == a[i]);
    }
    assert(c.subrange(0, a.len() as int) =~= a);
}

proof fn lemma_became_live_born(st: WalkState, var: RcVar)
    requires
        live_are_born(st),
    ensures
        live_are_born(became_live(st, var)),
        extends_events(st.events, became_live(st, var).events),
        born(became_live(st, var).events, var),
{
    let r = became_live(st, var);
    if st.live.contains(var) {
        assert(st.events.subrange(0, st.events.len() as int) =~= st.events);
    } else {
        let n = st.events.len() as int;
        assert(r.events.subrange(0, n) =~= st.events);
        assert(r.events[n].var == var);
        assert forall|v: RcVar| #[trigger] r.live.contains(v) implies born(r.events, v) by {
            if v != var {
                lemma_born_grows(st.events, r.events, v);
            }
        }
    }
}

/// The walk through an opcode keeps every live variable born, only adds
/// events, and makes every variable that the opcode reads locally born.
proof fn lemma_walk_opcode_births(op: IrOpcode, st: WalkState)
    requires
        live_are_born(st),
    ensures
        live_are_born(walk_opcode(op, st)),
        extends_events(st.events, walk_opcode(op, st).events),
        forall|v: RcVar| #[trigger] opcode_local_reads(op).contains(v) ==> born(walk_opcode(op, st).events, v),
    decreases op,
{
    let r = walk_opcode(op, st);
    assert(st.events.subrange(0, st.events.len() as int) =~= st.events);
    match op {
        IrOpcode::DataSetvariableto { var, local_write, first_write } => {
            if local_write {
                if first_write {
                    let n = st.events.len() as int;
                    assert(r.events.subrange(0, n) =~= st.events);
                    assert forall|v: RcVar| #[trigger] r.live.contains(v) implies born(r.events, v) by {
                        lemma_born_grows(st.events, r.events, v);
                    }
                } else {
                    lemma_became_live_born(
                        WalkState { reads: opt_set_remove(st.reads, var), writes: opt_set_insert(st.writes, var), ..st },
                        var,
                    );
                }
            }
        },
        IrOpcode::DataVariable { var, local_read } => {
            if local_read {
                lemma_became_live_born(WalkState { reads: opt_set_insert(st.reads, var), ..st }, var);
                assert forall|v: RcVar| #[trigger] opcode_local_reads(op).contains(v) implies born(r.events, v) by {
                    assert(v == var);
                }
            }
        },
        IrOpcode::DataTeevariable { var, local_read_write } => {
            if local_read_write {
                lemma_became_live_born(
                    WalkState { reads: opt_set_remove(st.reads, var), writes: opt_set_insert(st.writes, var), ..st },
                    var,
                );
            }
        },
        IrOpcode::HqYieldInline { step } => {
            lemma_walk_step_births(step, st);
            assert forall|v: RcVar| #[trigger] opcode_local_reads(op).contains(v) implies born(r.events, v) by {
                assert(step_local_reads(step).contains(v));
            }
        },
        IrOpcode::ControlIfElse { branch_if, branch_else } => {
            lemma_walk_step_births(branch_if, st);
            let si = walk_step(branch_if, st);
            let mid = WalkState { events: si.events, ..st };
            assert forall|v: RcVar| #[trigger] mid.live.contains(v) implies born(mid.events, v) by {
                lemma_born_grows(st.events, si.events, v);
            }
            lemma_walk_step_births(branch_else, mid);
            let se = walk_step(branch_else, mid);
            lemma_extends_trans(st.events, si.events, se.events);
            assert forall|v: RcVar| #[trigger] r.live.contains(v) implies born(r.events, v) by {
                if si.live.contains(v) {
                    lemma_born_grows(si.events, se.events, v);
                }
            }
            assert forall|v: RcVar| #[trigger] opcode_local_reads(op).contains(v) implies born(r.events, v) by {
                if step_local_reads(branch_if).contains(v) {
                    lemma_born_grows(si.events, se.events, v);
                } else {
                    assert(step_local_reads(branch_else).contains(v));
                }
            }
        },
        IrOpcode::ControlLoop { condition, first_condition, body, pre_body, .. } => {
            let s0 = WalkState { reads: Some(Set::empty()), writes: Some(Set::empty()), ..st };
            let s1 = match first_condition {
                Some(_) => s0,
                None => walk_step(condition, s0),
            };
            if first_condition is None {
                lemma_walk_step_births(condition, s0);
            } else {
                assert(s0.events.subrange(0, s0.events.len() as int) =~= s0.events);
            }
            lemma_walk_step_births(body, s1);
            let s2 = walk_step(body, s1);
            let s3 = match pre_body {
                Some(p) => walk_step(p, s2),
                None => s2,
            };
            match pre_body {
                Some(p) => lemma_walk_step_births(p, s2),
                None => {
                    assert(s2.events.subrange(0, s2.events.len() as int) =~= s2.events);
                },
            }
            match first_condition {
                Some(fc) => lemma_walk_step_births(fc, s3),
                None => lemma_walk_step_births(condition, s3),
            }
            let s4 = match first_condition {
                Some(fc) => walk_step(fc, s3),
                None => walk_step(condition, s3),
            };
            lemma_extends_trans(s0.events, s1.events, s2.events);
            lemma_extends_trans(s0.events, s2.events, s3.events);
            lemma_extends_trans(s0.events, s3.events, s4.events);
            lemma_extends_trans(s1.events, s2.events, s3.events);
            lemma_extends_trans(s1.events, s3.events, s4.events);
            lemma_extends_trans(s2.events, s3.events, s4.events);
            let n4 = s4.events.len() as int;
            assert(r.events.subrange(0, n4) =~= s4.events);
            lemma_extends_trans(st.events, s4.events, r.events);
            assert forall|v: RcVar| #[trigger] r.live.contains(v) implies born(r.events, v) by {
                lemma_born_grows(s4.events, r.events, v);
            }
            assert forall|v: RcVar| #[trigger] opcode_local_reads(op).contains(v) implies born(r.events, v) by {
                if first_condition is None && step_local_reads(condition).contains(v) {
                    lemma_born_grows(s1.events, s4.events, v);
                } else if step_local_reads(body).contains(v) {
                    lemma_born_grows(s2.events, s4.events, v);
                } else if pre_body is Some && step_local_reads(pre_body->0).contains(v) {
                    lemma_born_grows(s3.events, s4.events, v);
                } else {
                    match first_condition {
                        Some(fc) => {
                            assert(step_local_reads(fc).contains(v));
                        },
                        None => {
                            assert(step_local_reads(condition).contains(v));
                        },
                    }
                }
                lemma_born_grows(s4.events, r.events, v);
            }
        },
        _ => {},
    }
}

proof fn lemma_walk_opcodes_births(ops: Seq<IrOpcode>, st: WalkState)
    requires
        live_are_born(st),
    ensures
        live_are_born(walk_opcodes(ops, st)),
        extends_events(st.events, walk_opcodes(ops, st).events),
        forall|v: RcVar| #[trigger] opcodes_local_reads(ops).contains(v) ==> born(walk_opcodes(ops, st).events, v),
    decreases ops,
{
    if ops.len() == 0 {
        assert(st.events.subrange(0, st.events.len() as int) =~= st.events);
    } else {
        let mid = walk_opcode(ops.last(), st);
        lemma_walk_opcode_births(ops.last(), st);
        lemma_walk_opcodes_births(ops.drop_last(), mid);
        let r = walk_opcodes(ops.drop_last(), mid);
        lemma_extends_trans(st.events, mid.events, r.events);
        assert forall|v: RcVar| #[trigger] opcodes_local_reads(ops).contains(v) implies born(r.events, v) by {
            if opcode_local_reads(ops.last()).contains(v) {
                lemma_born_grows(mid.events, r.events, v);
            } else {
                assert(opcodes_local_reads(ops.drop_last()).contains(v));
            }
        }
    }
}

proof fn lemma_walk_step_births(step: Step, st: WalkState)
    requires
        live_are_born(st),
    ensures
        live_are_born(walk_step(step, st)),
        extends_events(st.events, walk_step(step, st).events),
        forall|v: RcVar| #[trigger] step_local_reads(step).contains(v) ==> born(walk_step(step, st).events, v),
    decreases step,
{
    lemma_walk_opcodes_births(step.opcodes@, st);
    assert forall|v: RcVar| #[trigger] step_local_reads(step).contains(v) implies born(
        walk_step(step, st).events,
        v,
    ) by {
        assert(opcodes_local_reads(step.opcodes@).contains(v));
    }
}

/// Every variable that a step reads locally, anywhere in it (but in the
/// condition of a loop that has a first condition, which the walk does not
/// visit), is recorded as becoming live: reading a local keeps its value needed back to the write
/// that gave it, so the liveness events of the step, and the live ranges and
/// merges taken from them, account for every local read.
pub proof fn law_every_local_read_becomes_live(step: Step)
    ensures
        forall|v: RcVar| #[trigger] step_local_reads(step).contains(v) ==> born(step_events(step), v),
{
    lemma_walk_step_births(step, walk_start());
}

} // verus!
