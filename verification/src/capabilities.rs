//! Linux capabilities: the operations that leave the process with nothing but
//! `CAP_NET_RAW`, and what they do to the capability sets.

use vstd::prelude::*;

verus! {

/// The number of `CAP_NET_RAW`, the one capability that the container keeps.
pub const CAP_NET_RAW: u8 = 13;

/// A capability set of a thread.
#[derive(Clone, Copy, Debug, PartialEq, Eq, Structural)]
pub enum CapSet {
    Effective,
    Permitted,
    Inheritable,
    Ambient,
}

/// One operation on the capability sets.
#[derive(Clone, Copy, Debug, PartialEq, Eq, Structural)]
pub enum CapOp {
    /// Empties a set.
    Clear(CapSet),
    /// Removes a capability from a set.
    Drop(CapSet, u8),
    /// Adds a capability to a set, unless the set already holds it.
    RaiseIfMissing(CapSet, u8),
}

/// Dropping from the permitted set each capability of `permitted` other than
/// `CAP_NET_RAW`, in order.
pub open spec fn drops(permitted: Seq<u8>) -> Seq<CapOp>
    decreases permitted.len(),
{
    if permitted.len() == 0 {
        Seq::empty()
    } else if permitted.last() == CAP_NET_RAW {
        drops(permitted.drop_last())
    } else {
        drops(permitted.drop_last()).push(CapOp::Drop(CapSet::Permitted, permitted.last()))
    }
}

/// What `capabilities_configure` does, given the capabilities that the
/// permitted set holds: clear the effective and inheritable sets, drop every
/// permitted capability but `CAP_NET_RAW`, then raise `CAP_NET_RAW` in the
/// effective, inheritable and ambient sets where it is missing.
pub open spec fn capability_plan(permitted: Seq<u8>) -> Seq<CapOp> {
    seq![CapOp::Clear(CapSet::Effective), CapOp::Clear(CapSet::Inheritable)] + drops(permitted) + seq![
        CapOp::RaiseIfMissing(CapSet::Effective, CAP_NET_RAW),
        CapOp::RaiseIfMissing(CapSet::Inheritable, CAP_NET_RAW),
        CapOp::RaiseIfMissing(CapSet::Ambient, CAP_NET_RAW),
    ]
}

/// The operations that restrict the process to `CAP_NET_RAW`, given the
/// capabilities that its permitted set holds.
///
/// Clears effective and inheritable capabilities, restricts permitted
/// capabilities to only include `CAP_NET_RAW`, and then raises `CAP_NET_RAW`
/// in the effective, inheritable, and ambient sets.
pub fn capabilities_configure(permitted: &Vec<u8>) -> (res: Vec<CapOp>)
    ensures
        res@ == capability_plan(permitted@),
{
    let mut ops: Vec<CapOp> = Vec::new();
    ops.push(CapOp::Clear(CapSet::Effective));
    ops.push(CapOp::Clear(CapSet::Inheritable));
    let ghost start = ops@;
    let mut i: usize = 0;
    while i < permitted.len()
        invariant
            i <= permitted@.len(),
            start == seq![CapOp::Clear(CapSet::Effective), CapOp::Clear(CapSet::Inheritable)],
            ops@ == start + drops(permitted@.subrange(0, i as int)),
        decreases permitted.len() - i,
    {
        assert(permitted@.subrange(0, i + 1).drop_last() =~= permitted@.subrange(0, i as int));
        let cap = permitted[i];
        if cap != CAP_NET_RAW {
            ops.push(CapOp::Drop(CapSet::Permitted, cap));
        }
        assert(ops@ =~= start + drops(permitted@.subrange(0, i + 1)));
        i = i + 1;
    }
    assert(permitted@.subrange(0, i as int) =~= permitted@);
    ops.push(CapOp::RaiseIfMissing(CapSet::Effective, CAP_NET_RAW));
    ops.push(CapOp::RaiseIfMissing(CapSet::Inheritable, CAP_NET_RAW));
    ops.push(CapOp::RaiseIfMissing(CapSet::Ambient, CAP_NET_RAW));
    assert(ops@ =~= capability_plan(permitted@));
    ops
}

/// The capability number of `CAP_SETPCAP`.
pub const CAP_SETPCAP: u8 = 8;

/// The capability sets of a thread.
#[verifier::ext_equal]
pub struct CapState {
    pub effective: Set<u8>,
    pub permitted: Set<u8>,
    pub inheritable: Set<u8>,
    pub ambient: Set<u8>,
}

/// What the kernel keeps true of every thread: the effective set lies in the
/// permitted one, and the ambient set in both the permitted and the
/// inheritable ones.
pub open spec fn sets_consistent(s: CapState) -> bool {
    &&& s.effective.subset_of(s.permitted)
    &&& s.ambient.subset_of(s.permitted.intersect(s.inheritable))
}

/// The set `which` of `s`.
pub open spec fn set_of(s: CapState, which: CapSet) -> Set<u8> {
    match which {
        CapSet::Effective => s.effective,
        CapSet::Permitted => s.permitted,
        CapSet::Inheritable => s.inheritable,
        CapSet::Ambient => s.ambient,
    }
}

/// `s` with its set `which` replaced by `v`.
pub open spec fn with_set(s: CapState, which: CapSet, v: Set<u8>) -> CapState {
    match which {
        CapSet::Effective => CapState { effective: v, ..s },
        CapSet::Permitted => CapState { permitted: v, ..s },
        CapSet::Inheritable => CapState { inheritable: v, ..s },
        CapSet::Ambient => CapState { ambient: v, ..s },
    }
}

/// The kernel drops from the ambient set what is no longer both permitted
/// and inheritable.
pub open spec fn settle(s: CapState) -> CapState {
    CapState { ambient: s.ambient.intersect(s.permitted).intersect(s.inheritable), ..s }
}

/// Whether the kernel lets a thread whose sets are `s` add `cap` to the set
/// `which`: the effective set only takes permitted capabilities; the
/// permitted set never grows; the inheritable set takes permitted
/// capabilities, or any with `CAP_SETPCAP` in effect (the bounding set is
/// not modelled); the ambient set takes capabilities that are both permitted
/// and inheritable.
pub open spec fn raise_allowed(s: CapState, which: CapSet, cap: u8) -> bool {
    match which {
        CapSet::Effective => s.permitted.contains(cap),
        CapSet::Permitted => false,
        CapSet::Inheritable => s.permitted.contains(cap) || s.effective.contains(CAP_SETPCAP),
        CapSet::Ambient => s.permitted.contains(cap) && s.inheritable.contains(cap),
    }
}

/// The sets after one operation, or `None` when the kernel refuses it.
/// Clearing the permitted set clears the effective one too; a permitted
/// capability that is in effect cannot be dropped; raising a capability that
/// the set already holds changes nothing.
pub open spec fn apply_op(s: CapState, op: CapOp) -> Option<CapState> {
    match op {
        CapOp::Clear(which) => Some(
            settle(
                match which {
                    CapSet::Permitted => CapState { effective: Set::empty(), permitted: Set::empty(), ..s },
                    _ => with_set(s, which, Set::empty()),
                },
            ),
        ),
        CapOp::Drop(which, cap) => if which == CapSet::Permitted && s.permitted.contains(cap)
            && s.effective.contains(cap) {
            None
        } else {
            Some(settle(with_set(s, which, set_of(s, which).remove(cap))))
        },
        CapOp::RaiseIfMissing(which, cap) => if set_of(s, which).contains(cap) {
            Some(s)
        } else if raise_allowed(s, which, cap) {
            Some(settle(with_set(s, which, set_of(s, which).insert(cap))))
        } else {
            None
        },
    }
}

/// Where a sequence of operations leaves the sets, and whether one was
/// refused; nothing runs after a refusal.
#[verifier::ext_equal]
pub struct CapRun {
    pub sets: CapState,
    pub refused: bool,
}

/// The sets after operations run in order, stopping at the first refusal.
pub open spec fn apply_ops(r: CapRun, ops: Seq<CapOp>) -> CapRun
    decreases ops.len(),
{
    if ops.len() == 0 {
        r
    } else {
        let prev = apply_ops(r, ops.drop_last());
        if prev.refused {
            prev
        } else {
            match apply_op(prev.sets, ops.last()) {
                Some(t) => CapRun { sets: t, refused: false },
                None => CapRun { sets: prev.sets, refused: true },
            }
        }
    }
}

proof fn lemma_apply_concat(r: CapRun, a: Seq<CapOp>, b: Seq<CapOp>)
    ensures
        apply_ops(r, a + b) == apply_ops(apply_ops(r, a), b),
    decreases b.len(),
{
    if b.len() == 0 {
        assert(a + b =~= a);
    } else {
        assert((a + b).drop_last() =~= a + b.drop_last());
        lemma_apply_concat(r, a, b.drop_last());
    }
}

proof fn lemma_apply_one(r: CapRun, op: CapOp)
    ensures
        apply_ops(r, seq![op]) == (if r.refused {
            r
        } else {
            match apply_op(r.sets, op) {
                Some(t) => CapRun { sets: t, refused: false },
                None => CapRun { sets: r.sets, refused: true },
            }
        }),
{
    assert(seq![op].drop_last() =~= Seq::<CapOp>::empty());
    assert(apply_ops(r, Seq::<CapOp>::empty()) == r);
}

/// With nothing in effect and nothing ambient, the drops take from the
/// permitted set every capability of `caps` but `CAP_NET_RAW`, and change
/// nothing else.
proof fn lemma_drops(s: CapState, caps: Seq<u8>)
    requires
        s.effective == Set::<u8>::empty(),
        s.ambient == Set::<u8>::empty(),
    ensures
        apply_ops(CapRun { sets: s, refused: false }, drops(caps)) == (CapRun {
            sets: CapState { permitted: s.permitted.difference(caps.to_set().remove(CAP_NET_RAW)), ..s },
            refused: false,
        }),
    decreases caps.len(),
{
    let r = CapRun { sets: s, refused: false };
    if caps.len() == 0 {
        assert(s.permitted.difference(caps.to_set().remove(CAP_NET_RAW)) =~= s.permitted);
    } else {
        let rest = caps.drop_last();
        lemma_drops(s, rest);
        assert(caps =~= rest.push(caps.last()));
        assert(caps.to_set() =~= rest.to_set().insert(caps.last())) by {
            rest.lemma_push_to_set_commute(caps.last());
        }
        if caps.last() == CAP_NET_RAW {
            assert(s.permitted.difference(caps.to_set().remove(CAP_NET_RAW)) =~= s.permitted.difference(
                rest.to_set().remove(CAP_NET_RAW),
            ));
        } else {
            let ops = drops(caps);
            assert(ops.drop_last() == drops(rest));
            let mid = CapState { permitted: s.permitted.difference(rest.to_set().remove(CAP_NET_RAW)), ..s };
            let after = with_set(mid, CapSet::Permitted, mid.permitted.remove(caps.last()));
            assert(settle(after).ambient =~= Set::<u8>::empty());
            assert(settle(after) =~= after);
            assert(s.permitted.difference(caps.to_set().remove(CAP_NET_RAW)) =~= mid.permitted.remove(
                caps.last(),
            ));
        }
    }
}

/// The state after the effective and inheritable sets are cleared.
proof fn lemma_clears(s: CapState)
    ensures
        apply_ops(
            CapRun { sets: s, refused: false },
            seq![CapOp::Clear(CapSet::Effective), CapOp::Clear(CapSet::Inheritable)],
        ) == (CapRun {
            sets: CapState {
                effective: Set::empty(),
                inheritable: Set::empty(),
                ambient: Set::empty(),
                ..s
            },
            refused: false,
        }),
{
    let r = CapRun { sets: s, refused: false };
    let one = seq![CapOp::Clear(CapSet::Effective)];
    let clears = one.push(CapOp::Clear(CapSet::Inheritable));
    assert(seq![CapOp::Clear(CapSet::Effective), CapOp::Clear(CapSet::Inheritable)] =~= clears);
    lemma_apply_one(r, CapOp::Clear(CapSet::Effective));
    assert(clears.drop_last() =~= one);
    let r1 = apply_ops(r, one);
    let t = with_set(r1.sets, CapSet::Inheritable, Set::empty());
    assert(settle(t).ambient =~= Set::<u8>::empty());
    assert(settle(t) =~= CapState {
        effective: Set::empty(),
        inheritable: Set::empty(),
        ambient: Set::empty(),
        ..s
    });
}

/// What the three raises do after the drops, depending on whether
/// `CAP_NET_RAW` is still permitted.
proof fn lemma_raises(s: CapState)
    requires
        s.effective == Set::<u8>::empty(),
        s.inheritable == Set::<u8>::empty(),
        s.ambient == Set::<u8>::empty(),
    ensures
        ({
            let raises = seq![
                CapOp::RaiseIfMissing(CapSet::Effective, CAP_NET_RAW),
                CapOp::RaiseIfMissing(CapSet::Inheritable, CAP_NET_RAW),
                CapOp::RaiseIfMissing(CapSet::Ambient, CAP_NET_RAW),
            ];
            let end = apply_ops(CapRun { sets: s, refused: false }, raises);
            &&& s.permitted.contains(CAP_NET_RAW) ==> end == (CapRun {
                sets: CapState {
                    effective: set![CAP_NET_RAW],
                    inheritable: set![CAP_NET_RAW],
                    ambient: set![CAP_NET_RAW],
                    ..s
                },
                refused: false,
            })
            &&& !s.permitted.contains(CAP_NET_RAW) ==> end == (CapRun { sets: s, refused: true })
        }),
{
    let r = CapRun { sets: s, refused: false };
    let e = CapOp::RaiseIfMissing(CapSet::Effective, CAP_NET_RAW);
    let i = CapOp::RaiseIfMissing(CapSet::Inheritable, CAP_NET_RAW);
    let a = CapOp::RaiseIfMissing(CapSet::Ambient, CAP_NET_RAW);
    let r1 = seq![e];
    let r2 = r1.push(i);
    let r3 = r2.push(a);
    assert(seq![e, i, a] =~= r3);
    assert(r2.drop_last() =~= r1);
    assert(r3.drop_last() =~= r2);
    lemma_apply_one(r, e);
    let x1 = apply_ops(r, r1);
    let x2 = apply_ops(r, r2);
    if s.permitted.contains(CAP_NET_RAW) {
        let t1 = with_set(s, CapSet::Effective, Set::<u8>::empty().insert(CAP_NET_RAW));
        assert(settle(t1) =~= t1);
        assert(x1.sets == t1 && !x1.refused);
        let t2 = with_set(t1, CapSet::Inheritable, Set::<u8>::empty().insert(CAP_NET_RAW));
        assert(settle(t2) =~= t2);
        assert(x2.sets == t2 && !x2.refused);
        let t3 = with_set(t2, CapSet::Ambient, Set::<u8>::empty().insert(CAP_NET_RAW));
        assert(settle(t3).ambient =~= set![CAP_NET_RAW]);
        assert(Set::<u8>::empty().insert(CAP_NET_RAW) =~= set![CAP_NET_RAW]);
    } else {
        assert(x1 == CapRun { sets: s, refused: true });
    }
}

/// When `CAP_NET_RAW` is permitted, the operations leave it alone in the
/// effective, permitted, inheritable and ambient sets.
pub proof fn law_only_net_raw_remains(s: CapState, permitted: Seq<u8>)
    requires
        sets_consistent(s),
        s.permitted == permitted.to_set(),
        s.permitted.contains(CAP_NET_RAW),
    ensures
        apply_ops(CapRun { sets: s, refused: false }, capability_plan(permitted)) == (CapRun {
            sets: CapState {
                effective: set![CAP_NET_RAW],
                permitted: set![CAP_NET_RAW],
                inheritable: set![CAP_NET_RAW],
                ambient: set![CAP_NET_RAW],
            },
            refused: false,
        }),
{
    lemma_plan_outcome(s, permitted);
    assert(s.permitted.difference(permitted.to_set().remove(CAP_NET_RAW)) =~= set![CAP_NET_RAW]);
}

/// When `CAP_NET_RAW` is not permitted, raising it in the effective set is
/// refused: the process is left with empty effective, permitted,
/// inheritable and ambient sets, and nothing is restored.
pub proof fn law_refused_without_net_raw(s: CapState, permitted: Seq<u8>)
    requires
        sets_consistent(s),
        s.permitted == permitted.to_set(),
        !s.permitted.contains(CAP_NET_RAW),
    ensures
        apply_ops(CapRun { sets: s, refused: false }, capability_plan(permitted)) == (CapRun {
            sets: CapState {
                effective: Set::empty(),
                permitted: Set::empty(),
                inheritable: Set::empty(),
                ambient: Set::empty(),
            },
            refused: true,
        }),
{
    lemma_plan_outcome(s, permitted);
    assert(s.permitted.difference(permitted.to_set().remove(CAP_NET_RAW)) =~= Set::<u8>::empty());
}

/// Whatever the outcome, no capability is gained in the permitted set, and
/// when no operation is refused every set holds at most `CAP_NET_RAW`.
pub proof fn law_never_gains_capabilities(s: CapState, permitted: Seq<u8>)
    requires
        sets_consistent(s),
        s.permitted == permitted.to_set(),
    ensures
        ({
            let end = apply_ops(CapRun { sets: s, refused: false }, capability_plan(permitted));
            &&& end.sets.permitted.subset_of(s.permitted)
            &&& !end.refused ==> {
                &&& end.sets.effective.subset_of(set![CAP_NET_RAW])
                &&& end.sets.permitted.subset_of(set![CAP_NET_RAW])
                &&& end.sets.inheritable.subset_of(set![CAP_NET_RAW])
                &&& end.sets.ambient.subset_of(set![CAP_NET_RAW])
            }
        }),
{
    if s.permitted.contains(CAP_NET_RAW) {
        law_only_net_raw_remains(s, permitted);
    } else {
        law_refused_without_net_raw(s, permitted);
    }
}

/// The whole plan: the clears, the drops, then the raises.
proof fn lemma_plan_outcome(s: CapState, permitted: Seq<u8>)
    requires
        s.permitted == permitted.to_set(),
    ensures
        ({
            let p = s.permitted.difference(permitted.to_set().remove(CAP_NET_RAW));
            let dropped = CapState {
                effective: Set::empty(),
                permitted: p,
                inheritable: Set::empty(),
                ambient: Set::empty(),
            };
            let end = apply_ops(CapRun { sets: s, refused: false }, capability_plan(permitted));
            &&& p.contains(CAP_NET_RAW) ==> end == (CapRun {
                sets: CapState {
                    effective: set![CAP_NET_RAW],
                    inheritable: set![CAP_NET_RAW],
                    ambient: set![CAP_NET_RAW],
                    ..dropped
                },
                refused: false,
            })
            &&& !p.contains(CAP_NET_RAW) ==> end == (CapRun { sets: dropped, refused: true })
        }),
{
    let r = CapRun { sets: s, refused: false };
    let clears = seq![CapOp::Clear(CapSet::Effective), CapOp::Clear(CapSet::Inheritable)];
    let raises = seq![
        CapOp::RaiseIfMissing(CapSet::Effective, CAP_NET_RAW),
        CapOp::RaiseIfMissing(CapSet::Inheritable, CAP_NET_RAW),
        CapOp::RaiseIfMissing(CapSet::Ambient, CAP_NET_RAW),
    ];
    assert(capability_plan(permitted) =~= clears + drops(permitted) + raises);
    lemma_apply_concat(r, clears + drops(permitted), raises);
    lemma_apply_concat(r, clears, drops(permitted));
    lemma_clears(s);
    let cleared = CapState {
        effective: Set::empty(),
        inheritable: Set::empty(),
        ambient: Set::empty(),
        ..s
    };
    lemma_drops(cleared, permitted);
    let p = s.permitted.difference(permitted.to_set().remove(CAP_NET_RAW));
    let dropped = CapState {
        effective: Set::empty(),
        permitted: p,
        inheritable: Set::empty(),
        ambient: Set::empty(),
    };
    assert(CapState { permitted: p, ..cleared } == dropped);
    lemma_raises(dropped);
}

} // verus!
