//! The order in which the container is set up inside its namespaces, and
//! the system calls that its seccomp filter blocks.

use vstd::prelude::*;
use crate::seccomp::{filter_action, FilterAction, SeccompBuilder, Syscall};

verus! {

/// One stage of the container's setup.
#[derive(Clone, Copy, Debug, PartialEq, Eq, Structural)]
pub enum SetupStage {
    /// Give the container a random hostname.
    SetHostname,
    /// Create the directory that holds the overlay's layers.
    CreateRuntimeDir,
    /// Mount the image as a writable overlay.
    MountOverlay,
    /// Mount `proc`, `tmp`, `dev` and `sys` in the overlay.
    MountPseudoFilesystems,
    /// Attach the volume in the overlay.
    MountVolume,
    /// Make the overlay the root with `pivot_root`.
    PivotRoot,
    /// Load the seccomp filter.
    ApplySeccomp,
    /// Keep only `CAP_NET_RAW`.
    DropCapabilities,
    /// Run the command.
    Exec,
}

/// The order of the container's setup.
pub open spec fn setup_order() -> Seq<SetupStage> {
    seq![
        SetupStage::SetHostname,
        SetupStage::CreateRuntimeDir,
        SetupStage::MountOverlay,
        SetupStage::MountPseudoFilesystems,
        SetupStage::MountVolume,
        SetupStage::PivotRoot,
        SetupStage::ApplySeccomp,
        SetupStage::DropCapabilities,
        SetupStage::Exec,
    ]
}

/// The stages of the container's setup, in the order they run.
pub fn container_setup() -> (res: Vec<SetupStage>)
    ensures
        res@ == setup_order(),
{
    let mut v: Vec<SetupStage> = Vec::new();
    v.push(SetupStage::SetHostname);
    v.push(SetupStage::CreateRuntimeDir);
    v.push(SetupStage::MountOverlay);
    v.push(SetupStage::MountPseudoFilesystems);
    v.push(SetupStage::MountVolume);
    v.push(SetupStage::PivotRoot);
    v.push(SetupStage::ApplySeccomp);
    v.push(SetupStage::DropCapabilities);
    v.push(SetupStage::Exec);
    assert(v@ =~= setup_order());
    v
}

/// The system calls that the container's filter blocks.
pub open spec fn container_blocked() -> Seq<Syscall> {
    seq![Syscall::Nfsservctl, Syscall::Personality, Syscall::PivotRoot]
}

/// The container's seccomp filter: `nfsservctl`, `personality` and
/// `pivot_root` fail with `EPERM`.
pub fn container_filter() -> (res: SeccompBuilder)
    ensures
        res@ == container_blocked(),
{
    let b = SeccompBuilder::new().add_syscall(Syscall::Nfsservctl).add_syscall(Syscall::Personality).add_syscall(
        Syscall::PivotRoot,
    );
    assert(b@ =~= container_blocked());
    b
}

/// Whether stage `a` runs, once, before stage `b`, which runs once too.
pub open spec fn runs_before(order: Seq<SetupStage>, a: SetupStage, b: SetupStage) -> bool {
    exists|i: int, j: int|
        0 <= i < j < order.len() && order[i] == a && order[j] == b && forall|k: int|
            0 <= k < order.len() && k != i ==> order[k] != a && (k != j ==> order[k] != b)
}

/// The setup runs every stage once, in an order that makes it work: the
/// overlay is mounted before anything is mounted in it, the root is pivoted
/// before the filter that blocks `pivot_root` is loaded, the filter is loaded
/// while the capabilities are still there, and the command runs last.
pub proof fn law_setup_order()
    ensures
        setup_order().len() == 9,
        runs_before(setup_order(), SetupStage::CreateRuntimeDir, SetupStage::MountOverlay),
        runs_before(setup_order(), SetupStage::MountOverlay, SetupStage::MountPseudoFilesystems),
        runs_before(setup_order(), SetupStage::MountOverlay, SetupStage::MountVolume),
        runs_before(setup_order(), SetupStage::MountVolume, SetupStage::PivotRoot),
        runs_before(setup_order(), SetupStage::PivotRoot, SetupStage::ApplySeccomp),
        filter_action(container_blocked(), Syscall::PivotRoot) == FilterAction::FailWithEperm,
        runs_before(setup_order(), SetupStage::ApplySeccomp, SetupStage::DropCapabilities),
        setup_order().last() == SetupStage::Exec,
{
    let o = setup_order();
    assert(runs_before(o, SetupStage::CreateRuntimeDir, SetupStage::MountOverlay)) by {
        assert(o[1] == SetupStage::CreateRuntimeDir && o[2] == SetupStage::MountOverlay);
    }
    assert(runs_before(o, SetupStage::MountOverlay, SetupStage::MountPseudoFilesystems)) by {
        assert(o[2] == SetupStage::MountOverlay && o[3] == SetupStage::MountPseudoFilesystems);
    }
    assert(runs_before(o, SetupStage::MountOverlay, SetupStage::MountVolume)) by {
        assert(o[2] == SetupStage::MountOverlay && o[4] == SetupStage::MountVolume);
    }
    assert(runs_before(o, SetupStage::MountVolume, SetupStage::PivotRoot)) by {
        assert(o[4] == SetupStage::MountVolume && o[5] == SetupStage::PivotRoot);
    }
    assert(runs_before(o, SetupStage::PivotRoot, SetupStage::ApplySeccomp)) by {
        assert(o[5] == SetupStage::PivotRoot && o[6] == SetupStage::ApplySeccomp);
    }
    assert(runs_before(o, SetupStage::ApplySeccomp, SetupStage::DropCapabilities)) by {
        assert(o[6] == SetupStage::ApplySeccomp && o[7] == SetupStage::DropCapabilities);
    }
    assert(container_blocked()[2] == Syscall::PivotRoot);
}

} // verus!
