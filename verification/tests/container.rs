use virli::container::{container_filter, container_setup, SetupStage};
use virli::seccomp::{FilterAction, Syscall};

#[test]
fn setup_runs_stages_in_order() {
    assert_eq!(
        container_setup(),
        vec![
            SetupStage::SetHostname,
            SetupStage::CreateRuntimeDir,
            SetupStage::MountOverlay,
            SetupStage::MountPseudoFilesystems,
            SetupStage::MountVolume,
            SetupStage::PivotRoot,
            SetupStage::ApplySeccomp,
            SetupStage::DropCapabilities,
            SetupStage::Exec,
        ]
    );
}

#[test]
fn pivot_root_happens_before_it_is_blocked() {
    let order = container_setup();
    let pivot = order.iter().position(|s| *s == SetupStage::PivotRoot).unwrap();
    let filter = order.iter().position(|s| *s == SetupStage::ApplySeccomp).unwrap();
    assert!(pivot < filter);
    let f = container_filter();
    assert_eq!(f.action_for(Syscall::PivotRoot), FilterAction::FailWithEperm);
    assert_eq!(f.blocked(), &vec![Syscall::Nfsservctl, Syscall::Personality, Syscall::PivotRoot]);
}
