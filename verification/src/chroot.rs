//! Plans that make a directory the root of the process's filesystem.

use vstd::prelude::*;
use crate::mounts::{flags, mount_op, private_root_op};
use crate::plan::{bare, plan_view, step, step_within, within, MountFlags, OpView, Step, StepView, SysOp};
use crate::text::{joined, owned, path_join};

verus! {

/// What `isolate_fs` does: `chroot` into `rootfs`, then move to `/`.
pub open spec fn chroot_plan(rootfs: Seq<char>) -> Seq<StepView> {
    seq![bare(OpView::Chroot { path: rootfs }), bare(OpView::Chdir { path: "/"@ })]
}

/// The steps that change the root directory to `rootfs` with `chroot`.
pub fn isolate_fs(rootfs: &str) -> (res: Vec<Step>)
    ensures
        plan_view(res@) == chroot_plan(rootfs@),
{
    let mut steps: Vec<Step> = Vec::new();
    steps.push(step(SysOp::Chroot { path: owned(rootfs) }));
    steps.push(step(SysOp::Chdir { path: owned("/") }));
    assert(plan_view(steps@) =~= chroot_plan(rootfs@));
    steps
}

/// What `isolate_pivot` does: make the mount tree private, bind-mount
/// `new_root` onto itself, create `new_root/put_old` when missing, pivot the
/// root there, move to `/`, then detach and remove the old root.
pub open spec fn pivot_plan(new_root: Seq<char>) -> Seq<StepView> {
    let put_old = joined(new_root, "put_old"@);
    seq![
        within(private_root_op(), "Cannot make mount private"@),
        within(
            mount_op(Some(new_root), new_root, None, flags(false, false, false, false, true, true, false), None),
            "Cannot bind mount new root"@,
        ),
        bare(OpView::CreateDirIfMissing { path: put_old }),
        within(OpView::PivotRoot { new_root, put_old }, "Pivot root failed"@),
        within(OpView::Chdir { path: "/"@ }, "Chdir failed"@),
        within(OpView::UnmountDetach { path: "/put_old"@ }, "Umount old root failed"@),
        bare(OpView::RemoveDir { path: "/put_old"@ }),
    ]
}

/// The steps that make `new_root` the root filesystem with `pivot_root`.
pub fn isolate_pivot(new_root: &str) -> (res: Vec<Step>)
    ensures
        plan_view(res@) == pivot_plan(new_root@),
{
    let mut steps: Vec<Step> = Vec::new();
    let mut private = MountFlags::empty();
    private.recursive = true;
    private.private = true;
    steps.push(
        step_within(
            SysOp::Mount { source: None, target: owned("/"), fstype: None, flags: private, data: None },
            "Cannot make mount private",
        ),
    );
    let mut bind = MountFlags::empty();
    bind.bind = true;
    bind.recursive = true;
    steps.push(
        step_within(
            SysOp::Mount {
                source: Some(owned(new_root)),
                target: owned(new_root),
                fstype: None,
                flags: bind,
                data: None,
            },
            "Cannot bind mount new root",
        ),
    );
    let put_old = path_join(new_root, "put_old");
    steps.push(step(SysOp::CreateDirIfMissing { path: put_old.clone() }));
    steps.push(
        step_within(SysOp::PivotRoot { new_root: owned(new_root), put_old }, "Pivot root failed"),
    );
    steps.push(step_within(SysOp::Chdir { path: owned("/") }, "Chdir failed"));
    steps.push(step_within(SysOp::UnmountDetach { path: owned("/put_old") }, "Umount old root failed"));
    steps.push(step(SysOp::RemoveDir { path: owned("/put_old") }));
    assert(plan_view(steps@) =~= pivot_plan(new_root@));
    steps
}

} // verus!
