//! Mount plans for the container's root filesystem: the pseudo filesystems,
//! the attached volume and the overlay that keeps the image unchanged.

use vstd::prelude::*;
use crate::plan::{bare, changes_only_under, no_flags, plan_view, step, step_within, within, MountFlags, OpView, SetupError, Step, StepView, SysOp};
use crate::text::{joined, lemma_joined_extends, owned, path_join};

verus! {

/// Mount flags from their fields.
pub open spec fn flags(
    read_only: bool,
    no_suid: bool,
    no_dev: bool,
    no_exec: bool,
    bind: bool,
    recursive: bool,
    private: bool,
) -> MountFlags {
    MountFlags { read_only, no_suid, no_dev, no_exec, bind, recursive, private }
}

/// A mount step over plain values.
pub open spec fn mount_op(
    source: Option<Seq<char>>,
    target: Seq<char>,
    fstype: Option<Seq<char>>,
    flags: MountFlags,
    data: Option<Seq<char>>,
) -> OpView {
    OpView::Mount { source, target, fstype, flags, data }
}

/// Recursively private propagation for the whole mount tree.
pub open spec fn private_root_op() -> OpView {
    mount_op(None, "/"@, None, flags(false, false, false, false, false, true, true), None)
}

/// A pseudo filesystem of type `fstype` mounted at `rootfs/dir`, whose
/// mount point is created first when missing.
pub open spec fn pseudo_fs_steps(rootfs: Seq<char>, dir: Seq<char>, fstype: Seq<char>, f: MountFlags) -> Seq<StepView> {
    let target = joined(rootfs, dir);
    seq![
        bare(OpView::CreateDirAllIfMissing { path: target }),
        bare(mount_op(Some(fstype), target, Some(fstype), f, None)),
    ]
}

/// What `mount_sysfs` does: make the mount tree private, then mount `proc`,
/// a `tmp` and a `dev` tmpfs, and a read-only `sysfs` under `rootfs`.
pub open spec fn sysfs_plan(rootfs: Seq<char>) -> Seq<StepView> {
    seq![bare(private_root_op())]
        + pseudo_fs_steps(rootfs, "proc"@, "proc"@, no_flags())
        + pseudo_fs_steps(rootfs, "tmp"@, "tmpfs"@, flags(false, true, true, false, false, false, false))
        + pseudo_fs_steps(rootfs, "dev"@, "tmpfs"@, flags(false, true, false, true, false, false, false))
        + pseudo_fs_steps(rootfs, "sys"@, "sysfs"@, flags(true, true, true, true, false, false, false))
}

fn push_pseudo_fs(steps: &mut Vec<Step>, rootfs: &str, dir: &str, fstype: &str, f: MountFlags)
    ensures
        plan_view(final(steps)@) == plan_view(old(steps)@) + pseudo_fs_steps(rootfs@, dir@, fstype@, f),
{
    let target = path_join(rootfs, dir);
    steps.push(step(SysOp::CreateDirAllIfMissing { path: target.clone() }));
    steps.push(
        step(
            SysOp::Mount {
                source: Some(owned(fstype)),
                target,
                fstype: Some(owned(fstype)),
                flags: f,
                data: None,
            },
        ),
    );
    assert(plan_view(final(steps)@) =~= plan_view(old(steps)@) + pseudo_fs_steps(rootfs@, dir@, fstype@, f));
}

/// The steps that mount the pseudo filesystems of the container under `rootfs`.
pub fn mount_sysfs(rootfs: &str) -> (res: Vec<Step>)
    ensures
        plan_view(res@) == sysfs_plan(rootfs@),
{
    let mut steps: Vec<Step> = Vec::new();
    let mut private = MountFlags::empty();
    private.recursive = true;
    private.private = true;
    steps.push(
        step(SysOp::Mount { source: None, target: owned("/"), fstype: None, flags: private, data: None }),
    );
    assert(plan_view(steps@) =~= seq![bare(private_root_op())]);
    push_pseudo_fs(&mut steps, rootfs, "proc", "proc", MountFlags::empty());
    let mut tmp = MountFlags::empty();
    tmp.no_suid = true;
    tmp.no_dev = true;
    push_pseudo_fs(&mut steps, rootfs, "tmp", "tmpfs", tmp);
    let mut dev = MountFlags::empty();
    dev.no_suid = true;
    dev.no_exec = true;
    push_pseudo_fs(&mut steps, rootfs, "dev", "tmpfs", dev);
    let mut sys = MountFlags::empty();
    sys.no_suid = true;
    sys.no_dev = true;
    sys.no_exec = true;
    sys.read_only = true;
    push_pseudo_fs(&mut steps, rootfs, "sys", "sysfs", sys);
    steps
}

/// Where the volume is attached inside the container.
pub open spec fn volume_target(rootfs: Seq<char>) -> Seq<char> {
    joined(rootfs, "home/student"@)
}

/// What `mount_volume` does: fail when `rootfs` is missing, create the mount
/// point `rootfs/home/student` when missing, and, when a volume is given,
/// fail if it is missing and bind-mount it there recursively.
pub open spec fn volume_plan(rootfs: Seq<char>, volume: Option<Seq<char>>) -> Seq<StepView> {
    let target = volume_target(rootfs);
    let prepare = seq![
        bare(OpView::RequireExists { path: rootfs, missing: SetupError::RootfsMissing }),
        bare(OpView::CreateDirAllIfMissing { path: target }),
    ];
    match volume {
        None => prepare,
        Some(v) => prepare + seq![
            bare(OpView::RequireExists { path: v, missing: SetupError::VolumeMissing }),
            bare(mount_op(Some(v), target, None, flags(false, false, false, false, true, true, false), None)),
        ],
    }
}

/// The steps that attach the optional `volume` to the container under `rootfs`.
pub fn mount_volume(rootfs: &str, volume: Option<&str>) -> (res: Vec<Step>)
    ensures
        plan_view(res@) == volume_plan(rootfs@, match volume { Some(v) => Some(v@), None => None }),
{
    let mut steps: Vec<Step> = Vec::new();
    steps.push(step(SysOp::RequireExists { path: owned(rootfs), missing: SetupError::RootfsMissing }));
    let target = path_join(rootfs, "home/student");
    steps.push(step(SysOp::CreateDirAllIfMissing { path: target.clone() }));
    match volume {
        None => {
            assert(plan_view(steps@) =~= volume_plan(rootfs@, None));
        },
        Some(v) => {
            steps.push(step(SysOp::RequireExists { path: owned(v), missing: SetupError::VolumeMissing }));
            let mut bind = MountFlags::empty();
            bind.bind = true;
            bind.recursive = true;
            steps.push(
                step(
                    SysOp::Mount { source: Some(owned(v)), target, fstype: None, flags: bind, data: None },
                ),
            );
            assert(plan_view(steps@) =~= volume_plan(rootfs@, Some(v@)));
        },
    }
    steps
}

/// The overlay's options: the image is the lower layer, `upper` takes the
/// container's writes, `work` is the overlay's own scratch directory.
pub open spec fn overlay_options(lower: Seq<char>, upper: Seq<char>, work: Seq<char>) -> Seq<char> {
    "lowerdir="@ + lower + ",upperdir="@ + upper + ",workdir="@ + work
}

/// What `mount_overlayfs` does: create `upper`, `work` and `merged` under
/// `runtime_dir`, then mount an overlay of the image at `merged`.
pub open spec fn overlay_plan(image: Seq<char>, runtime_dir: Seq<char>) -> Seq<StepView> {
    let upper = joined(runtime_dir, "upper"@);
    let work = joined(runtime_dir, "work"@);
    let merged = joined(runtime_dir, "merged"@);
    seq![
        bare(OpView::CreateDirAll { path: upper }),
        bare(OpView::CreateDirAll { path: work }),
        bare(OpView::CreateDirAll { path: merged }),
        within(
            mount_op(Some("overlay"@), merged, Some("overlay"@), no_flags(), Some(overlay_options(image, upper, work))),
            "OverlayFS mount failed"@,
        ),
    ]
}

/// The steps that mount the image at `image` as a writable overlay under
/// `runtime_dir`, and the directory where the merged tree appears; an error
/// when no image is given.
pub fn mount_overlayfs(image: Option<&str>, runtime_dir: &str) -> (res: Result<(Vec<Step>, String), SetupError>)
    ensures
        match image {
            None => res == Err::<(Vec<Step>, String), SetupError>(SetupError::ImagePathMissing),
            Some(i) => res matches Ok((steps, merged)) && plan_view(steps@) == overlay_plan(i@, runtime_dir@)
                && merged@ == joined(runtime_dir@, "merged"@),
        },
{
    let lower = match image {
        Some(i) => i,
        None => {
            return Err(SetupError::ImagePathMissing);
        },
    };
    let upper = path_join(runtime_dir, "upper");
    let work = path_join(runtime_dir, "work");
    let merged = path_join(runtime_dir, "merged");
    let mut options = owned("lowerdir=");
    options.append(lower);
    options.append(",upperdir=");
    options.append(upper.as_str());
    options.append(",workdir=");
    options.append(work.as_str());
    let mut steps: Vec<Step> = Vec::new();
    steps.push(step(SysOp::CreateDirAll { path: upper }));
    steps.push(step(SysOp::CreateDirAll { path: work }));
    steps.push(step(SysOp::CreateDirAll { path: merged.clone() }));
    steps.push(
        step_within(
            SysOp::Mount {
                source: Some(owned("overlay")),
                target: merged.clone(),
                fstype: Some(owned("overlay")),
                flags: MountFlags::empty(),
                data: Some(options),
            },
            "OverlayFS mount failed",
        ),
    );
    assert(plan_view(steps@) =~= overlay_plan(lower@, runtime_dir@));
    Ok((steps, merged))
}

/// The directory under which a container named `hostname` keeps its overlay.
pub open spec fn runtime_dir_of(hostname: Seq<char>) -> Seq<char> {
    "/tmp/mymoulette_"@ + hostname
}

/// The directory under which a container named `hostname` keeps its overlay.
pub fn runtime_dir(hostname: &str) -> (res: String)
    ensures
        res@ == runtime_dir_of(hostname@),
{
    let mut dir = owned("/tmp/mymoulette_");
    dir.append(hostname);
    dir
}

/// Once the mount tree is private, every mount point that `mount_sysfs`
/// creates or mounts on lies inside `rootfs`.
pub proof fn law_sysfs_stays_in_rootfs(rootfs: Seq<char>)
    ensures
        changes_only_under(sysfs_plan(rootfs), 1, rootfs),
{
    reveal_strlit("proc");
    reveal_strlit("tmp");
    reveal_strlit("dev");
    reveal_strlit("sys");
    lemma_joined_extends(rootfs, "proc"@);
    lemma_joined_extends(rootfs, "tmp"@);
    lemma_joined_extends(rootfs, "dev"@);
    lemma_joined_extends(rootfs, "sys"@);
}

/// Every directory that `mount_volume` creates, and the volume's mount point,
/// lie inside `rootfs`.
pub proof fn law_volume_stays_in_rootfs(rootfs: Seq<char>, volume: Option<Seq<char>>)
    ensures
        changes_only_under(volume_plan(rootfs, volume), 0, rootfs),
{
    reveal_strlit("home/student");
    lemma_joined_extends(rootfs, "home/student"@);
}

/// Every directory that `mount_overlayfs` creates, and the overlay's mount
/// point, lie inside `runtime_dir`; the image itself is left unchanged.
pub proof fn law_overlay_stays_in_runtime_dir(image: Seq<char>, runtime_dir: Seq<char>)
    ensures
        changes_only_under(overlay_plan(image, runtime_dir), 0, runtime_dir),
{
    reveal_strlit("upper");
    reveal_strlit("work");
    reveal_strlit("merged");
    lemma_joined_extends(runtime_dir, "upper"@);
    lemma_joined_extends(runtime_dir, "work"@);
    lemma_joined_extends(runtime_dir, "merged"@);
}

/// The overlay takes the image path it is given, as given, for its lower
/// layer: the plan mounts exactly one filesystem, an overlay, whose options
/// start with `lowerdir=`, the image path, and `,upperdir=`; relative paths
/// are not resolved against the runtime directory.
pub proof fn law_overlay_lower_is_the_image(image: Seq<char>, runtime_dir: Seq<char>)
    ensures
        ({
            let p = overlay_plan(image, runtime_dir);
            &&& exists|i: int| 0 <= i < p.len() && (#[trigger] p[i]).op is Mount
            &&& forall|i: int|
                0 <= i < p.len() && (#[trigger] p[i]).op is Mount ==> {
                    &&& p[i].op->Mount_fstype == Some("overlay"@)
                    &&& p[i].op->Mount_data matches Some(d) && ("lowerdir="@ + image + ",upperdir="@).is_prefix_of(d)
                }
        }),
{
    let p = overlay_plan(image, runtime_dir);
    let upper = joined(runtime_dir, "upper"@);
    let work = joined(runtime_dir, "work"@);
    let d = overlay_options(image, upper, work);
    let pre = "lowerdir="@ + image + ",upperdir="@;
    assert(d =~= pre + (upper + ",workdir="@ + work));
    assert(pre.is_prefix_of(d)) by {
        assert(d.subrange(0, pre.len() as int) =~= pre);
    }
    assert(p[3].op is Mount);
}

/// A given volume is attached as given: the plan checks that exactly the
/// volume path exists, then bind-mounts exactly that path, recursively, at
/// `home/student` in the root; it mounts nothing else, and without a volume
/// it mounts nothing and checks no volume.
pub proof fn law_volume_is_mounted_as_given(rootfs: Seq<char>, volume: Option<Seq<char>>)
    ensures
        ({
            let p = volume_plan(rootfs, volume);
            &&& forall|i: int|
                0 <= i < p.len() && (#[trigger] p[i]).op is Mount ==> volume is Some && p[i].op->Mount_source
                    == Some(volume->0) && p[i].op->Mount_target == volume_target(rootfs)
                    && p[i].op->Mount_flags.bind && p[i].op->Mount_flags.recursive
            &&& forall|i: int|
                0 <= i < p.len() && (#[trigger] p[i]).op is RequireExists && p[i].op->RequireExists_missing
                    == SetupError::VolumeMissing ==> volume is Some && p[i].op->RequireExists_path == volume->0
            &&& volume is Some ==> exists|c: int, m: int|
                0 <= c < m < p.len() && (#[trigger] p[c]).op == (OpView::RequireExists {
                    path: volume->0,
                    missing: SetupError::VolumeMissing,
                }) && (#[trigger] p[m]).op is Mount
        }),
{
    let p = volume_plan(rootfs, volume);
    if volume is Some {
        assert(p[3].op is Mount);
        assert(p[2].op == (OpView::RequireExists { path: volume->0, missing: SetupError::VolumeMissing }));
    }
}

} // verus!
