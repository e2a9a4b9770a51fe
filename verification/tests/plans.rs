use virli::cgroup::{CgroupBuilder, Controller};
use virli::chroot::{isolate_fs, isolate_pivot};
use virli::mounts::{mount_overlayfs, mount_sysfs, mount_volume, runtime_dir};
use virli::namespace::{generate_hostname, namespace_configure, setup_hostname, HOSTNAME_LENGTH};
use virli::plan::{failure_of, MountFlags, PlanRun, SetupError, Step, SysOp};

fn flag_names(f: &MountFlags) -> String {
    let mut names = Vec::new();
    if f.read_only {
        names.push("ro");
    }
    if f.no_suid {
        names.push("nosuid");
    }
    if f.no_dev {
        names.push("nodev");
    }
    if f.no_exec {
        names.push("noexec");
    }
    if f.bind {
        names.push("bind");
    }
    if f.recursive {
        names.push("rec");
    }
    if f.private {
        names.push("private");
    }
    names.join("|")
}

fn describe(step: &Step) -> String {
    let op = match &step.op {
        SysOp::Mount { source, target, fstype, flags, data } => format!(
            "mount {:?} {} {:?} [{}] {:?}",
            source,
            target,
            fstype,
            flag_names(flags),
            data
        ),
        SysOp::CreateDirAll { path } => format!("mkdir -p {}", path),
        SysOp::CreateDirAllIfMissing { path } => format!("mkdir -p? {}", path),
        SysOp::CreateDirIfMissing { path } => format!("mkdir? {}", path),
        SysOp::RequireExists { path, missing } => format!("require {} {:?}", path, missing),
        SysOp::Chroot { path } => format!("chroot {}", path),
        SysOp::PivotRoot { new_root, put_old } => format!("pivot_root {} {}", new_root, put_old),
        SysOp::Chdir { path } => format!("chdir {}", path),
        SysOp::UnmountDetach { path } => format!("umount -l {}", path),
        SysOp::RemoveDir { path } => format!("rmdir {}", path),
        SysOp::WriteFile { path, contents, create } => format!(
            "write{} {} {:?}",
            if *create { "+" } else { "" },
            path,
            String::from_utf8_lossy(contents)
        ),
        SysOp::Unshare { namespaces: n } => format!(
            "unshare user={} mount={} pid={} ipc={} net={} uts={} cgroup={}",
            n.user, n.mount, n.pid, n.ipc, n.net, n.uts, n.cgroup
        ),
        SysOp::SetDumpable => "dumpable".to_string(),
    };
    match &step.context {
        Some(c) => format!("{} ({})", op, c),
        None => op,
    }
}

fn describe_all(steps: &[Step]) -> Vec<String> {
    steps.iter().map(describe).collect()
}

#[test]
fn sysfs_mounts_pseudo_filesystems_under_rootfs() {
    let steps = mount_sysfs("/merged");
    assert_eq!(
        describe_all(&steps),
        vec![
            "mount None / None [rec|private] None",
            "mkdir -p? /merged/proc",
            "mount Some(\"proc\") /merged/proc Some(\"proc\") [] None",
            "mkdir -p? /merged/tmp",
            "mount Some(\"tmpfs\") /merged/tmp Some(\"tmpfs\") [nosuid|nodev] None",
            "mkdir -p? /merged/dev",
            "mount Some(\"tmpfs\") /merged/dev Some(\"tmpfs\") [nosuid|noexec] None",
            "mkdir -p? /merged/sys",
            "mount Some(\"sysfs\") /merged/sys Some(\"sysfs\") [ro|nosuid|nodev|noexec] None",
        ]
    );
}

#[test]
fn sysfs_paths_stay_inside_rootfs_with_trailing_slash() {
    let steps = mount_sysfs("/merged/");
    for (i, s) in describe_all(&steps).iter().enumerate().skip(1) {
        assert!(s.contains("/merged/"), "step {} leaves the root: {}", i, s);
        assert!(!s.contains("//"), "step {} doubles a separator: {}", i, s);
    }
}

#[test]
fn volume_without_path_only_prepares_mount_point() {
    let steps = mount_volume("/c", None);
    assert_eq!(
        describe_all(&steps),
        vec!["require /c RootfsMissing", "mkdir -p? /c/home/student"]
    );
}

#[test]
fn volume_is_bind_mounted_recursively() {
    let steps = mount_volume("/c", Some("/home/me/work"));
    assert_eq!(
        describe_all(&steps),
        vec![
            "require /c RootfsMissing",
            "mkdir -p? /c/home/student",
            "require /home/me/work VolumeMissing",
            "mount Some(\"/home/me/work\") /c/home/student None [bind|rec] None",
        ]
    );
}

#[test]
fn overlay_without_image_is_refused() {
    match mount_overlayfs(None, "/tmp/run") {
        Err(e) => {
            assert_eq!(e, SetupError::ImagePathMissing);
            assert_eq!(e.message(), "Image path not provided");
        }
        Ok(_) => panic!("an overlay without image was accepted"),
    }
}

#[test]
fn overlay_layers_image_under_runtime_dir() {
    let (steps, merged) = mount_overlayfs(Some("/images/alpine"), "/tmp/mymoulette_abc").unwrap();
    assert_eq!(merged, "/tmp/mymoulette_abc/merged");
    assert_eq!(
        describe_all(&steps),
        vec![
            "mkdir -p /tmp/mymoulette_abc/upper",
            "mkdir -p /tmp/mymoulette_abc/work",
            "mkdir -p /tmp/mymoulette_abc/merged",
            "mount Some(\"overlay\") /tmp/mymoulette_abc/merged Some(\"overlay\") [] Some(\"lowerdir=/images/alpine,upperdir=/tmp/mymoulette_abc/upper,workdir=/tmp/mymoulette_abc/work\") (OverlayFS mount failed)",
        ]
    );
}

#[test]
fn runtime_dir_is_named_after_hostname() {
    assert_eq!(runtime_dir("Ab3"), "/tmp/mymoulette_Ab3");
}

#[test]
fn setup_error_messages() {
    assert_eq!(SetupError::RootfsMissing.message(), "Root filesystem path does not exist");
    assert_eq!(SetupError::VolumeMissing.message(), "Volume path does not exist");
}

#[test]
fn pivot_root_plan() {
    let steps = isolate_pivot("/tmp/x/merged");
    assert_eq!(
        describe_all(&steps),
        vec![
            "mount None / None [rec|private] None (Cannot make mount private)",
            "mount Some(\"/tmp/x/merged\") /tmp/x/merged None [bind|rec] None (Cannot bind mount new root)",
            "mkdir? /tmp/x/merged/put_old",
            "pivot_root /tmp/x/merged /tmp/x/merged/put_old (Pivot root failed)",
            "chdir / (Chdir failed)",
            "umount -l /put_old (Umount old root failed)",
            "rmdir /put_old",
        ]
    );
}

#[test]
fn chroot_plan() {
    assert_eq!(describe_all(&isolate_fs("/r")), vec!["chroot /r", "chdir /"]);
}

#[test]
fn hostname_maps_bytes_onto_alphabet() {
    assert_eq!(generate_hostname(&[0, 25, 26, 51, 52, 61, 62, 255]), "azAZ09ah");
}

#[test]
fn hostname_is_alphanumeric_and_as_long_as_random() {
    let bytes: Vec<u8> = (0..HOSTNAME_LENGTH as u32).map(|i| (i * 37 + 11) as u8).collect();
    let name = generate_hostname(&bytes);
    assert_eq!(name.chars().count(), HOSTNAME_LENGTH);
    assert!(name.chars().all(|c| c.is_ascii_alphanumeric()));
}

#[test]
fn hostname_falls_back_without_randomness() {
    assert_eq!(setup_hostname(None), "mymoulette");
    assert_eq!(setup_hostname(Some(&[1, 2, 3])), "bcd");
}

#[test]
fn namespaces_map_root_to_caller() {
    let steps = namespace_configure(1000, 1001);
    assert_eq!(
        describe_all(&steps),
        vec![
            "unshare user=true mount=false pid=false ipc=false net=false uts=false cgroup=false",
            "dumpable",
            "write+ /proc/self/setgroups \"deny\" (write setgroups)",
            "write+ /proc/self/uid_map \"0 1000 1\\n\" (write uid_map)",
            "write+ /proc/self/gid_map \"0 1001 1\\n\" (write gid_map)",
            "unshare user=false mount=true pid=true ipc=true net=true uts=true cgroup=true",
        ]
    );
}

#[test]
fn id_map_renders_extreme_ids() {
    let steps = namespace_configure(0, u32::MAX);
    assert_eq!(describe(&steps[3]), "write+ /proc/self/uid_map \"0 0 1\\n\" (write uid_map)");
    assert_eq!(
        describe(&steps[4]),
        "write+ /proc/self/gid_map \"0 4294967295 1\\n\" (write gid_map)"
    );
}

#[test]
fn controller_names() {
    assert_eq!(Controller::Cpu.as_str(), "cpu");
    assert_eq!(Controller::CpuSet.as_str(), "cpuset");
    assert_eq!(Controller::Memory.as_str(), "memory");
    assert_eq!(Controller::Pids.as_str(), "pids");
}

#[test]
fn empty_builder_only_creates_directory() {
    let build = CgroupBuilder::new("box").build();
    assert_eq!(describe_all(&build.steps), vec!["mkdir -p /sys/fs/cgroup/box"]);
    assert_eq!(build.built.name(), "box");
}

#[test]
fn limits_enable_controllers_and_are_written() {
    let build = CgroupBuilder::new("mymoulette")
        .memory_limit("1073741824".as_bytes())
        .cpu_limit("100000 100000".as_bytes())
        .pids_limit("100".as_bytes())
        .build();
    assert_eq!(
        describe_all(&build.steps),
        vec![
            "write /sys/fs/cgroup/cgroup.subtree_control \"+memory\"",
            "write /sys/fs/cgroup/cgroup.subtree_control \"+cpu\"",
            "write /sys/fs/cgroup/cgroup.subtree_control \"+cpuset\"",
            "write /sys/fs/cgroup/cgroup.subtree_control \"+pids\"",
            "mkdir -p /sys/fs/cgroup/mymoulette",
            "write /sys/fs/cgroup/mymoulette/cpu.max \"100000 100000\"",
            "write /sys/fs/cgroup/mymoulette/memory.max \"1073741824\"",
            "write /sys/fs/cgroup/mymoulette/pids.max \"100\"",
        ]
    );
}

#[test]
fn task_is_placed_before_limits() {
    let build = CgroupBuilder::new("g").pids_limit("7".as_bytes()).add_task(4242).build();
    assert_eq!(
        describe_all(&build.steps),
        vec![
            "write /sys/fs/cgroup/cgroup.subtree_control \"+pids\"",
            "mkdir -p /sys/fs/cgroup/g",
            "write /sys/fs/cgroup/g/cgroup.procs \"4242\"",
            "write /sys/fs/cgroup/g/pids.max \"7\"",
        ]
    );
}

#[test]
fn rebuilt_group_only_gets_the_task() {
    let first = CgroupBuilder::new("mymoulette")
        .memory_limit("1".as_bytes())
        .cpu_limit("2".as_bytes())
        .build();
    let second = first.built.add_task(0).build();
    assert_eq!(
        describe_all(&second.steps),
        vec![
            "mkdir -p /sys/fs/cgroup/mymoulette",
            "write /sys/fs/cgroup/mymoulette/cgroup.procs \"0\"",
        ]
    );
}

#[test]
fn cleanup_removes_group_directory() {
    let b = CgroupBuilder::new("mymoulette");
    assert_eq!(describe(&b.cleanup()), "rmdir /sys/fs/cgroup/mymoulette");
}

fn run_with(steps: &Vec<Step>, outcomes: &[Result<(), &str>]) -> (Vec<usize>, Result<(), String>) {
    let mut run = PlanRun::new();
    let mut performed = Vec::new();
    let mut k = 0;
    while let Some(i) = run.next(steps) {
        performed.push(i);
        let outcome = outcomes.get(k).copied().unwrap_or(Ok(())).map_err(|e| e.to_string());
        k += 1;
        run.record(steps, outcome);
    }
    (performed, run.finish())
}

#[test]
fn plan_runs_every_step_in_order() {
    let steps = isolate_pivot("/n");
    let (performed, result) = run_with(&steps, &[]);
    assert_eq!(performed, (0..steps.len()).collect::<Vec<_>>());
    assert_eq!(result, Ok(()));
}

#[test]
fn plan_stops_at_first_failure_with_context() {
    let steps = isolate_pivot("/n");
    let (performed, result) = run_with(&steps, &[Ok(()), Ok(()), Ok(()), Err("EINVAL")]);
    assert_eq!(performed, vec![0, 1, 2, 3]);
    assert_eq!(result, Err("Pivot root failed: EINVAL".to_string()));
    let (performed, result) = run_with(&steps, &[Ok(()), Ok(()), Err("EEXIST")]);
    assert_eq!(performed, vec![0, 1, 2]);
    assert_eq!(result, Err("EEXIST".to_string()));
}

#[test]
fn recording_after_failure_changes_nothing() {
    let steps = mount_sysfs("/r");
    let mut run = PlanRun::new();
    run.record(&steps, Err("boom".to_string()));
    assert_eq!(run.next(&steps), None);
    run.record(&steps, Ok(()));
    assert_eq!(run.finish(), Err("boom".to_string()));
    assert_eq!(failure_of(&isolate_pivot("/n")[4], "ENOENT"), "Chdir failed: ENOENT");
}
