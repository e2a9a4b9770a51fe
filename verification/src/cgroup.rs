//! Control groups: a builder that gathers limits and the task to place, and
//! the writes under `/sys/fs/cgroup` that apply them.

use vstd::prelude::*;
use vstd::slice::slice_to_vec;
use vstd::utf8::encode_utf8;
use crate::plan::{bare, plan_view, step, OpView, Step, StepView, SysOp};
use crate::text::{decimal, owned, push_decimal};

verus! {

/// A cgroup v2 controller.
#[derive(Clone, Copy, Debug, PartialEq, Eq, Structural)]
pub enum Controller {
    Cpu,
    CpuSet,
    Memory,
    Pids,
}

/// The name of each controller.
pub open spec fn controller_name(c: Controller) -> Seq<char> {
    match c {
        Controller::CpuSet => "cpuset"@,
        Controller::Cpu => "cpu"@,
        Controller::Memory => "memory"@,
        Controller::Pids => "pids"@,
    }
}

impl Controller {
    /// The controller's name.
    pub fn as_str(&self) -> (res: &'static str)
        ensures
            res@ == controller_name(*self),
    {
        match self {
            Controller::CpuSet => "cpuset",
            Controller::Cpu => "cpu",
            Controller::Memory => "memory",
            Controller::Pids => "pids",
        }
    }
}

/// Builder for creating and configuring cgroups.
///
/// This builder allows setting limits for specific controllers
/// and assigning a process to the created cgroup.
pub struct CgroupBuilder<'a> {
    name: &'a str,
    memory_limit: Option<&'a [u8]>,
    cpu_limit: Option<&'a [u8]>,
    pids_limit: Option<&'a [u8]>,
    controller: Vec<Controller>,
    pids: Option<u32>,
}

/// A cgroup builder over plain values.
pub struct CgroupView {
    pub name: Seq<char>,
    pub memory_limit: Option<Seq<u8>>,
    pub cpu_limit: Option<Seq<u8>>,
    pub pids_limit: Option<Seq<u8>>,
    pub controllers: Seq<Controller>,
    pub pids: Option<u32>,
}

/// The bytes of an optional byte slice.
pub open spec fn opt_bytes(o: Option<&[u8]>) -> Option<Seq<u8>> {
    match o {
        Some(b) => Some(b@),
        None => None,
    }
}

impl<'a> View for CgroupBuilder<'a> {
    type V = CgroupView;

    closed spec fn view(&self) -> CgroupView {
        CgroupView {
            name: self.name@,
            memory_limit: opt_bytes(self.memory_limit),
            cpu_limit: opt_bytes(self.cpu_limit),
            pids_limit: opt_bytes(self.pids_limit),
            controllers: self.controller@,
            pids: self.pids,
        }
    }
}

/// A builder with a name and nothing else.
pub open spec fn fresh(name: Seq<char>) -> CgroupView {
    CgroupView {
        name,
        memory_limit: None,
        cpu_limit: None,
        pids_limit: None,
        controllers: Seq::empty(),
        pids: None,
    }
}

/// Where the controllers of the children of the root cgroup are enabled.
pub open spec fn subtree_control_path() -> Seq<char> {
    "/sys/fs/cgroup/cgroup.subtree_control"@
}

/// The directory of the cgroup `name`.
pub open spec fn cgroup_dir(name: Seq<char>) -> Seq<char> {
    "/sys/fs/cgroup"@ + "/"@ + name
}

/// The interface file `file` of the cgroup `name`.
pub open spec fn cgroup_file(name: Seq<char>, file: Seq<char>) -> Seq<char> {
    cgroup_dir(name) + "/"@ + file
}

/// Writes `data` to an existing file.
pub open spec fn write_existing(path: Seq<char>, data: Seq<u8>) -> StepView {
    bare(OpView::WriteFile { path, contents: data, create: false })
}

/// Enabling one controller for the children of the root cgroup.
pub open spec fn enable_step(c: Controller) -> StepView {
    write_existing(subtree_control_path(), encode_utf8("+"@ + controller_name(c)))
}

/// Writing `value`, when there is one, to the interface file `file`.
pub open spec fn optional_write(name: Seq<char>, file: Seq<char>, value: Option<Seq<u8>>) -> Seq<StepView> {
    match value {
        Some(data) => seq![write_existing(cgroup_file(name, file), data)],
        None => Seq::empty(),
    }
}

/// What `build` does: enable each requested controller in order, create the
/// cgroup's directory, place the task, then write the cpu, memory and pids
/// limits that were set.
pub open spec fn build_plan(b: CgroupView) -> Seq<StepView> {
    b.controllers.map_values(|c: Controller| enable_step(c))
        + seq![bare(OpView::CreateDirAll { path: cgroup_dir(b.name) })]
        + optional_write(b.name, "cgroup.procs"@, match b.pids {
            Some(pid) => Some(encode_utf8(decimal(pid as nat))),
            None => None,
        })
        + optional_write(b.name, "cpu.max"@, b.cpu_limit)
        + optional_write(b.name, "memory.max"@, b.memory_limit)
        + optional_write(b.name, "pids.max"@, b.pids_limit)
}

/// The steps that apply a builder, and the builder that remains once they
/// all succeeded.
pub struct CgroupBuild<'a> {
    pub steps: Vec<Step>,
    pub built: CgroupBuilder<'a>,
}

/// The UTF-8 bytes of `s`.
fn utf8_of(s: &String) -> (res: Vec<u8>)
    ensures
        res@ == encode_utf8(s@),
{
    slice_to_vec(s.as_str().as_bytes())
}

/// Appends the write of `value` to `dir/file`, when there is a value.
fn push_optional_write(steps: &mut Vec<Step>, name: &str, file: &str, value: Option<&[u8]>)
    ensures
        plan_view(final(steps)@) == plan_view(old(steps)@) + optional_write(name@, file@, opt_bytes(value)),
{
    match value {
        Some(data) => {
            steps.push(
                step(SysOp::WriteFile { path: cgroup_file_path(name, file), contents: slice_to_vec(data), create: false }),
            );
            assert(plan_view(final(steps)@) =~= plan_view(old(steps)@) + optional_write(name@, file@, opt_bytes(value)));
        },
        None => {
            assert(plan_view(final(steps)@) =~= plan_view(old(steps)@) + optional_write(name@, file@, opt_bytes(value)));
        },
    }
}

/// The directory of the cgroup `name`.
pub fn cgroup_dir_path(name: &str) -> (res: String)
    ensures
        res@ == cgroup_dir(name@),
{
    let mut path = owned("/sys/fs/cgroup");
    path.append("/");
    path.append(name);
    path
}

/// The interface file `file` of the cgroup `name`.
pub fn cgroup_file_path(name: &str, file: &str) -> (res: String)
    ensures
        res@ == cgroup_file(name@, file@),
{
    let mut path = cgroup_dir_path(name);
    path.append("/");
    path.append(file);
    path
}

impl<'a> CgroupBuilder<'a> {
    /// Creates a new `CgroupBuilder` with the given cgroup name.
    pub fn new(name: &'a str) -> (res: Self)
        ensures
            res@ == fresh(name@),
    {
        CgroupBuilder {
            name: name,
            memory_limit: None,
            cpu_limit: None,
            pids_limit: None,
            controller: Vec::new(),
            pids: None,
        }
    }

    /// Sets the memory limit for the cgroup.
    ///
    /// Also enables the memory controller.
    pub fn memory_limit(self, limit: &'a [u8]) -> (res: Self)
        ensures
            res@ == (CgroupView {
                memory_limit: Some(limit@),
                controllers: self@.controllers.push(Controller::Memory),
                ..self@
            }),
    {
        let mut b = self;
        b.memory_limit = Some(limit);
        b.controller.push(Controller::Memory);
        b
    }

    /// Sets the CPU usage limit for the cgroup.
    ///
    /// Also enables the cpu and cpuset controllers.
    pub fn cpu_limit(self, limit: &'a [u8]) -> (res: Self)
        ensures
            res@ == (CgroupView {
                cpu_limit: Some(limit@),
                controllers: self@.controllers.push(Controller::Cpu).push(Controller::CpuSet),
                ..self@
            }),
    {
        let mut b = self;
        b.cpu_limit = Some(limit);
        b.controller.push(Controller::Cpu);
        b.controller.push(Controller::CpuSet);
        b
    }

    /// Sets the maximum number of PIDs for the cgroup.
    ///
    /// Also enables the pids controller.
    pub fn pids_limit(self, limit: &'a [u8]) -> (res: Self)
        ensures
            res@ == (CgroupView {
                pids_limit: Some(limit@),
                controllers: self@.controllers.push(Controller::Pids),
                ..self@
            }),
    {
        let mut b = self;
        b.pids_limit = Some(limit);
        b.controller.push(Controller::Pids);
        b
    }

    /// Sets the given PID to be added to the cgroup.
    pub fn add_task(self, pid: u32) -> (res: Self)
        ensures
            res@ == (CgroupView { pids: Some(pid), ..self@ }),
    {
        let mut b = self;
        b.pids = Some(pid);
        b
    }

    /// The cgroup's name.
    pub fn name(&self) -> (res: &'a str)
        ensures
            res@ == self@.name,
    {
        self.name
    }

    /// Builds the cgroup: the steps that enable the necessary controllers in
    /// the cgroup root, create the cgroup directory, add the process to the
    /// cgroup and apply the CPU, memory and PID limits that were set; and the
    /// builder that is left once they succeeded, which keeps only the name.
    pub fn build(self) -> (res: CgroupBuild<'a>)
        ensures
            plan_view(res.steps@) == build_plan(self@),
            res.built@ == fresh(self@.name),
    {
        let mut steps: Vec<Step> = Vec::new();
        let mut i: usize = 0;
        while i < self.controller.len()
            invariant
                i <= self.controller@.len(),
                plan_view(steps@) == self.controller@.subrange(0, i as int).map_values(
                    |c: Controller| enable_step(c),
                ),
            decreases self.controller.len() - i,
        {
            let c = self.controller[i];
            let mut directive = owned("+");
            directive.append(c.as_str());
            let s = step(
                SysOp::WriteFile {
                    path: owned("/sys/fs/cgroup/cgroup.subtree_control"),
                    contents: utf8_of(&directive),
                    create: false,
                },
            );
            assert(s@ == enable_step(self.controller@[i as int]));
            let ghost before = plan_view(steps@);
            steps.push(s);
            assert(plan_view(steps@) =~= before.push(enable_step(self.controller@[i as int])));
            assert(plan_view(steps@) =~= self.controller@.subrange(0, i + 1).map_values(
                |c: Controller| enable_step(c),
            ));
            i = i + 1;
        }
        assert(self.controller@.subrange(0, i as int) =~= self.controller@);
        let ghost enabled = plan_view(steps@);
        steps.push(step(SysOp::CreateDirAll { path: cgroup_dir_path(self.name) }));
        assert(plan_view(steps@) =~= enabled + seq![bare(OpView::CreateDirAll { path: cgroup_dir(self@.name) })]);
        let ghost created = plan_view(steps@);
        match self.pids {
            Some(pid) => {
                let mut text = String::new();
                push_decimal(&mut text, pid);
                steps.push(
                    step(
                        SysOp::WriteFile {
                            path: cgroup_file_path(self.name, "cgroup.procs"),
                            contents: utf8_of(&text),
                            create: false,
                        },
                    ),
                );
                assert(text@ =~= decimal(pid as nat));
            },
            None => {},
        }
        assert(plan_view(steps@) =~= created + optional_write(self@.name, "cgroup.procs"@, match self@.pids {
            Some(pid) => Some(encode_utf8(decimal(pid as nat))),
            None => None,
        }));
        push_optional_write(&mut steps, self.name, "cpu.max", self.cpu_limit);
        push_optional_write(&mut steps, self.name, "memory.max", self.memory_limit);
        push_optional_write(&mut steps, self.name, "pids.max", self.pids_limit);
        CgroupBuild { steps, built: CgroupBuilder::new(self.name) }
    }

    /// The step that removes the cgroup's directory.
    pub fn cleanup(&self) -> (res: Step)
        ensures
            res@ == bare(OpView::RemoveDir { path: cgroup_dir(self@.name) }),
    {
        step(SysOp::RemoveDir { path: cgroup_dir_path(self.name) })
    }
}

/// Building the builder that `build` leaves, once a task is added to it,
/// only creates the cgroup's directory and places the task: no controller is
/// enabled and no limit written again.
pub proof fn law_rebuild_places_only_the_task(b: CgroupView, pid: u32)
    ensures
        build_plan(CgroupView { pids: Some(pid), ..fresh(b.name) }) == seq![
            bare(OpView::CreateDirAll { path: cgroup_dir(b.name) }),
            write_existing(cgroup_file(b.name, "cgroup.procs"@), encode_utf8(decimal(pid as nat))),
        ],
{
    let v = CgroupView { pids: Some(pid), ..fresh(b.name) };
    assert(v.controllers.map_values(|c: Controller| enable_step(c)) =~= Seq::<StepView>::empty());
    assert(build_plan(v) =~= seq![
        bare(OpView::CreateDirAll { path: cgroup_dir(b.name) }),
        write_existing(cgroup_file(b.name, "cgroup.procs"@), encode_utf8(decimal(pid as nat))),
    ]);
}

/// Whether `s` writes to the file at `path`.
pub open spec fn writes_to(s: StepView, path: Seq<char>) -> bool {
    s.op matches OpView::WriteFile { path: p, .. } && p == path
}

/// The path of the interface file `file` of the cgroup `name`, spelled out.
pub open spec fn interface_file(name: Seq<char>, file: Seq<char>) -> Seq<char> {
    "/sys/fs/cgroup/"@ + name + "/"@ + file
}

/// Whether the limit `value` reaches the file at `path` in `plan`: when a
/// limit is set, the plan writes exactly it there, in place and without
/// creating the file; every write there writes that limit; and without a
/// limit nothing is written there.
pub open spec fn limit_applied(plan: Seq<StepView>, path: Seq<char>, value: Option<Seq<u8>>) -> bool {
    &&& (value matches Some(data) ==> exists|i: int|
        0 <= i < plan.len() && #[trigger] plan[i] == (StepView {
            op: OpView::WriteFile { path, contents: data, create: false },
            context: None,
        }))
    &&& forall|i: int|
        0 <= i < plan.len() && writes_to(#[trigger] plan[i], path) ==> (value matches Some(data)
            && plan[i].op->WriteFile_contents == data)
}

proof fn lemma_interface_file_last(name: Seq<char>, file: Seq<char>)
    requires
        file.len() > 0,
    ensures
        interface_file(name, file).len() == 16 + name.len() + file.len(),
        interface_file(name, file).last() == file.last(),
{
    reveal_strlit("/sys/fs/cgroup/");
    reveal_strlit("/");
}

/// Each limit set on the builder is written, exactly as given, to its own
/// interface file of the cgroup, whatever the other limits are; a limit that
/// is not set is never written.
pub proof fn law_limits_are_written(b: CgroupView)
    ensures
        limit_applied(build_plan(b), interface_file(b.name, "cpu.max"@), b.cpu_limit),
        limit_applied(build_plan(b), interface_file(b.name, "memory.max"@), b.memory_limit),
        limit_applied(build_plan(b), interface_file(b.name, "pids.max"@), b.pids_limit),
{
    reveal_strlit("cpu.max");
    reveal_strlit("memory.max");
    reveal_strlit("pids.max");
    reveal_strlit("cgroup.procs");
    reveal_strlit("/sys/fs/cgroup/cgroup.subtree_control");
    reveal_strlit("/sys/fs/cgroup");
    reveal_strlit("/sys/fs/cgroup/");
    reveal_strlit("/");
    let cpu = interface_file(b.name, "cpu.max"@);
    let mem = interface_file(b.name, "memory.max"@);
    let pids = interface_file(b.name, "pids.max"@);
    let procs = interface_file(b.name, "cgroup.procs"@);
    lemma_interface_file_last(b.name, "cpu.max"@);
    lemma_interface_file_last(b.name, "memory.max"@);
    lemma_interface_file_last(b.name, "pids.max"@);
    lemma_interface_file_last(b.name, "cgroup.procs"@);
    assert(cgroup_file(b.name, "cpu.max"@) =~= cpu);
    assert(cgroup_file(b.name, "memory.max"@) =~= mem);
    assert(cgroup_file(b.name, "pids.max"@) =~= pids);
    assert(cgroup_file(b.name, "cgroup.procs"@) =~= procs);
    let sub = subtree_control_path();
    assert(sub.last() == 'l');
    assert(cpu != sub && mem != sub && pids != sub);
    assert(cpu != procs && mem != procs && pids != procs);
    assert(cpu != mem && cpu != pids && mem != pids);
    let enable = b.controllers.map_values(|c: Controller| enable_step(c));
    let create = seq![bare(OpView::CreateDirAll { path: cgroup_dir(b.name) })];
    let place = optional_write(b.name, "cgroup.procs"@, match b.pids {
        Some(pid) => Some(encode_utf8(decimal(pid as nat))),
        None => None,
    });
    let wc = optional_write(b.name, "cpu.max"@, b.cpu_limit);
    let wm = optional_write(b.name, "memory.max"@, b.memory_limit);
    let wp = optional_write(b.name, "pids.max"@, b.pids_limit);
    let head = enable + create + place;
    let plan = build_plan(b);
    assert(plan =~= head + wc + wm + wp);
    assert forall|i: int| 0 <= i < head.len() implies !writes_to(#[trigger] head[i], cpu) && !writes_to(
        head[i],
        mem,
    ) && !writes_to(head[i], pids) by {
        if i < enable.len() {
            assert(head[i] == enable[i]);
        } else if i < enable.len() + 1 {
            assert(head[i] == create[i - enable.len()]);
        } else {
            assert(head[i] == place[i - enable.len() - 1]);
        }
    }
    let hl = head.len() as int;
    let cl = wc.len() as int;
    let ml = wm.len() as int;
    assert forall|i: int| 0 <= i < plan.len() implies (#[trigger] plan[i] == (if i < hl {
        head[i]
    } else if i < hl + cl {
        wc[i - hl]
    } else if i < hl + cl + ml {
        wm[i - hl - cl]
    } else {
        wp[i - hl - cl - ml]
    })) by {}
    if b.cpu_limit is Some {
        assert(plan[hl] == wc[0]);
    }
    if b.memory_limit is Some {
        assert(plan[hl + cl] == wm[0]);
    }
    if b.pids_limit is Some {
        assert(plan[hl + cl + ml] == wp[0]);
    }
}

} // verus!
