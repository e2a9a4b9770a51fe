//! The system operations that setting up a container performs, as plain data.
//! The library decides which operations run, in which order and on which
//! paths; the program around it performs them one by one and stops at the
//! first failure, as `PlanRun` records.

use vstd::prelude::*;

verus! {

/// Mount flags, one field per kernel flag that the container setup uses.
#[derive(Clone, Copy, Debug)]
pub struct MountFlags {
    pub read_only: bool,
    pub no_suid: bool,
    pub no_dev: bool,
    pub no_exec: bool,
    pub bind: bool,
    pub recursive: bool,
    pub private: bool,
}

/// No flag set.
pub open spec fn no_flags() -> MountFlags {
    MountFlags {
        read_only: false,
        no_suid: false,
        no_dev: false,
        no_exec: false,
        bind: false,
        recursive: false,
        private: false,
    }
}

impl MountFlags {
    /// No flag set.
    pub fn empty() -> (res: MountFlags)
        ensures
            res == no_flags(),
    {
        MountFlags {
            read_only: false,
            no_suid: false,
            no_dev: false,
            no_exec: false,
            bind: false,
            recursive: false,
            private: false,
        }
    }
}

/// The namespaces that one `unshare` call asks for.
#[derive(Clone, Copy, Debug)]
pub struct Namespaces {
    pub user: bool,
    pub mount: bool,
    pub pid: bool,
    pub ipc: bool,
    pub net: bool,
    pub uts: bool,
    pub cgroup: bool,
}

/// Errors that a setup step reports by itself, apart from the system's own.
#[derive(Clone, Copy, Debug, PartialEq, Eq, Structural)]
pub enum SetupError {
    /// The root filesystem of the container is missing.
    RootfsMissing,
    /// The directory to attach as a volume is missing.
    VolumeMissing,
    /// No image directory was given for the overlay.
    ImagePathMissing,
}

impl SetupError {
    /// The message that the error is reported with.
    pub fn message(&self) -> (res: &'static str)
        ensures
            res@ == setup_error_message(*self),
    {
        match self {
            SetupError::RootfsMissing => "Root filesystem path does not exist",
            SetupError::VolumeMissing => "Volume path does not exist",
            SetupError::ImagePathMissing => "Image path not provided",
        }
    }
}

/// The message of each setup error.
pub open spec fn setup_error_message(e: SetupError) -> Seq<char> {
    match e {
        SetupError::RootfsMissing => "Root filesystem path does not exist"@,
        SetupError::VolumeMissing => "Volume path does not exist"@,
        SetupError::ImagePathMissing => "Image path not provided"@,
    }
}

/// One system operation.
pub enum SysOp {
    /// `mount(source, target, fstype, flags, data)`.
    Mount {
        source: Option<String>,
        target: String,
        fstype: Option<String>,
        flags: MountFlags,
        data: Option<String>,
    },
    /// Creates a directory and its missing parents.
    CreateDirAll { path: String },
    /// Creates a directory and its missing parents, unless the path exists.
    CreateDirAllIfMissing { path: String },
    /// Creates one directory, unless the path exists.
    CreateDirIfMissing { path: String },
    /// Fails with `missing` when the path does not exist.
    RequireExists { path: String, missing: SetupError },
    /// `chroot(path)`.
    Chroot { path: String },
    /// `pivot_root(new_root, put_old)`.
    PivotRoot { new_root: String, put_old: String },
    /// `chdir(path)`.
    Chdir { path: String },
    /// Lazily unmounts `path` (`MNT_DETACH`).
    UnmountDetach { path: String },
    /// Removes an empty directory.
    RemoveDir { path: String },
    /// Writes `contents` to the file at `path`; `create` says whether the file is
    /// created (and truncated) or must already exist.
    WriteFile { path: String, contents: Vec<u8>, create: bool },
    /// `unshare` with the given namespaces.
    Unshare { namespaces: Namespaces },
    /// Sets the process's dumpable flag to 1.
    SetDumpable,
}

/// A system operation, with the context that its failure is reported in.
pub struct Step {
    pub op: SysOp,
    pub context: Option<String>,
}

/// A system operation over plain values.
pub enum OpView {
    Mount {
        source: Option<Seq<char>>,
        target: Seq<char>,
        fstype: Option<Seq<char>>,
        flags: MountFlags,
        data: Option<Seq<char>>,
    },
    CreateDirAll { path: Seq<char> },
    CreateDirAllIfMissing { path: Seq<char> },
    CreateDirIfMissing { path: Seq<char> },
    RequireExists { path: Seq<char>, missing: SetupError },
    Chroot { path: Seq<char> },
    PivotRoot { new_root: Seq<char>, put_old: Seq<char> },
    Chdir { path: Seq<char> },
    UnmountDetach { path: Seq<char> },
    RemoveDir { path: Seq<char> },
    WriteFile { path: Seq<char>, contents: Seq<u8>, create: bool },
    Unshare { namespaces: Namespaces },
    SetDumpable,
}

/// A step over plain values.
pub struct StepView {
    pub op: OpView,
    pub context: Option<Seq<char>>,
}

/// The characters of an optional string.
pub open spec fn opt_chars(o: Option<String>) -> Option<Seq<char>> {
    match o {
        Some(s) => Some(s@),
        None => None,
    }
}

impl View for SysOp {
    type V = OpView;

    open spec fn view(&self) -> OpView {
        match self {
            SysOp::Mount { source, target, fstype, flags, data } => OpView::Mount {
                source: opt_chars(*source),
                target: target@,
                fstype: opt_chars(*fstype),
                flags: *flags,
                data: opt_chars(*data),
            },
            SysOp::CreateDirAll { path } => OpView::CreateDirAll { path: path@ },
            SysOp::CreateDirAllIfMissing { path } => OpView::CreateDirAllIfMissing { path: path@ },
            SysOp::CreateDirIfMissing { path } => OpView::CreateDirIfMissing { path: path@ },
            SysOp::RequireExists { path, missing } => OpView::RequireExists {
                path: path@,
                missing: *missing,
            },
            SysOp::Chroot { path } => OpView::Chroot { path: path@ },
            SysOp::PivotRoot { new_root, put_old } => OpView::PivotRoot {
                new_root: new_root@,
                put_old: put_old@,
            },
            SysOp::Chdir { path } => OpView::Chdir { path: path@ },
            SysOp::UnmountDetach { path } => OpView::UnmountDetach { path: path@ },
            SysOp::RemoveDir { path } => OpView::RemoveDir { path: path@ },
            SysOp::WriteFile { path, contents, create } => OpView::WriteFile {
                path: path@,
                contents: contents@,
                create: *create,
            },
            SysOp::Unshare { namespaces } => OpView::Unshare { namespaces: *namespaces },
            SysOp::SetDumpable => OpView::SetDumpable,
        }
    }
}

impl View for Step {
    type V = StepView;

    open spec fn view(&self) -> StepView {
        StepView { op: self.op@, context: opt_chars(self.context) }
    }
}

/// A sequence of steps over plain values.
pub open spec fn plan_view(steps: Seq<Step>) -> Seq<StepView> {
    steps.map_values(|s: Step| s@)
}

/// A step without context.
pub open spec fn bare(op: OpView) -> StepView {
    StepView { op, context: None }
}

/// A step whose failure is reported under `context`.
pub open spec fn within(op: OpView, context: Seq<char>) -> StepView {
    StepView { op, context: Some(context) }
}

/// A step without context.
pub fn step(op: SysOp) -> (res: Step)
    ensures
        res@ == bare(op@),
{
    Step { op, context: None }
}

/// A step whose failure is reported under `context`.
pub fn step_within(op: SysOp, context: &str) -> (res: Step)
    ensures
        res@ == within(op@, context@),
{
    Step { op, context: Some(crate::text::owned(context)) }
}

/// The path that a step creates, mounts on, writes or removes, if any.
pub open spec fn changed_path(op: OpView) -> Option<Seq<char>> {
    match op {
        OpView::Mount { target, .. } => Some(target),
        OpView::CreateDirAll { path } => Some(path),
        OpView::CreateDirAllIfMissing { path } => Some(path),
        OpView::CreateDirIfMissing { path } => Some(path),
        OpView::RemoveDir { path } => Some(path),
        OpView::WriteFile { path, .. } => Some(path),
        _ => None,
    }
}

/// Whether every step from the `from`-th on changes only paths under `root`.
pub open spec fn changes_only_under(plan: Seq<StepView>, from: int, root: Seq<char>) -> bool {
    forall|i: int|
        from <= i < plan.len() ==> (changed_path(#[trigger] plan[i].op) matches Some(p) ==> root.is_prefix_of(p))
}

/// The message of a failed step: the error within the step's context.
pub open spec fn failure_message(context: Option<Seq<char>>, error: Seq<char>) -> Seq<char> {
    match context {
        Some(c) => c + ": "@ + error,
        None => error,
    }
}

/// How the run of a plan stands: how many of its steps succeeded, and the
/// failure of the step after them, if it failed.
pub struct RunView {
    pub succeeded: nat,
    pub failure: Option<Seq<char>>,
}

/// The step to perform next: the one after those that succeeded, unless a
/// step failed or the plan is over.
pub open spec fn next_step(plan: Seq<StepView>, r: RunView) -> Option<nat> {
    if r.failure is None && r.succeeded < plan.len() {
        Some(r.succeeded)
    } else {
        None
    }
}

/// The run after the outcome of the step to perform next: success (`None`)
/// or an error (`Some`). Without a step to perform, nothing changes.
pub open spec fn record_outcome(plan: Seq<StepView>, r: RunView, outcome: Option<Seq<char>>) -> RunView {
    match next_step(plan, r) {
        None => r,
        Some(i) => match outcome {
            None => RunView { succeeded: i + 1, failure: None },
            Some(e) => RunView { succeeded: i, failure: Some(failure_message(plan[i as int].context, e)) },
        },
    }
}

/// The run of `plan` after the outcomes of its steps, in order.
pub open spec fn run_plan(plan: Seq<StepView>, outcomes: Seq<Option<Seq<char>>>) -> RunView
    decreases outcomes.len(),
{
    if outcomes.len() == 0 {
        RunView { succeeded: 0, failure: None }
    } else {
        record_outcome(plan, run_plan(plan, outcomes.drop_last()), outcomes.last())
    }
}

/// The run of a plan, performed by the caller one step at a time: it asks
/// for the next step, performs it, and records the outcome.
pub struct PlanRun {
    succeeded: usize,
    failure: Option<String>,
}

impl View for PlanRun {
    type V = RunView;

    closed spec fn view(&self) -> RunView {
        RunView { succeeded: self.succeeded as nat, failure: opt_chars(self.failure) }
    }
}

/// The failure of `step` with `error`.
pub fn failure_of(step: &Step, error: &str) -> (res: String)
    ensures
        res@ == failure_message(step@.context, error@),
{
    match &step.context {
        Some(c) => {
            let mut m = c.clone();
            m.append(": ");
            m.append(error);
            m
        },
        None => crate::text::owned(error),
    }
}

impl PlanRun {
    /// A run in which nothing happened yet.
    pub fn new() -> (res: Self)
        ensures
            res@ == (RunView { succeeded: 0, failure: None }),
    {
        PlanRun { succeeded: 0, failure: None }
    }

    /// The index of the step of `plan` to perform next, if any.
    pub fn next(&self, plan: &Vec<Step>) -> (res: Option<usize>)
        ensures
            match next_step(plan_view(plan@), self@) {
                Some(i) => res == Some(i as usize),
                None => res is None,
            },
    {
        if self.failure.is_none() && self.succeeded < plan.len() {
            Some(self.succeeded)
        } else {
            None
        }
    }

    /// Records the outcome of the step to perform next.
    pub fn record(&mut self, plan: &Vec<Step>, outcome: Result<(), String>)
        ensures
            final(self)@ == record_outcome(
                plan_view(plan@),
                old(self)@,
                match outcome {
                    Ok(_) => None,
                    Err(e) => Some(e@),
                },
            ),
    {
        if self.failure.is_none() && self.succeeded < plan.len() {
            match outcome {
                Ok(_) => {
                    self.succeeded = self.succeeded + 1;
                },
                Err(e) => {
                    let f = failure_of(&plan[self.succeeded], e.as_str());
                    self.failure = Some(f);
                },
            }
        }
    }

    /// How the run ended: `Ok` unless a step failed, and then its failure.
    pub fn finish(self) -> (res: Result<(), String>)
        ensures
            match self@.failure {
                None => res is Ok,
                Some(f) => res matches Err(e) && e@ == f,
            },
    {
        match self.failure {
            None => Ok(()),
            Some(f) => Err(f),
        }
    }
}

proof fn lemma_run_plan_push(plan: Seq<StepView>, outcomes: Seq<Option<Seq<char>>>, o: Option<Seq<char>>)
    ensures
        run_plan(plan, outcomes.push(o)) == record_outcome(plan, run_plan(plan, outcomes), o),
{
    assert(outcomes.push(o).drop_last() =~= outcomes);
}

/// Running the first `k` outcomes, all successes, performs the first `k`
/// steps.
proof fn lemma_successes(plan: Seq<StepView>, outcomes: Seq<Option<Seq<char>>>, k: nat)
    requires
        k <= plan.len(),
        k <= outcomes.len(),
        forall|i: int| 0 <= i < k ==> outcomes[i] is None,
    ensures
        run_plan(plan, outcomes.subrange(0, k as int)) == (RunView { succeeded: k, failure: None }),
    decreases k,
{
    if k > 0 {
        let j = (k - 1) as nat;
        lemma_successes(plan, outcomes, j);
        assert(outcomes.subrange(0, k as int) =~= outcomes.subrange(0, j as int).push(outcomes[j as int]));
        lemma_run_plan_push(plan, outcomes.subrange(0, j as int), outcomes[j as int]);
    } else {
        assert(outcomes.subrange(0, 0) =~= Seq::<Option<Seq<char>>>::empty());
    }
}

/// Once a step failed, later outcomes change nothing.
proof fn lemma_failure_sticks(plan: Seq<StepView>, outcomes: Seq<Option<Seq<char>>>, k: nat)
    requires
        k <= outcomes.len(),
        run_plan(plan, outcomes.subrange(0, k as int)).failure is Some,
    ensures
        run_plan(plan, outcomes) == run_plan(plan, outcomes.subrange(0, k as int)),
    decreases outcomes.len() - k,
{
    if k < outcomes.len() {
        assert(outcomes.subrange(0, k + 1 as int) =~= outcomes.subrange(0, k as int).push(outcomes[k as int]));
        lemma_run_plan_push(plan, outcomes.subrange(0, k as int), outcomes[k as int]);
        lemma_failure_sticks(plan, outcomes, k + 1);
    } else {
        assert(outcomes.subrange(0, k as int) =~= outcomes);
    }
}

/// Steps run in order and stop at the first failure: when the first `k`
/// steps succeed and step `k` fails with `e`, exactly the first `k` steps
/// took effect, no later step is performed whatever comes after, and the run
/// fails with `e` within the context of step `k`.
pub proof fn law_effects_stop_at_first_failure(plan: Seq<StepView>, outcomes: Seq<Option<Seq<char>>>, k: nat)
    requires
        k < plan.len(),
        k < outcomes.len(),
        forall|i: int| 0 <= i < k ==> outcomes[i] is None,
        outcomes[k as int] is Some,
    ensures
        run_plan(plan, outcomes) == (RunView {
            succeeded: k,
            failure: Some(failure_message(plan[k as int].context, outcomes[k as int]->0)),
        }),
        next_step(plan, run_plan(plan, outcomes)) is None,
{
    lemma_successes(plan, outcomes, k);
    assert(outcomes.subrange(0, k + 1 as int) =~= outcomes.subrange(0, k as int).push(outcomes[k as int]));
    lemma_run_plan_push(plan, outcomes.subrange(0, k as int), outcomes[k as int]);
    lemma_failure_sticks(plan, outcomes, k + 1);
}

/// When every step succeeds, every step is performed once, in order, and the
/// run succeeds.
pub proof fn law_plan_completes_without_failure(plan: Seq<StepView>, outcomes: Seq<Option<Seq<char>>>)
    requires
        outcomes.len() == plan.len(),
        forall|i: int| 0 <= i < outcomes.len() ==> outcomes[i] is None,
    ensures
        run_plan(plan, outcomes) == (RunView { succeeded: plan.len(), failure: None }),
        next_step(plan, run_plan(plan, outcomes)) is None,
{
    lemma_successes(plan, outcomes, plan.len());
    assert(outcomes.subrange(0, plan.len() as int) =~= outcomes);
}

} // verus!
