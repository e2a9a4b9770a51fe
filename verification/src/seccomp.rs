//! The seccomp policy of the container: every system call is allowed but the
//! ones that are blocked, which fail with `EPERM`.

use vstd::prelude::*;

verus! {

/// A system call that the container may block.
#[derive(Clone, Copy, Debug, PartialEq, Eq, Structural)]
pub enum Syscall {
    Nfsservctl,
    Personality,
    PivotRoot,
}

/// The kernel's name of each system call.
pub open spec fn syscall_name(s: Syscall) -> Seq<char> {
    match s {
        Syscall::Nfsservctl => "nfsservctl"@,
        Syscall::Personality => "personality"@,
        Syscall::PivotRoot => "pivot_root"@,
    }
}

impl Syscall {
    /// The kernel's name of the system call.
    pub fn as_str(&self) -> (res: &'static str)
        ensures
            res@ == syscall_name(*self),
    {
        match self {
            Syscall::Nfsservctl => "nfsservctl",
            Syscall::Personality => "personality",
            Syscall::PivotRoot => "pivot_root",
        }
    }
}

/// What the filter does with a system call.
#[derive(Clone, Copy, Debug, PartialEq, Eq, Structural)]
pub enum FilterAction {
    /// The call runs.
    Allow,
    /// The call fails with `EPERM`.
    FailWithEperm,
}

/// What a filter that blocks `blocked` does with `syscall`: a blocked call
/// fails with `EPERM`, every other call is allowed.
pub open spec fn filter_action(blocked: Seq<Syscall>, syscall: Syscall) -> FilterAction {
    if blocked.contains(syscall) {
        FilterAction::FailWithEperm
    } else {
        FilterAction::Allow
    }
}

/// What to do with a blocked system call once the kernel's number for its
/// name is looked up.
pub enum RuleDecision {
    /// Add a rule that answers the call `number` with `action`.
    AddRule { number: i32, action: FilterAction },
    /// The name is unknown here: warn with `message` and add no rule.
    WarnUnknown { message: String },
}

/// The warning about a system call whose name is unknown.
pub open spec fn unknown_syscall_warning(syscall: Syscall) -> Seq<char> {
    "Seccomp: Unknown syscall "@ + syscall_name(syscall)
}

/// The rule for the blocked `syscall`, given its number when its name is
/// known: answer it with `EPERM`; without a number, warn and go on.
pub fn rule_for(syscall: Syscall, resolved: Option<i32>) -> (res: RuleDecision)
    ensures
        match resolved {
            Some(n) => res matches RuleDecision::AddRule { number, action } && number == n && action
                == FilterAction::FailWithEperm,
            None => res matches RuleDecision::WarnUnknown { message } && message@
                == unknown_syscall_warning(syscall),
        },
{
    match resolved {
        Some(n) => RuleDecision::AddRule { number: n, action: FilterAction::FailWithEperm },
        None => {
            let mut message = crate::text::owned("Seccomp: Unknown syscall ");
            message.append(syscall.as_str());
            RuleDecision::WarnUnknown { message }
        },
    }
}

/// Builder for configuring seccomp syscall filtering: the default action
/// allows every system call, and each added system call is blocked.
pub struct SeccompBuilder {
    blocked: Vec<Syscall>,
}

impl View for SeccompBuilder {
    type V = Seq<Syscall>;

    /// The blocked system calls, in the order they were added.
    closed spec fn view(&self) -> Seq<Syscall> {
        self.blocked@
    }
}

impl SeccompBuilder {
    /// Creates a new `SeccompBuilder`, which allows all syscalls.
    pub fn new() -> (res: Self)
        ensures
            res@ == Seq::<Syscall>::empty(),
    {
        SeccompBuilder { blocked: Vec::new() }
    }

    /// Adds a rule that blocks `syscall`: once applied, calling it fails with
    /// `EPERM`.
    pub fn add_syscall(self, syscall: Syscall) -> (res: Self)
        ensures
            res@ == self@.push(syscall),
            filter_action(res@, syscall) == FilterAction::FailWithEperm,
            forall|other: Syscall|
                other != syscall ==> filter_action(res@, other) == filter_action(self@, other),
    {
        let mut b = self;
        b.blocked.push(syscall);
        assert(b@[b@.len() - 1] == syscall);
        assert forall|other: Syscall| other != syscall implies filter_action(b@, other) == filter_action(
            self@,
            other,
        ) by {
            if self@.contains(other) {
                let k = choose|k: int| 0 <= k < self@.len() && self@[k] == other;
                assert(b@[k] == other);
            }
            if b@.contains(other) {
                let k = choose|k: int| 0 <= k < b@.len() && b@[k] == other;
                assert(self@[k] == other);
            }
        }
        b
    }

    /// What the filter does with a call that no rule names: it allows it.
    pub fn default_action(&self) -> (res: FilterAction)
        ensures
            res == FilterAction::Allow,
    {
        FilterAction::Allow
    }

    /// What the filter does with `syscall`.
    pub fn action_for(&self, syscall: Syscall) -> (res: FilterAction)
        ensures
            res == filter_action(self@, syscall),
    {
        let mut i: usize = 0;
        while i < self.blocked.len()
            invariant
                i <= self.blocked@.len(),
                forall|j: int| 0 <= j < i ==> self.blocked@[j] != syscall,
            decreases self.blocked.len() - i,
        {
            if self.blocked[i] == syscall {
                return FilterAction::FailWithEperm;
            }
            i = i + 1;
        }
        FilterAction::Allow
    }

    /// The blocked system calls, in the order they were added.
    pub fn blocked(&self) -> (res: &Vec<Syscall>)
        ensures
            res@ == self@,
    {
        &self.blocked
    }
}

} // verus!
