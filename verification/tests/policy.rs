use virli::capabilities::{capabilities_configure, CapOp, CapSet, CAP_NET_RAW};
use virli::seccomp::{rule_for, FilterAction, RuleDecision, SeccompBuilder, Syscall};
use std::collections::HashSet;

#[test]
fn capabilities_drop_all_but_net_raw() {
    let ops = capabilities_configure(&vec![0, CAP_NET_RAW, 21]);
    assert_eq!(
        ops,
        vec![
            CapOp::Clear(CapSet::Effective),
            CapOp::Clear(CapSet::Inheritable),
            CapOp::Drop(CapSet::Permitted, 0),
            CapOp::Drop(CapSet::Permitted, 21),
            CapOp::RaiseIfMissing(CapSet::Effective, CAP_NET_RAW),
            CapOp::RaiseIfMissing(CapSet::Inheritable, CAP_NET_RAW),
            CapOp::RaiseIfMissing(CapSet::Ambient, CAP_NET_RAW),
        ]
    );
}

#[test]
fn capabilities_with_nothing_permitted() {
    let ops = capabilities_configure(&vec![]);
    assert_eq!(ops.len(), 5);
    assert!(!ops.iter().any(|op| matches!(op, CapOp::Drop(..))));
}

struct Sets {
    effective: HashSet<u8>,
    permitted: HashSet<u8>,
    inheritable: HashSet<u8>,
    ambient: HashSet<u8>,
}

impl Sets {
    fn set(&mut self, s: CapSet) -> &mut HashSet<u8> {
        match s {
            CapSet::Effective => &mut self.effective,
            CapSet::Permitted => &mut self.permitted,
            CapSet::Inheritable => &mut self.inheritable,
            CapSet::Ambient => &mut self.ambient,
        }
    }

    /// Runs the operations under the kernel's rules; false when one is refused.
    fn run(&mut self, ops: &[CapOp]) -> bool {
        for op in ops {
            match *op {
                CapOp::Clear(s) => {
                    if s == CapSet::Permitted {
                        self.effective.clear();
                    }
                    self.set(s).clear();
                }
                CapOp::Drop(s, c) => {
                    if s == CapSet::Permitted && self.permitted.contains(&c) && self.effective.contains(&c) {
                        return false;
                    }
                    self.set(s).remove(&c);
                }
                CapOp::RaiseIfMissing(s, c) => {
                    if !self.set(s).contains(&c) {
                        let allowed = match s {
                            CapSet::Effective => self.permitted.contains(&c),
                            CapSet::Permitted => false,
                            CapSet::Inheritable => self.permitted.contains(&c) || self.effective.contains(&8),
                            CapSet::Ambient => self.permitted.contains(&c) && self.inheritable.contains(&c),
                        };
                        if !allowed {
                            return false;
                        }
                        self.set(s).insert(c);
                    }
                }
            }
            let (p, i) = (self.permitted.clone(), self.inheritable.clone());
            self.ambient.retain(|c| p.contains(c) && i.contains(c));
        }
        true
    }
}

fn start(permitted: &[u8]) -> Sets {
    let p: HashSet<u8> = permitted.iter().copied().collect();
    Sets {
        effective: p.clone(),
        inheritable: [5u8, 7].into_iter().collect(),
        ambient: p.iter().copied().filter(|c| *c == 7).collect(),
        permitted: p,
    }
}

#[test]
fn capability_sets_end_with_net_raw_only() {
    let permitted: Vec<u8> = vec![0, 1, 7, 12, 13, 21, 40];
    let mut sets = start(&permitted);
    assert_eq!(sets.ambient, [7u8].into_iter().collect());
    assert!(sets.run(&capabilities_configure(&permitted)));
    let only: HashSet<u8> = [CAP_NET_RAW].into_iter().collect();
    assert_eq!(sets.effective, only);
    assert_eq!(sets.permitted, only);
    assert_eq!(sets.inheritable, only);
    assert_eq!(sets.ambient, only);
}

#[test]
fn raise_is_refused_without_net_raw_permitted() {
    let permitted: Vec<u8> = vec![0, 7, 21];
    let mut sets = start(&permitted);
    assert!(!sets.run(&capabilities_configure(&permitted)));
    assert!(sets.effective.is_empty());
    assert!(sets.permitted.is_empty());
    assert!(sets.inheritable.is_empty());
    assert!(sets.ambient.is_empty());
}

#[test]
fn syscall_names() {
    assert_eq!(Syscall::Nfsservctl.as_str(), "nfsservctl");
    assert_eq!(Syscall::Personality.as_str(), "personality");
    assert_eq!(Syscall::PivotRoot.as_str(), "pivot_root");
}

#[test]
fn seccomp_blocks_added_syscalls_in_order() {
    let b = SeccompBuilder::new()
        .add_syscall(Syscall::Nfsservctl)
        .add_syscall(Syscall::Personality)
        .add_syscall(Syscall::PivotRoot);
    assert_eq!(b.blocked(), &vec![Syscall::Nfsservctl, Syscall::Personality, Syscall::PivotRoot]);
    assert!(SeccompBuilder::new().blocked().is_empty());
}

#[test]
fn seccomp_blocks_with_eperm_and_allows_the_rest() {
    let b = SeccompBuilder::new().add_syscall(Syscall::PivotRoot);
    assert_eq!(b.default_action(), FilterAction::Allow);
    assert_eq!(b.action_for(Syscall::PivotRoot), FilterAction::FailWithEperm);
    assert_eq!(b.action_for(Syscall::Personality), FilterAction::Allow);
}

#[test]
fn seccomp_rule_for_resolved_and_unknown_names() {
    match rule_for(Syscall::Personality, Some(135)) {
        RuleDecision::AddRule { number, action } => {
            assert_eq!(number, 135);
            assert_eq!(action, FilterAction::FailWithEperm);
        }
        RuleDecision::WarnUnknown { .. } => panic!("a known syscall was not blocked"),
    }
    match rule_for(Syscall::Nfsservctl, None) {
        RuleDecision::WarnUnknown { message } => assert_eq!(message, "Seccomp: Unknown syscall nfsservctl"),
        RuleDecision::AddRule { .. } => panic!("an unknown syscall got a rule"),
    }
}
