//! Namespaces: the identity of the container and the steps that move the
//! process into fresh namespaces as an unprivileged user.

use vstd::prelude::*;
use vstd::slice::slice_to_vec;
use vstd::utf8::encode_utf8;
use crate::plan::{bare, plan_view, step, step_within, within, Namespaces, OpView, Step, StepView, SysOp};
use crate::text::{decimal, owned, push_char, push_decimal};

verus! {

/// How many random bytes, and so characters, a generated hostname has.
pub const HOSTNAME_LENGTH: usize = 12;

/// The characters that a generated hostname is made of.
pub open spec fn hostname_alphabet() -> Seq<char> {
    "abcdefghijklmnopqrstuvwxyzABCDEFGHIJKLMNOPQRSTUVWXYZ0123456789"@
}

/// The hostname character that a random byte stands for.
pub open spec fn hostname_char(b: u8) -> char {
    hostname_alphabet()[(b % 62) as int]
}

/// The hostname that random bytes stand for: one character per byte.
pub open spec fn hostname_of(bytes: Seq<u8>) -> Seq<char> {
    bytes.map_values(|b: u8| hostname_char(b))
}

/// The hostname used when no random bytes could be read.
pub open spec fn fallback_hostname() -> Seq<char> {
    "mymoulette"@
}

/// The hostname that the random `bytes` stand for: each byte picks a letter
/// or a digit.
pub fn generate_hostname(bytes: &[u8]) -> (res: String)
    ensures
        res@ == hostname_of(bytes@),
{
    let alphabet = "abcdefghijklmnopqrstuvwxyzABCDEFGHIJKLMNOPQRSTUVWXYZ0123456789";
    proof {
        reveal_strlit("abcdefghijklmnopqrstuvwxyzABCDEFGHIJKLMNOPQRSTUVWXYZ0123456789");
    }
    let mut name = String::new();
    let mut i: usize = 0;
    while i < bytes.len()
        invariant
            i <= bytes@.len(),
            alphabet@ == hostname_alphabet(),
            alphabet@.len() == 62,
            name@ == hostname_of(bytes@.subrange(0, i as int)),
        decreases bytes.len() - i,
    {
        let k: usize = (bytes[i] % 62) as usize;
        push_char(&mut name, alphabet.get_char(k));
        assert(hostname_of(bytes@.subrange(0, i + 1)) =~= hostname_of(bytes@.subrange(0, i as int)).push(
            hostname_char(bytes@[i as int]),
        ));
        i = i + 1;
    }
    assert(bytes@.subrange(0, bytes@.len() as int) =~= bytes@);
    name
}

/// The container's hostname: the one that `random` stands for, or
/// `mymoulette` when no random bytes could be read.
pub fn setup_hostname(random: Option<&[u8]>) -> (res: String)
    ensures
        res@ == match random {
            Some(bytes) => hostname_of(bytes@),
            None => fallback_hostname(),
        },
{
    match random {
        Some(bytes) => generate_hostname(bytes),
        None => owned("mymoulette"),
    }
}

/// One line of a `uid_map` or `gid_map`: the id 0 inside the namespace is
/// `id` outside it, for a range of one id.
pub open spec fn id_map_line(id: u32) -> Seq<char> {
    "0 "@ + decimal(id as nat) + " 1\n"@
}

/// Only a new user namespace.
pub open spec fn user_namespace() -> Namespaces {
    Namespaces { user: true, mount: false, pid: false, ipc: false, net: false, uts: false, cgroup: false }
}

/// New mount, pid, ipc, network, uts and cgroup namespaces.
pub open spec fn container_namespaces() -> Namespaces {
    Namespaces { user: false, mount: true, pid: true, ipc: true, net: true, uts: true, cgroup: true }
}

/// Writing `text` to a file, created if needed, within `context`.
pub open spec fn write_text(path: Seq<char>, text: Seq<char>, context: Seq<char>) -> StepView {
    within(OpView::WriteFile { path, contents: encode_utf8(text), create: true }, context)
}

/// What `namespace_configure` does: enter a new user namespace, set the
/// process dumpable again, deny `setgroups`, map root inside to `uid` and
/// `gid` outside, then enter the remaining namespaces.
pub open spec fn namespace_plan(uid: u32, gid: u32) -> Seq<StepView> {
    seq![
        bare(OpView::Unshare { namespaces: user_namespace() }),
        bare(OpView::SetDumpable),
        write_text("/proc/self/setgroups"@, "deny"@, "write setgroups"@),
        write_text("/proc/self/uid_map"@, id_map_line(uid), "write uid_map"@),
        write_text("/proc/self/gid_map"@, id_map_line(gid), "write gid_map"@),
        bare(OpView::Unshare { namespaces: container_namespaces() }),
    ]
}

/// The map line for `id`.
fn map_line(id: u32) -> (res: String)
    ensures
        res@ == id_map_line(id),
{
    let mut line = owned("0 ");
    push_decimal(&mut line, id);
    line.append(" 1\n");
    line
}

/// The step that writes `text` to `path` within `context`.
fn write_step(path: &str, text: &String, context: &str) -> (res: Step)
    ensures
        res@ == write_text(path@, text@, context@),
{
    step_within(
        SysOp::WriteFile {
            path: owned(path),
            contents: slice_to_vec(text.as_str().as_bytes()),
            create: true,
        },
        context,
    )
}

/// The steps that move the process into new user, mount, pid, ipc, network,
/// uts and cgroup namespaces, mapping root inside to `uid` and `gid`, the
/// caller's ids.
pub fn namespace_configure(uid: u32, gid: u32) -> (res: Vec<Step>)
    ensures
        plan_view(res@) == namespace_plan(uid, gid),
{
    let mut steps: Vec<Step> = Vec::new();
    steps.push(
        step(
            SysOp::Unshare {
                namespaces: Namespaces {
                    user: true,
                    mount: false,
                    pid: false,
                    ipc: false,
                    net: false,
                    uts: false,
                    cgroup: false,
                },
            },
        ),
    );
    steps.push(step(SysOp::SetDumpable));
    steps.push(write_step("/proc/self/setgroups", &owned("deny"), "write setgroups"));
    steps.push(write_step("/proc/self/uid_map", &map_line(uid), "write uid_map"));
    steps.push(write_step("/proc/self/gid_map", &map_line(gid), "write gid_map"));
    steps.push(
        step(
            SysOp::Unshare {
                namespaces: Namespaces {
                    user: false,
                    mount: true,
                    pid: true,
                    ipc: true,
                    net: true,
                    uts: true,
                    cgroup: true,
                },
            },
        ),
    );
    assert(plan_view(steps@) =~= namespace_plan(uid, gid));
    steps
}

/// An ASCII letter or digit.
pub open spec fn is_alphanumeric(c: char) -> bool {
    ('a' <= c && c <= 'z') || ('A' <= c && c <= 'Z') || ('0' <= c && c <= '9')
}

/// A generated hostname has one character per random byte, and each is an
/// ASCII letter or digit.
pub proof fn law_hostname_is_alphanumeric(bytes: Seq<u8>)
    ensures
        hostname_of(bytes).len() == bytes.len(),
        forall|i: int| 0 <= i < bytes.len() ==> is_alphanumeric(#[trigger] hostname_of(bytes)[i]),
{
    reveal_strlit("abcdefghijklmnopqrstuvwxyzABCDEFGHIJKLMNOPQRSTUVWXYZ0123456789");
    assert forall|k: int| 0 <= k < 62 implies is_alphanumeric(#[trigger] hostname_alphabet()[k]) by {
    }
}

/// Writing `text` to the file at `path`, created if needed.
pub open spec fn writes_text(s: StepView, path: Seq<char>, text: Seq<char>) -> bool {
    s.op == (OpView::WriteFile { path, contents: encode_utf8(text), create: true })
}

/// Entering the namespaces `ns`.
pub open spec fn enters(s: StepView, ns: Namespaces) -> bool {
    s.op == (OpView::Unshare { namespaces: ns })
}

/// Whatever the caller's ids: the plan first enters a new user namespace
/// alone and last enters the mount, pid, ipc, network, uts and cgroup
/// namespaces; in between it denies `setgroups`, then maps root to `gid` in
/// `/proc/self/gid_map`, and maps root to `uid` in `/proc/self/uid_map`. The
/// ids change only the contents of the two maps, never the number of steps.
pub proof fn law_ids_are_mapped(uid: u32, gid: u32, uid2: u32, gid2: u32)
    ensures
        ({
            let p = namespace_plan(uid, gid);
            &&& p.len() >= 2
            &&& enters(p[0], Namespaces {
                user: true,
                mount: false,
                pid: false,
                ipc: false,
                net: false,
                uts: false,
                cgroup: false,
            })
            &&& enters(p[p.len() - 1], Namespaces {
                user: false,
                mount: true,
                pid: true,
                ipc: true,
                net: true,
                uts: true,
                cgroup: true,
            })
            &&& exists|s: int, g: int|
                0 < s < g < p.len() - 1 && writes_text(#[trigger] p[s], "/proc/self/setgroups"@, "deny"@)
                    && writes_text(#[trigger] p[g], "/proc/self/gid_map"@, "0 "@ + decimal(gid as nat) + " 1\n"@)
            &&& exists|u: int|
                0 < u < p.len() - 1 && writes_text(
                    #[trigger] p[u],
                    "/proc/self/uid_map"@,
                    "0 "@ + decimal(uid as nat) + " 1\n"@,
                )
        }),
        namespace_plan(uid, gid).len() == namespace_plan(uid2, gid2).len(),
{
    let p = namespace_plan(uid, gid);
    assert(writes_text(p[2], "/proc/self/setgroups"@, "deny"@));
    assert(writes_text(p[4], "/proc/self/gid_map"@, "0 "@ + decimal(gid as nat) + " 1\n"@));
    assert(writes_text(p[3], "/proc/self/uid_map"@, "0 "@ + decimal(uid as nat) + " 1\n"@));
}

} // verus!
