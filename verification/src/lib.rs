//! Verified core of a small container runner: command-line parsing, cgroup and
//! mount plans, capability and seccomp policies, hostnames and image fetching.

pub mod capabilities;
pub mod cgroup;
pub mod chroot;
pub mod container;
pub mod mounts;
pub mod namespace;
pub mod oci;
pub mod parse;
pub mod plan;
pub mod seccomp;
pub mod text;
