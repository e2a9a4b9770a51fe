# virli

A small container runner (`mymoulette`): it runs a command in fresh
namespaces, inside a cgroup, on an overlay of a root filesystem or of a
Docker Hub image, behind a seccomp filter and with only `CAP_NET_RAW`.

- `src/` is the verified library. It decides everything the runner does and
  states it in contracts: command-line parsing (`parse`), the system
  operations that set up cgroups, namespaces, mounts and the root
  (`plan`, `cgroup`, `namespace`, `mounts`, `chroot`), the capability and
  seccomp policies (`capabilities`, `seccomp`), the order of the container's
  setup (`container`), and image caching and
  fetching as a state machine (`oci`). `text` holds the string helpers.
- `app/` is the program: it reads the environment, performs the planned
  operations with `nix`, `caps`, `libseccomp` and `std::fs`, talks to the
  registry with `reqwest`, and unpacks layers with `flate2` and `tar`.
- `tests/` runs the library on concrete values.
