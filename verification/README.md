# iscsi-luks-csi

A CSI node driver for static iSCSI LUNs opened through LUKS on the node, with
its planner verified in Verus.

- `src/` is the verified library. `ops/` plans the host commands that stage,
  publish and unpublish a volume (`stage`, `iscsi`, `publish`), models the
  commands and their secrets (`command`), reads back what the host reports
  (`inspect`, `mountinfo`), and `csi` decides the socket path and node id.
  `laws.rs` proves the properties the planner keeps for every input: no
  formatting without `allowFormat`, no secret in an argument, an already
  staged volume plans nothing, decoding undoes the kernel's mountinfo
  escaping, and more. `text.rs` holds character-level helpers with exact
  specifications.
- `app/` is the program around it: arguments and configuration, the process
  runner, the file-system reads, and the CSI gRPC service.
- `tests/` runs the library on concrete inputs.
