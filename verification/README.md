# aegis_firewall

The decision logic of the AegisNode firewall agent, verified with Verus: firewall policy
models and their validation, the multi-node rollout coordinator, the change planner, the
IP block list and SSH brute-force detector, the safe-apply ledger (apply lock, confirmation,
rollback on timeout), ruleset snapshots with their checksums and retention, and the readers
of `docker`, `nft -j`, `/proc` and `/etc/os-release` output.

- `src/` is the verified library. Calls into `chrono`, `uuid`, `sha2`, `ipnet` and
  `serde_json` stand behind small trusted wrappers whose contracts say what those crates do.
- `app/` holds the host side: processes, files, sockets, timers (tokio) and the serde forms
  of the domain objects. It hands the library plain values and runs the safe-apply loop.
- `tests/` runs the library on concrete inputs.
