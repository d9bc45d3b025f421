# agent_wallet

Give an AI agent a budget, not your keys: a vault whose owner issues
delegations to agent session keys, each bounded by a per-transaction cap, a
lifetime cap, a tumbling-window rate limit, an expiry, a destination
allowlist, a program allowlist and instant revocation; and a guard that bounds
an arbitrary, unparsed call made as the vault by measuring what left it.

## Layout

| Path | Contents |
|---|---|
| `src/errors.rs` | Error codes, one per failure mode |
| `src/keys.rs` | 32-byte keys: comparison, membership, reading from bytes |
| `src/pda.rs` | Program-derived addresses (the runtime library's derivation) |
| `src/state.rs` | `Vault`, `Delegation`, `PolicyArgs`, the spend policy and its laws |
| `src/guard.rs` | Token account layout, authority fingerprint, snapshots, sibling scan |
| `src/program.rs` | Each instruction and its account constraints |
| `src/spike.rs` | The standalone capped-call guard |
| `app/` | The on-chain program around the library: accounts, clock, transfers, the call |
| `tests/` | Scenarios for every limit, constraint and guard rejection |
