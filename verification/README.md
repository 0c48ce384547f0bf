# linkora

A Verus-verified model of the Linkora social protocol for Stellar/Soroban:
creator profiles, a follow graph with blocking, posts with likes and tips
(with a protocol fee), and community pools released by a quorum of admins.

- `src/validation.rs` — username and post-body rules.
- `src/fees.rs` — the tip fee split, free of overflow.
- `src/types.rs` — stored records, events, token transfers, errors.
- `src/state.rs` — the state as maps, sequences and sets, and what each
  operation makes of it; the state invariant.
- `src/contract.rs` — the operations on the stored state, each proved to
  follow `state.rs`.
- `src/laws.rs` — properties across operations: every operation keeps the
  invariant; follow is idempotent and undone by unfollow; likes count once;
  tips pay out exactly the amount; withdrawals need a quorum.
- `app/lib.rs` — the Soroban contract: authorization, storage, token
  transfers and events around the library.
