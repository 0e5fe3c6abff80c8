# pallets

The smokejumper loft: two pallets of a parachute loft's records.

- `smokejumper` keeps each smokejumper account's name, funds a new account
  with gas, and moves a smokejumper's data to a new address when keys are
  lost, leaving a placeholder behind so the old address is never reused.
- `parachutes` keeps the loft: each smokejumper's rigger certification,
  the drogue, main and reserve parachutes put into service, and the ledgers
  of in-service, rigging, repair and retire records, keyed by nonces.

## Layout

- `src/` — the verified library (Verus). Each pallet has `types` (the
  records and their views), `spec` (the storage as a mathematical value and
  what each call does to it), `pallet` (the executable storage model whose
  calls are proved to follow `spec`) and `laws` (properties across calls).
  `parachutes/integrity.rs` proves that the ledgers hold together across
  every call, and `parachutes/append_only.rs` that they only grow; `parachutes/registry.rs` is the byte-keyed parachute registry.
- `tests/` — the pallets' scenarios on the executable model.
- `app/` — the FRAME pallets: storage items, dispatchables, events and the
  native-currency operations, delegating every decision to the library.
