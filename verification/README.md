# pallet-kitties

A kitties pallet as a verified library: signed accounts create kitties whose dna is a
random hash, hand them on to friends, and a genesis configuration makes named kitties
for alice.

- `src/types.rs`: kitties, genders, events, errors, origins.
- `src/encoding.rs`: SCALE encoding (through `parity-scale-codec`), blake2-256 (through
  `sp-runtime`'s `BlakeTwo256`), decimal digits.
- `src/storage.rs`: the two storage maps, kitties by dna and the dnas each account owns.
- `src/pallet.rs`: the storage model `PalletState`, the dispatchable calls and the getters.
- `src/genesis.rs`: the genesis configuration and its build.
- `src/laws.rs`: storage consistency and the count of kitties are kept by every call;
  refused calls change nothing; a successful call adds or moves one kitty.
- `app/`: the runtime edge: randomness and time providers, origins, SCALE codecs of the
  stored values.

The calls take the runtime's random value and time as arguments; `app/` draws them.
