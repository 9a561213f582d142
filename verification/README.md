# remote_wallet

Hardware wallet support for Solana keys: Ledger and Keystone devices over
USB HID, the packet framing of their transports, the Keystone UR messages,
device errors and the bookkeeping of connected devices.

The library under `src/` is written in Verus. Each function states what it
returns in its `requires` / `ensures`, and the laws that relate several
functions (codes that read back as their errors, packets that carry a whole
request, a request that reads back from its packets, sorted device choices,
and others) are public proof functions beside the code they speak of.
Calls into outside crates (`hex`, `base64`, `serde_json`, `serde_cbor`,
`semver`, `solana-sdk`, `ur-registry`, `ur-parse-lib`) stand behind small
`#[verifier::external_body]` wrappers whose doc comments say what each one
claims of the crate.

Layout:

- `src/keystone_protocol.rs`, `src/keystone.rs`: the first-generation
  Keystone protocol: commands, status words, packet sending and receiving.
- `src/wallet/keystone/`: the Keystone wallet over a packet transport, its
  request framing, response reassembly, UR requests and device errors.
- `src/protocol/ledger_protocol.rs`, `src/wallet_impl/ledger.rs`: the Ledger
  APDU framing and the Ledger wallet.
- `src/ur_protocol.rs`: UR texts, key paths and their CBOR payloads.
- `src/remote_wallet.rs`, `src/wallet/types.rs`: device information and the
  manager of connected devices.
- `src/text.rs`, `src/keys.rs`, `src/json.rs`: text, key and JSON helpers.
- `app/`: what needs the operating system: HID devices through `hidapi`,
  locks, the interactive device choice, and the serde forms of the messages.
- `tests/`: tests of the library, run against the real outside crates.
