# op4

A messenger whose core is verified with Verus. Messages are end-to-end
encrypted with a double ratchet behind a hybrid post-quantum handshake, travel
over Tor hidden services, and are kept in an encrypted vault with a second,
harmless section for use under duress.

## Layout

- `src/` is the library `op4_core`, verified as a whole. What it calls of other
  crates stands behind small functions whose contracts are taken on trust.
  - `crypto/`: the cipher suite, key pairs, the handshake, the ratchet.
  - `identity/`: contact codes, bootstrap codes, contacts, revocations.
  - `storage/`: the records, the payload and the file of the vault.
  - `network/`: wire messages, frames, the SOCKS5 dialog, the control port.
  - `messenger/`: what sending, receiving, adding and revoking make of a vault.
  - `ui/`: the terminal's interface as a state machine over keys.
  - `mobile/`: the phone's interface as a state machine over taps.
  - `hardening/`: what the process checks and refuses about its surroundings.
- `tests/` runs the library with the real cryptography.
- `app/` is the program: terminal, sockets, files and system calls, and on
  Android the toolkit and the embedded Tor client.

## How contracts are stated

Each type has a view: a plain value made of sequences and integers. Records
are defined by what writing them gives (`put_spec`) and what reading makes of
bytes (`take_spec`), with a proof that reading undoes writing. Operations on a
vault are functions from one `VaultView` to the next. Where fresh randomness
takes part, a function with the suffix `_with` takes it as an argument and is
stated exactly, and the function that draws it says that the value came from
the generator.
Where the clock or an estimator answers, the contract says what follows from
the answer.

What the ratchet promises of a conversation is stated in
`crypto/ratchet_laws.rs` and, for a batch of messages that arrive in any order,
in `crypto/ratchet_batch.rs`. What one side sends and the other receives is
stated in `messenger/delivery.rs`. A data message carries the length of its ciphertext in
front of it, so that padding is told apart, and its tag covers the ratchet key
of the header, which both sides know.

The algorithms of the cipher suite are outside the proofs. Each is called
through one function in `crypto/suite.rs`, whose contract names its result and
says the few things that the proofs rest on: that opening undoes sealing, that
both ends of a Diffie-Hellman exchange agree, that a signature verifies under
the key it was made with.
