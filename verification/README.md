# scapi

A Verus-verified library for Qubic smart-contract calls: building contract input payloads,
decoding contract responses field by field, Qubic identities and the subseed and private key
of a seed, the transaction wire format, RPC request and answer handling, and the decisions of
a WalletConnect pairing.

Not included: public keys from private keys and SchnorrQ signing and verification, which rest
on FourQ curve arithmetic that the library does not implement; so there are no wallets from
seeds and no signed transactions. The WalletConnect relay transport (encryption, key
agreement, the relay connection, fresh random keys) is not among the dependencies either:
`app/` states it as a trait, `RelayTransport`, that the client runs on.

Layout:

- `src/` — the verified library. `bytes`, `sc_api`, `reader` and `decoder` encode and decode
  fixed-width values; `codec` holds base64, hex and the KangarooTwelve hash behind trusted
  wrappers; `qubic_types`, `qubic_transactions` and `transaction` cover identities, seeds and
  transactions; `rpc`, `client` and `bob` cover endpoint addresses and RPC records;
  `wallet_connect`, `session` and `relay` cover WalletConnect configuration, sessions and the
  handling of relay messages.
- `tests/` — tests of the library.
- `app/` — the command-line front end and the HTTP clients (reqwest), JSON forms (serde) and
  floating-point helpers around the library.
