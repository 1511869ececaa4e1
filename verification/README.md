# windowcast

The verified core of windowcast, a protocol and SDK for streaming single
application windows from a host to a client over WebRTC, with PIN-based
pairing (SPAKE2), pinned Ed25519 device identities, and directory-issued
account certificates (PASETO v4.public).

Layout:

- `src/` — the library, written in Verus; its functions carry contracts, and
  the calls into outside crates sit behind small trusted wrappers:
  - `identity` — peer ids and their hex form, Ed25519 identities, the
    pinned-peer trust store and its text file format;
  - `pairing` — PIN generation, the SPAKE2 exchange, the HKDF session key and
    HMAC fingerprint authentication;
  - `directory` — the account store (Argon2id passwords), session
    certificates (issuing and checking) and the login flow;
  - `protocol` — the wire types and the versioned message envelope;
  - `agent` — the host agent's toplevel-window bookkeeping and capture;
  - `apollo` — what a GameStream host reports, and its endpoint URL;
  - `transport` — the local DTLS fingerprint text and the C result code;
  - `text` — character-level helpers (whitespace, trimming, line splitting).
- `app/` — files, network, WebRTC, Wayland, the C interface and the serde
  encodings, calling into the library for every decision.
- `tests/` — tests of the library, run against the real outside crates.
