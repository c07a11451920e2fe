# passclip

A clipboard guard: a background daemon watches the system clipboard, moves
text that looks like a secret (a known credential format, or high-entropy text
without spaces) into an in-memory vault, wipes the clipboard, and hands a
secret back only after a passkey challenge was started and its answer
verified against a registered passkey. Secrets are sealed with
XChaCha20-Poly1305 under a key that lives only in memory.

Layout:

- `src/` — the verified library (Verus):
  - `vault.rs` — the bounded vault of sealed slots, its model and its laws
    (capacity, eviction of the oldest slot, read-after-write, one-time
    retrieval, expiry, identifiers in order over any run of operations);
  - `seal.rs` — the authenticated encryption that the vault seals with;
  - `ipc.rs` — the daemon's request handling over the vault;
  - `session.rs` — passkey ceremonies (WebAuthn) and the session store;
  - `client.rs` — how front ends turn the daemon's answers into results,
    and the credential with which the command line answers a challenge;
  - `monitor.rs` — detection patterns, the sensitivity rule and the
    clipboard watcher's state;
  - `logs.rs` — the bounded activity log;
  - `rules.rs`, `config.rs`, `daemon.rs` — built-in rules, settings and
    fixed daemon parameters;
  - `text.rs` — trimming, the consent-reply check and character counts.
- `tests/` — tests of the library.
- `app/` — the `passclip` program: command line, sockets, clipboard access,
  file loading, entropy in floating point, and the worker threads.

Settings are read from `config.toml` in the working directory, or else from
`passclip.toml` next to the executable; fields left out keep their defaults.
`zeroize_timeout_secs` is how long a secret restored by `passclip pop` stays
on the clipboard before the clipboard goes back to what it held before.

`passclip pop` prints the challenge options as JSON and reads the signed
passkey answer (one line of JSON) from standard input; the daemon releases a
secret only when the relying party accepts that answer for a registered
passkey.

There is no tray: sending `SIGUSR1` to the daemon pauses or resumes the
clipboard monitor. Registered passkeys are read from `passkeys.json` next to
the executable (a JSON list of webauthn-rs passkeys).
