# judo

A privilege broker for AI agents: a command that needs privilege waits until a human approves it
with a passkey. This repository holds the decisions of the broker as a Verus library, and the
programs around it.

- `src/` is the library. Every function states what it does, and Verus proves it. Believed without
  proof are the wrappers marked `external_body`, around calls of outside crates and of
  `str::to_lowercase`, and what is assumed of `String::push`. Each says in its comment what is claimed
  of the call.
  - `normalize`, `patterns`, `level`, `policy`, `engine`: what a command is, and how strictly it is
    treated. `policy_laws` states what holds of every policy.
  - `manager`, `keys`: the life of an approval, from the request to the verdict. `manager_laws`
    states what holds of it.
  - `daemon`, `host`, `effects`, `audit`: what the daemon does about requests and verbs. A step
    returns its effects; the caller carries them out in order.
  - `webauthn`, `ceremonies`: passkeys, and what the approval page may do.
  - `crypto`, `config`, `relay`, `plugin`, `cli`: sealing, identity, the relay, the sudo plugin and
    the command line.
  - `text`, `table`, `paths`, `proto`: what the rest is made of.
- `tests/` runs the library.
- `app/` is ordinary Rust: sockets, files, the clock, and the serialized forms of messages.

The sudo plugin takes two options in `/etc/sudo.conf`. `SocketPath=` names the daemon's socket.
`IdentityPath=` names the identity file that declares the humans, who are let through where the
daemon gives no answer; without it the superuser's own identity file counts.
