# node-manager

The onboarding and management server of a Holo node, as a library whose logic is
verified with Verus and a thin program around it.

- `src/` is the library. It reads requests, checks passwords, seed phrases and
  sessions, keeps the state of the node, decides which container runs with which
  unit file, manages SSH keys and hosted applications, follows releases, and
  builds the pages. It does no input or output: it hands out effects and answers.
- `app/` is the program. It listens on port 80, reads files, runs commands,
  carries out the effects and sends the answers.
- `tests/` exercises the library on concrete values.

The recovery seed phrases follow BIP39; their words and checksums come from the
crate `bip39`.

## How a request is answered

1. `request` reads the first line and the headers.
2. `routes` says what is asked for and whether a session is needed; `state` tells
   whether the request comes with a good session.
3. A function of `handlers`, `happ_handlers`, `ssh` or `routes` says what the
   request leads to: effects to carry out, a file to write or a command to run
   first, and the answer.

## What is proved

Every function states exactly what it returns and which effects it asks for.
Beyond that, proof functions named `law_...` state, among other things:

- a login lets its bearer in for a day, and no request under `/manage` is answered
  without a session, but for the one that resets a forgotten password;
- a password has at least eight characters, its record accepts the digest of the
  password and no other, and as long as there is no record no password is accepted;
- a seed phrase that was handed out resets the password, is made once, and is not
  held by what is kept of it;
- what is written to the state file, the sessions file, the SSH keys and the list
  of deployments is what is read back, for text that these formats can hold, and
  the manifest of a deployment whatever its other strings hold;
- a node is set up once;
- in the Wind Tunnel a node name of up to 50 bytes is accepted with any Agent ID,
  and the host name that it makes fits into 63 bytes;
- of the two containers one runs, and its unit file conflicts with the other's;
- a release whose version is made of numbers is installed only if it is newer;
- a later time gives a text that sorts later;
- text for the shell, for JSON and for HTML is read as the text it was.
