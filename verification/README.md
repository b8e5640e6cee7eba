# sq-pkcs11

OpenPGP signatures, certificates and revocations with private keys that stay on a PKCS#11
token.  The library is written in Verus: what it decides and computes is stated in contracts
and proved.

- `src/` holds the library: reading URIs and options, choosing a slot and a key, turning
  what a token says of a key into an OpenPGP key, planning certificates and revocations, and
  the steps of each command.
- `tests/` runs the library, with the crates that it calls, on concrete values.
- `app/` is the program around it: the command line, files, the PKCS#11 module, and the
  signatures that the token makes.

A command is a chain of steps.  Where outside work is needed, a step returns what is to be
asked or done, and the next one takes what came of it.  So the way to a token, for example,
leads only through the step that has seen that no file will be overwritten, and the token is
asked for a signature only with a job that the check of its key has let pass.

What is trusted without proof is marked `external_body` or `assume_specification`: calls into
`hex`, `humantime` and `sequoia-openpgp`, and a few functions of the standard library.  The
comment above each such item says what it claims.
