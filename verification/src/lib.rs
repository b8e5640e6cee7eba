//! Signing OpenPGP data with keys on PKCS#11 tokens.
//!
//! The library holds what such a tool decides and computes: which slot, key and public
//! key object are meant ([`uri`], [`session`], [`acquire`]), what an OpenPGP key is made of
//! ([`der`], [`signer`], [`openpgp`]), what a certificate or a revocation consists of
//! ([`cert`], [`assemble`]), and what each command does, step by step ([`sign`],
//! [`export`], [`revoke`], [`verify`], [`listing`]).  Talking to a token, reading and
//! writing files, and making the signatures is left to the program around it: where
//! outside work is needed in between, a function returns what is to be done, and another
//! one takes what came of it.  What holds of the operations as a whole is stated in
//! [`laws`].

pub mod access;
pub mod acquire;
pub mod assemble;
pub mod bytes;
pub mod calendar;
pub mod cert;
pub mod cli;
pub mod der;
pub mod error;
pub mod export;
pub mod hexcode;
pub mod laws;
pub mod listing;
pub mod nshield;
pub mod openpgp;
pub mod output;
pub mod revoke;
pub mod session;
pub mod sign;
pub mod signer;
pub mod text;
pub mod time;
pub mod token;
pub mod uri;
pub mod verify;
