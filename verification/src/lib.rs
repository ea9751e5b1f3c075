//! Threshold issuance of anonymous credentials over the BLS12-381 curve.
//!
//! A number of authorities each hold a share of a signing key. A user has them sign attributes
//! that they do not see, puts the signatures of enough of them together to one, and shows it
//! without showing the attributes or the signature.

pub mod certificate;
pub mod credential;
pub mod curve;
pub mod digest;
pub mod elgamal;
pub mod field;
pub mod group;
pub mod hashing;
pub mod interpolation;
pub mod keys;
pub mod laws;
pub mod numbers;
pub mod parameters;
pub mod polynomial;
pub mod proofs;
pub mod random;
pub mod soundness;
pub mod types;
pub mod units;

pub use credential::{
    aggregate_credential, blind_sign, prepare_blind_sign, prove_credential, try_verify_credential,
    unblind, verify_credential,
};
pub use elgamal::elgamal_keygen;
pub use group::GeneratorPoint;
pub use hashing::{compute_commit_hash, HashableGenerator};
pub use keys::{aggregate_keys, ttp_keygen};
pub use parameters::Parameters;
pub use random::{MyRandom, RandomSource};
