//! Low-level homomorphic-encryption engine: LWE/GLWE entities, seeded
//! ciphertext expansion, key switching, the Fourier-domain buffer cache used
//! by bootstrapping, and the multi-device partitioning that spreads a batch
//! of ciphertexts across GPUs.

pub mod codec;
pub mod cuda;
pub mod engine;
pub mod entities;
pub mod fixture;
pub mod fourier;
pub mod fpks;
pub mod keyswitch;
pub mod parameters;
pub mod partition;
pub mod random;
