//! Orthonormalization of Euclidean vectors by the modified Gram-Schmidt
//! process, verified over an exact model of IEEE 754 double-precision
//! arithmetic.
//!
//! Every scalar is carried as the bit pattern of a double (`u64`). The five
//! primitive operations on those patterns — add, subtract, multiply, divide,
//! square root — are supplied by the embedding program through the
//! [`scalar::FloatOps`] trait, whose spec functions name each operation's
//! result. Everything above that boundary — the fixed-dimension vector type
//! with its componentwise arithmetic, dot product, length and normalization,
//! and the orthonormalizer in both its in-place and its pure calling
//! convention — is verified: each function's result is pinned, bit for bit,
//! to a spec function of the input patterns, and the structural laws of the
//! process (output length, strict prefix dependence, the degenerate bases)
//! are proved.

pub mod orthonormalize;
pub mod scalar;
pub mod vector;
