//! Arithmetic over the prime field of order p = 2^64 - 2^32 + 1 (with a proof that p is
//! prime) and its cubic extension, univariate and multivariate polynomials over it, the
//! Rescue-Prime permutation with its algebraic constraints, and a Merkle Mountain Range
//! accumulator.
pub mod b_field_element;
pub mod mmr_accumulator;
pub mod mmr_shared;
pub mod mpolynomial;
pub mod polynomial;
pub mod prime_field;
pub mod ram_table;
pub mod rescue_prime;
pub mod rescue_prime_params;
pub mod table_collection;
pub mod x_field_element;
