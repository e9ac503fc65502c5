//! A small simulator core for quantum registers, with the array and
//! column-store utilities that travel with it.
//!
//! The register is generic over its amplitude type: the index arithmetic that
//! selects which basis states a gate touches, every validation, the
//! permutation gates and the order of gates in a Fourier transform are proved
//! here, while the numeric kernels are supplied by the caller.

pub mod arrow;
pub mod bits;
pub mod circuit;
pub mod config;
pub mod element;
pub mod error;
pub mod gates;
pub mod multidim;
pub mod qft;
pub mod register;
pub mod shape;
pub mod text;
