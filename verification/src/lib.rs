//! Interface to the `ibstrace` sampling facility and decoding of AMD IBS
//! micro-op samples.
//!
//! The library generates the code to measure ([`codegen`]), says which
//! calls to the device a measurement takes and what their answers mean
//! ([`session`], [`measure`]), decodes the samples that come back
//! ([`sample`], [`ibs`]), and analyses them: the memory accesses of a
//! target instruction ([`access`], [`analysis`]), what is common to all
//! tests and what is unique to one ([`crosstab`]), the latencies of loads
//! ([`latency`]) and traces of micro-ops ([`trace`]). The calls to the
//! device themselves, and all reading and printing, are left to the
//! caller.

pub mod access;
pub mod analysis;
pub mod bits;
pub mod codegen;
pub mod crosstab;
pub mod disas;
pub mod ibs;
pub mod ioctl;
pub mod latency;
pub mod measure;
pub mod report;
pub mod sample;
pub mod session;
pub mod text;
pub mod trace;
pub mod util;
