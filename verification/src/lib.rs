//! Normalisation of TPM2 unlock configurations and their compilation into
//! policy expressions.
//!
//! A configuration says under which conditions a sealed secret may be
//! released: when certain PCRs have their values, when a signed policy is
//! presented, or either. [`config`] brings a configuration as the user wrote
//! it into its normal form, [`policy`] compiles one into a policy
//! expression, and [`laws`] states what holds of both for every input.
//! [`pcr_ids`] holds the shapes that the PCR indices are accepted in,
//! [`number`] and [`text`] what they are read with, and [`mode`] tells from
//! the arguments of the program what it is asked to do.

pub mod config;
pub mod error;
pub mod laws;
pub mod mode;
pub mod number;
pub mod pcr_ids;
pub mod policy;
pub mod text;
