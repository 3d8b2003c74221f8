//! Signature-based resolution of named offsets inside module images.
//!
//! A [`catalog`] names, for each module, the patterns to look for. Each
//! pattern has a [`signature`], which is compiled once. The [`resolver`]
//! scans the [`image`] of a module for every pattern of its catalog and
//! enters the offsets found in a [`table`]; the [`orchestrator`] does so for
//! all modules, and fails as a whole where a module has no image. The
//! signature texts can be written out as constants by [`patterns`], through
//! a [`formatter`], under names that [`identifier`] makes fit.

pub mod builtin;
pub mod catalog;
pub mod formatter;
pub mod identifier;
pub mod image;
pub mod orchestrator;
pub mod patterns;
pub mod resolver;
pub mod signature;
pub mod table;
