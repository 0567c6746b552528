//! Dialect expansion and frame planning for single-file compute-shader programs.
//!
//! A program is shader text written in an extended dialect, which [`dialect`]
//! defines. The preprocessor in [`pp`] expands it into plain shader source and collects what the
//! program declares: custom uniforms, storage bindings and compute passes. The
//! resolver in [`bind`] compares two binding tables slot by slot and decides
//! which backing storage survives a recompilation. [`frame`] holds the frame
//! state and writes it into the uniform block, with the float conversions of
//! [`precision`]; [`render`] orders the dispatches of a frame and keeps the
//! program that runs; [`meta`] takes over the metadata that may accompany a program, and
//! [`context`] chooses the format of the presented frames. [`library`] says
//! which texts a program needs before it can be expanded, and [`utils`] holds
//! the text utilities that the preprocessor is built on.
//!
//! Every function is specified over sequences of characters, bytes and
//! integers, and proved against that specification. Floats are carried as the
//! bits of their single-precision form. What holds of the preprocessor across
//! lines and across runs is proved in [`proofs`], with the counting of lines
//! in [`rows`].
use vstd::prelude::*;

pub mod bind;
pub mod context;
pub mod dialect;
pub mod frame;
pub mod library;
pub mod meta;
pub mod pp;
pub mod precision;
pub mod proofs;
pub mod render;
pub mod rows;
pub mod utils;
