//! Extraction of AV1 payloads and image metadata from AVIF still-image containers.
//!
//! An AVIF file is a sequence of boxes. [`read_avif`] checks the file type, gathers the
//! metadata box and the media data boxes, finds the primary item and its alpha plane, and
//! puts together the bytes of both from the extents that the item location box names. The
//! payloads are AV1 streams; [`parse_obu`] reads the sequence header of one.
//!
//! Every parser is stated as a function of its input (the `spec_*` functions) and proved
//! to compute it. Buffers are grown fallibly, so that a parse may also end with
//! [`Error::OutOfMemory`], but only on inputs on which it asks for memory (the `*_reserves`
//! functions say which these are); on all others, and on every success, the result is the
//! stated one. What follows for all inputs from the statements of the parsers is proved in
//! [`laws`].
//!
//! - [`reader`]: the bounded box reader
//! - [`bits`]: bit fields of a buffer
//! - [`boxes`]: four-character codes
//! - [`iloc`], [`items`], [`props`], [`meta`]: the boxes of the metadata box
//! - [`extents`], [`resolve`]: from media data and item locations to payloads
//! - [`avif`]: whole files
//! - [`obu`]: the AV1 sequence header
//! - [`fallible`]: fallible growth of vectors

pub mod error;
pub mod fallible;
pub mod bits;
pub mod boxes;
pub mod reader;
pub mod iloc;
pub mod items;
pub mod props;
pub mod meta;
pub mod extents;
pub mod resolve;
pub mod avif;
pub mod laws;
pub mod obu;

pub use crate::avif::read_avif;
pub use crate::avif::AV1Metadata;
pub use crate::avif::AvifData;
pub use crate::error::Error;
pub use crate::obu::parse_obu;
pub use crate::props::AuxiliaryTypeProperty;
pub use crate::props::ContentLightLevel;
pub use crate::props::MasteringDisplayColourVolume;
