//! Builds packet-filter rule descriptors in the binary layout that the
//! kernel's rule tables take: a fixed entry header, any number of match
//! blocks, and one target block, with the header's two offsets telling a
//! consumer where the target starts and where the rule ends.

pub mod arena;
pub mod error;
pub mod extension;
pub mod family;
pub mod layout;
pub mod rule;
pub mod walk;
