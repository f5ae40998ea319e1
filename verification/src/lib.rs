//! A verified reader for 32-bit little-endian ELF files and a flattener
//! that turns the loadable segments into one contiguous boot image.
//!
//! The crate is split along the three stages of the pipeline:
//! - `header`: validation of the fixed-layout file header,
//! - `cursor`: a lazy walk over the program-header table,
//! - `flatten`: concatenation of loadable segments with alignment padding.

pub mod cursor;
pub mod flatten;
pub mod header;
pub mod le;

pub use cursor::ProgramHeader;
pub use cursor::ProgramHeaderIterator;
pub use flatten::flatten;
pub use flatten::flatten_elf;
pub use flatten::sector_count;
pub use header::ELF32Parser;
pub use header::ElfError;
pub use le::le16_at;
pub use le::le32_at;
pub use le::read_u16;
pub use le::read_u32;
