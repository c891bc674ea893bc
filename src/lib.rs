//! Output emission for an ELF64 little-endian linker: cursors over pre-sized
//! output tables, the GOT/PLT and dynamic-relocation driver, `.eh_frame`
//! rewriting, the GNU hash table, version tables and the `.dynamic` section.
pub mod bytes;
pub mod error;
pub mod cursor;
pub mod model;
pub mod symtab;
pub mod version;
pub mod dynamic;
pub mod table_writer;
pub mod reloc;
pub mod gnu_hash;
pub mod split;
pub mod eh_frame_hdr;
pub mod notes;
pub mod headers;
pub mod files;
pub mod eh_frame;
pub mod writers;
pub mod version_tables;
pub mod group;
pub mod encode;
