//! Reading of module archives and the tags stored in them.

pub mod errors;
pub mod extensions;
pub mod module_header;
pub mod module_block;
pub mod tag_header;
pub mod tag_tables;
pub mod tag_zoneset;
pub mod tag_loader;
pub mod module_file;
pub mod module_loader;
pub mod assembly;
pub mod resolver;
pub mod common_types;
pub mod tag_structs;
