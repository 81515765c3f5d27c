//! What an application package says of itself: its `AndroidManifest.xml` and the
//! classes of its `classes.dex`.
pub mod classes;
pub mod item_laws;
pub mod layout;
pub mod manifest;
pub mod manifest_laws;
pub mod members;
pub mod number_laws;
pub mod reader;
pub mod reader_laws;
pub mod values;

pub use classes::{parse_dex, DexError, DexInfo};
pub use manifest::ManifestInfo;
pub use reader::reader_will_return;
