//! Reader of the `tzdata` zone-info database used on Android and OpenHarmony.
//!
//! The database is read from an in-memory [`ByteStream`]; every decoding step is
//! stated over the bytes of the stream and its cursor.
pub mod bytes;
pub mod header;
pub mod index;
pub mod lemmas;
pub mod lookup;
pub mod stream;

pub use header::TzDataHeader;
pub use index::{TzDataIndex, TzDataIndexes};
pub use lookup::{find_tz_data_android, find_tz_data_ohos};
pub use stream::{ByteStream, TzDataError};
