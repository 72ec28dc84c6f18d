//! Text services for an editor: an encoding catalog, a UTF-8 pass-through
//! converter, ordinal comparison, case folding, document snapshots and a
//! resumable search cursor with a regular-expression backend and a plain
//! substring backend.

pub mod bytes;
pub mod casefold;
pub mod compare;
pub mod converter;
pub mod encoding;
pub mod engine;
pub mod error;
pub mod search;
pub mod text;

pub use casefold::fold_case;
pub use compare::compare_strings;
pub use converter::Converter;
pub use encoding::{get_available_encodings, Encoding, Encodings};
pub use error::{apperr_format, init, Error};
pub use search::SearchCursor;
pub use text::Text;
