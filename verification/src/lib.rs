//! Convert between different Japanese scripts.
//!
//! Table-driven, context-free literal substitution over Unicode scalar
//! sequences: hiragana to katakana and back, extended shinjitai kanji to
//! their traditional forms and back, and a one-way simplification of the
//! non-standard v-row kana to their conventional b-row approximations.

pub mod hirakata;
pub mod mapping;
pub mod shinkyuu;
pub mod vubu;

pub use hirakata::{hira_to_kata, kata_to_hira};
pub use mapping::{char_mappings, MappingQueue};
pub use shinkyuu::{kakushin_to_kyuu, kyuu_to_kakushin};
pub use vubu::vu_to_bu;
