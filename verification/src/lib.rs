//! A personal content stash: short keys mapped to byte content.
//!
//! The store itself, key validation, input-source disambiguation and the
//! delete/empty semantics are verified; reading sources, the filesystem
//! mirror and the clipboard live outside the library.

mod confirm;
mod errors;
mod key;
mod order;
mod root;
mod source;
mod store;

pub use errors::AppError;
pub use errors::DeleteError;
pub use errors::EmptyError;
pub use errors::GetError;
pub use errors::ListError;
pub use errors::PushError;
pub use key::is_valid_key;
pub use key::is_valid_key_char;
pub use key::validate_key;
pub use key::KEY_MAX_CHARS;
pub use order::lemma_lex_lt_irreflexive;
pub use order::lemma_lex_lt_total;
pub use order::lemma_lex_lt_transitive;
pub use order::lex_lt;
pub use order::str_lex_lt;
pub use confirm::confirmation_given;
pub use confirm::is_ascii_ws;
pub use confirm::is_confirmation;
pub use confirm::trim_back;
pub use confirm::trim_front;
pub use confirm::trimmed;
pub use root::resolve_stash_root;
pub use root::stash_dir_name;
pub use root::EnvVarLookup;
pub use root::StashRoot;
pub use store::empty_confirmed;
pub use store::lemma_missing_keys_complete;
pub use store::lemma_pop_removes_key;
pub use store::lemma_push_then_get_round_trip;
pub use store::missing_keys;
pub use store::EmptyOutcome;
pub use store::Stash;
pub use source::active_source_count;
pub use source::check_content_size;
pub use source::resolve_input_source;
pub use source::selected_source;
pub use source::ContentSource;
pub use source::CONTENT_MAX_BYTES;
