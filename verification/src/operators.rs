//! The operators that come with the library, and their registration.

pub mod add_id;
pub mod normalize;
pub mod keep_all;
pub mod symbol_ratio;
pub mod text_len;
pub mod textstat;
pub mod builtin;
