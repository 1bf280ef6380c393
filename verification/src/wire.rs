//! The stored form of a history: a JSON array of objects with the fields
//! `timestamp`, `result` and `ping`, in that order, written without any
//! white space.

pub mod decode;
pub mod encode;
pub mod lemmas;
pub mod text;

pub use decode::{decode, expect_text, parse_outcome, parse_record};
pub use encode::{encode, push_record, push_text};
pub use lemmas::{lemma_history_text_ascii, lemma_history_text_injective};
pub use text::{
    all_ascii, history_of, history_text, is_history_text, outcome_text, record_at, record_text, records_text,
    rest_text, text_at, CLOSE_BRACE, CLOSE_BRACKET, COMMA, NO_RESPONSE_TEXT, OPEN_BRACKET,
    PING_KEY, RESULT_KEY, SUCCESS_TEXT, TIMESTAMP_KEY,
};
