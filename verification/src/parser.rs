//! The syntax parsers: one resumable state machine for each construct.
//!
//! Each parser takes one token at a time, with the token behind it in
//! view, and answers that it needs more, that its construct is complete,
//! or that the token cannot belong to it. A parser hands the tokens of a
//! construct inside its own to the parser of that construct, and takes
//! over what that one has read when it is done.

pub mod array;
pub mod comment_p;
pub mod double_quoted_string_p;
pub mod escape_sequence_p;
pub mod expression_p;
pub mod header_p_of_array_of_table;
pub mod header_p_of_table;
pub mod inline_table;
pub mod key_value_p;
pub mod literal_value_p;
pub mod positional_numeral_string_p;
pub mod single_quoted_string_p;
