//! A generic, embeddable lexical-analysis engine.
//!
//! A stream of characters is turned into a sequence of typed tokens by trying
//! a priority-ordered set of caller-supplied recognizers at each cursor
//! position. The engine supplies position tracking, dispatch ordering and
//! token bookkeeping; callers supply the grammar as recognizer units.

mod input;
mod lexer;
mod line;
mod lines;
mod reader;
mod reader_result;
mod readers;
mod state;
mod token;
mod token_error;
mod token_meta;

pub use input::Input;
pub use input::lemma_realizations_agree;
pub use input::spec_peek;
pub use lexer::Lexer;
pub use lexer::StepAction;
pub use lexer::settle;
pub use line::Line;
pub use lines::Lines;
pub use lines::breaks_only_at_end;
pub use lines::lemma_lines_chars_prefix;
pub use lines::lemma_lines_chars_push;
pub use lines::lemma_lines_chars_take_succ;
pub use lines::lines_chars;
pub use lines::lines_contiguous;
pub use reader::Reader;
pub use reader_result::ReaderResult;
pub use readers::ReaderEntry;
pub use readers::Readers;
pub use readers::ReadersBuilder;
pub use readers::insert_stable;
pub use readers::lemma_insert_sorted;
pub use readers::lemma_slot_order;
pub use readers::lemma_slot_range;
pub use readers::slot;
pub use readers::sorted_by_priority;
pub use state::State;
pub use state::col_of;
pub use state::is_line_break;
pub use state::lemma_line_col_monotone;
pub use state::lemma_start_wf;
pub use state::lemma_take_one_more;
pub use state::lemma_wf_bounds;
pub use state::line_of;
pub use token::Token;
pub use token_error::TokenError;
pub use token_meta::TokenMeta;
pub use token_meta::lemma_tiled_spans_cover;
pub use token_meta::spans_tiled;
pub use token_meta::total_length;
