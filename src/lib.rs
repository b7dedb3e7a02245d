//! A speedrun split timer: the state machine that times an attempt section by
//! section, the merge of a finished attempt into the personal best and the sum of
//! best segments, the cells that compare an attempt against both, and the text
//! form in which records are stored.
pub mod display;
pub mod merge;
pub mod record;
pub mod run;
pub mod run_file;
pub mod time_text;
