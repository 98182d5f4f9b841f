//! A small interactive-shell core: a line editor with cursor tracking and
//! prefix completion, a tokenizer that splits an input line into arguments
//! and output redirections under POSIX-like quoting rules, and an evaluator
//! that resolves executables and dispatches builtins. Everything that must
//! touch the outside world (reading keys, listing directories, spawning) is
//! taken in or handed back as plain values, so every decision here is
//! verified.

pub mod command;
pub mod complete;
pub mod editor;
pub mod eval;
pub mod fsview;
pub mod numeric;
pub mod shell;
pub mod text;
pub mod tokenize;

pub use command::ParsedCommand;
pub use command::Redirect;
pub use command::Stream;
pub use command::effective_redirect;
pub use complete::TabOutcome;
pub use complete::complete;
pub use complete::longest_common_prefix;
pub use complete::tab_action;
pub use editor::LineBuffer;
pub use eval::Action;
pub use eval::CdDecision;
pub use eval::Evaluation;
pub use eval::OutLine;
pub use eval::cd_outcome;
pub use eval::cd_target;
pub use eval::echo_text;
pub use eval::exit_code;
pub use eval::not_found_message;
pub use fsview::DirListing;
pub use fsview::FileEntry;
pub use fsview::FsView;
pub use numeric::parse_i32;
pub use shell::ParsedLine;
pub use shell::Shell;
