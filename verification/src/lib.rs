//! A native-process debugger core whose bookkeeping is verified: a session
//! state machine that launches a tracee under operating-system trace
//! control, arms software breakpoints by patching trap opcodes into its
//! memory, makes them transparent to the instruction stream when resuming,
//! and reconstructs call chains by the frame-pointer convention. The laws
//! of the resume algorithm are proved over an abstract tracee model in
//! [`model`].
//!
//! Around the debugger live the verified utilities that grew up beside it:
//! vector exercises, guessing-game round logic, a longest-common-subsequence
//! table with line diffing, word-count statistics, a process file-descriptor
//! listing, a linked list, and a token-bucket rate limiter.

pub mod breakpoint;
pub mod debugger;
pub mod debugger_command;
pub mod grid;
pub mod hangman;
pub mod inferior;
pub mod linked_list;
pub mod model;
pub mod process;
pub mod rate_limiter;
pub mod rdiff;
pub mod stack;
pub mod symbols;
pub mod trace;
pub mod warmup;
pub mod wc;
pub mod word;
