//! The interactive shell: its commands, its question-and-answer memory and the
//! text format in which that memory is stored.

pub mod answer;
pub mod answer_law;
pub mod boot;
pub mod codec;
pub mod history;
pub mod log_view;
pub mod persist;
pub mod replay;
pub mod replay_law;
pub mod session;
pub mod session_law;
pub mod text;
pub mod text_law;
pub mod white_law;
