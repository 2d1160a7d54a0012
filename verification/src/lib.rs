//! Verified core of the jingOS kernel monitor: input decoding, line editing,
//! scheduling, syscall dispatch and the page-table walk.

pub mod keyboard;
pub mod line;
pub mod history;
pub mod task;
pub mod text;
pub mod memory;
pub mod syscall;
pub mod usermode;
pub mod user_program;
pub mod interrupts;
pub mod heap;
pub mod number;
pub mod monitor;
pub mod framebuffer;
pub mod script;
pub mod command;
