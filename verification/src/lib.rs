pub mod backend;
pub mod command;
pub mod horizon;
pub mod information;
pub mod label;
pub mod laws;
pub mod layout;
pub mod mind;
pub mod object;
pub mod point;
pub mod productivity;
pub mod reminder;
pub mod storage;
pub mod task;
pub mod text;
pub mod time;

pub use crate::command::Command;
pub use crate::mind::Mind;
pub use crate::productivity::Productivity;
pub use crate::reminder::NthWeekday;
pub use crate::reminder::Reminder;
pub use crate::reminder::Repeat;
pub use crate::storage::Storage;
pub use crate::task::Task;
