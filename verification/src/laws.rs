//! What holds across operations.

pub mod answering;
pub mod charge;
pub mod commands;
pub mod encoding;
pub mod execution;
pub mod granting;
pub mod grants;
pub mod history;
pub mod keeping;
pub mod listing;
pub mod numbering;
pub mod pairing;
pub mod pins;
pub mod publishing;
pub mod records;
pub mod recovering;
pub mod running;
pub mod sharing;
pub mod showing;
pub mod storage;
pub mod surroundings;
pub mod texts;
pub mod tidying;
pub mod update;
pub mod waiting;
pub mod wording;
pub mod writing;
