//! Request handling logic of the lidar edge web service: command-line
//! argument assembly for the lidar tools, the line grammar of the utility's
//! report output, the replay-state machine and the fixed replies.

pub mod text;
pub mod dict;
pub mod util_log;
pub mod json;
pub mod cli;
pub mod request;
pub mod replay;
pub mod handlers;
pub mod mock;
