//! The decisions behind the application's commands: validating what the
//! interface sends, and shaping what it is sent back.

pub mod assistant;
pub mod autolearn;
pub mod meetings;
pub mod stt_cloud;
