pub mod audio;
pub mod cli;
pub mod session;
pub mod transcription;
