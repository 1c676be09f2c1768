//! The command-line options of the application.

use vstd::prelude::*;

verus! {

/// The command-line options.
#[derive(Debug, Clone, Default)]
pub struct CliArgs {
    /// Start with the main window hidden.
    pub start_hidden: bool,
    /// Disable the system tray icon.
    pub no_tray: bool,
    /// Toggle transcription on or off in the running instance.
    pub toggle_transcription: bool,
    /// Toggle transcription with post-processing in the running instance.
    pub toggle_post_process: bool,
    /// Cancel the current operation in the running instance.
    pub cancel: bool,
    /// Verbose logging.
    pub debug: bool,
    /// List the transcription compute devices and exit.
    pub list_devices: bool,
}

} // verus!
