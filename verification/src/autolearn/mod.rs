//! Learning a spelling from a correction the user already made: deciding what
//! an edit taught (`detect`), recognising the field that was dictated into
//! (`watch`), and keeping the learned words (`learner`).

pub mod detect;
pub mod learner;
pub mod watch;
