//! What users are promised, said of what goes in and what comes out: of the
//! windows and workspaces that the compositor lists, of what the daemon is
//! asked and asks in turn, and of the text that is read and printed.
pub mod answers;
pub mod commands;
pub mod events;
pub mod order;
pub mod parking;
pub mod pins;
pub mod refusals;
pub mod reports;
pub mod requests;
pub mod restart;
pub mod rules;
pub mod scratchpads;
pub mod settings;
pub mod several;
pub mod texts;
pub mod tracking;
pub mod windows;
pub mod wire;
