//! The request checks of the HTTP server: what a request must carry, and
//! what the server answers when it does not.
pub mod url_params;
pub mod media;
pub mod content;
pub mod files;
pub mod checks;
pub mod socket;
pub mod messages;
