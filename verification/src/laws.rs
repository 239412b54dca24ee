//! What holds of the codec as a whole.
pub mod attrs;
pub mod layout;
pub mod links;
pub mod messages;
pub mod replies;
pub mod reports;
pub mod requests;
pub mod traffic;
