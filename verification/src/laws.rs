//! What the operations are for: what their results hold, told by their inputs alone.
pub mod routes;
pub mod mailing;
pub mod posting;
pub mod channel_reads;
pub mod doorbell;
pub mod words;
pub mod places;
pub mod identity;
pub mod registry;
pub mod failures;
pub mod mailbox;
pub mod display;
pub mod attendance;
pub mod writing;
pub mod profiles;
pub mod ownership;
pub mod signatures;
pub mod diagnosis;
pub mod stamping;
pub mod joins;
pub mod requests;
pub mod conversation;
pub mod seeing;
pub mod telling;
pub mod transcripts;
pub mod fencing;
pub mod arguments;
