//! Every visible path to the privileged daemon socket directory.
//!
//! Mount roots describe filesystem identity; canonical paths alone miss bind
//! mounts.
pub mod ancestry;
pub mod discovery;
pub mod exposure_laws;
pub mod isolation;
pub mod laws;
pub mod mountinfo;
pub mod path;
pub mod table_laws;
