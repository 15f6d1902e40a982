//! Endpoints for user profiles.

pub mod delete_profile_key;
pub mod delete_timezone_key;
pub mod get_profile;
pub mod get_profile_key;
pub mod get_timezone_key;
pub mod set_timezone_key;
