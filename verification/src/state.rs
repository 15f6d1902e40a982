//! Endpoints for room state.

pub mod get_state_events_for_key;
