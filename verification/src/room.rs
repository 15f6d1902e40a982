//! Endpoints for rooms.

pub mod report_room;
