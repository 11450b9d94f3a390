//! Skeleton of an interactive application: a per-frame input-event tracker
//! with edge detection, and an append-only widget tree addressed by stable
//! integer handles.

pub mod input;
pub mod widget;
