//! Recognition of hand-drawn gestures from fingertip traces.
//!
//! Angles are held as signed micro-radians and lengths and coordinates as
//! micrometres, so that every comparison the recognizer makes is exact.
pub mod angle;
pub mod config;
pub mod model;
pub mod point;
pub mod trace;
pub mod store;
pub mod template;
pub mod controller;
pub mod fragment;
pub mod builtin;
