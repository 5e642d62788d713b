//! Verified core of a multi-output audio router.
//!
//! System audio is captured once and played on several output devices at the
//! same time. This crate holds the rules of that: the broadcast ring buffer
//! between capture and playback, the conversion of capture packets, the
//! render, engine and session state machines, the device and config model.
//! Audio samples are carried as `f32` bit patterns (`u32`), so nothing here
//! computes with floating-point numbers.
pub mod capture;
pub mod config;
pub mod devices;
pub mod engine;
pub mod hotplug;
pub mod render;
pub mod ring;
pub mod session;
pub mod text;
pub mod tone;
