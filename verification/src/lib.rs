//! The realtime core of a small audio mixer: filters, a spectral engine,
//! metering and the message protocol that drives them.
pub mod audio;
pub mod cli;
pub mod data;
pub mod effects;
pub mod gui;
pub mod meter;
pub mod monitor_data;
pub mod novation_launch_control;
pub mod ports;
pub mod ring;
pub mod sample;
