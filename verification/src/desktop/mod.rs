//! The desktop shell: session timeline, hotkeys, probes, devices, permissions
//! and the files it keeps.
pub mod binding;
pub mod calibration;
pub mod commands;
pub mod crypto;
pub mod devices;
pub mod dsp;
pub mod hotkey;
pub mod meter;
pub mod native_probe;
pub mod onboarding;
pub mod permissions;
pub mod samples;
pub mod session;
pub mod state;
pub mod wave;
