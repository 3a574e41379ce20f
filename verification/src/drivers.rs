//! What the device drivers are configured with.

pub mod gpio;
