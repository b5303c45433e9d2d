//! Control core of a dual-channel bench power supply that speaks a
//! line-oriented text protocol: numeric literals, reply framing and the
//! batched status report, setpoint commands, and the panel's decisions.
pub mod number;
pub mod frame;
pub mod command;
pub mod panel;
