//! Control plane of a rocket-engine test stand: the controller state guard,
//! the telemetry channel and its wire format, command framing and execution,
//! sensor sampling and driver observation, all as verified decision logic.
//!
//! Nothing here touches a file, a socket or a GPIO line. Each component takes
//! what was read and says what is to be written; the program around the
//! library carries that out.

pub mod adc;
pub mod clock;
pub mod config;
pub mod execution;
pub mod incoming;
pub mod json;
pub mod logs;
pub mod observer;
pub mod outgoing;
pub mod sampler;
pub mod session;
pub mod state;
pub mod window;
