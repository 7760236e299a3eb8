//! Core of a rotating persistence-of-vision LED display: frame encoding,
//! sparse keyframe animations, the animation store used by the display
//! loop, the encoder protocol, the display state machine and the web API.

pub mod frame;
pub mod animation;
pub mod wire;
pub mod pool;
pub mod display;
pub mod scan;
pub mod fsm;
pub mod encoder;
pub mod pipeline;
pub mod renderer;
pub mod web;
