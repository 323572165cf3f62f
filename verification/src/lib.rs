//! Adaptive screen-brightness control: a frame-capture state machine that
//! feeds on-screen luminance to a predictor which learns the preferred
//! brightness for each lighting condition from manual overrides.

pub mod frame;
pub mod predictor;
