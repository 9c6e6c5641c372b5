//! Server side: capture decisions, frame preparation and session control.

pub mod capture;
pub mod cli;
pub mod damage;
pub mod dispatch;
pub mod downscale;
pub mod frame_loop;
pub mod payload;
pub mod session;
