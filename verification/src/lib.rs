//! The verified core of a traceroute and ping tool: the probing engine, the
//! packets it sends and reads, the statistics of every hop, name resolution and
//! the contents of the screen. Sockets, threads, clocks, floating-point
//! arithmetic and drawing stay with the caller.

pub mod text;
pub mod double;
pub mod address;
pub mod packet;
pub mod event;
pub mod prober;
pub mod prober_laws;
pub mod windows_prober;
pub mod hop;
pub mod hop_laws;
pub mod route;
pub mod route_laws;
pub mod application;
pub mod resolver;
pub mod clock;
pub mod layout;
pub mod display;
pub mod display_laws;
pub mod input;
