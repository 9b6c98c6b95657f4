//! An application-level proxy router.
//!
//! Packets of selected processes are diverted to a local transparent proxy, which
//! forwards them through a SOCKS5 server. This crate holds the rules of that router:
//! what is read from a packet and how it is rewritten, which flows are redirected and
//! where they originally went, the SOCKS5 messages, and the bookkeeping around them.
//! Everything here is plain computation; sockets, the packet driver, the clock and the
//! terminal belong to the program that drives it.

pub mod clock;
pub mod config;
pub mod laws;
pub mod logging;
pub mod net;
pub mod proxy;
pub mod router;
pub mod table;
pub mod text;
pub mod tui;
pub mod windows;
