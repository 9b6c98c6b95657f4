//! What the library is for, in terms of octets, characters and numbers.
//!
//! The functions of the library say what they return over the models of their own modules. Here
//! stands what those models come to: which octet of a packet, a message or a table means what, how
//! two calls relate, and what never changes.
pub mod adapter;
pub mod endpoint;
pub mod flow;
pub mod messages;
pub mod net;
pub mod packet;
pub mod process;
pub mod query;
pub mod relay;
pub mod router;
pub mod screen;
pub mod session;
pub mod socks5;
pub mod text;
