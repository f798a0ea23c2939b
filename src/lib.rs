//! State engine of a tray indicator for a VPN client daemon: parsing of the
//! daemon's text output, the arguments of its commands, and the tray's model.
pub mod text;
pub mod parse;
pub mod vpn;
pub mod tray;
