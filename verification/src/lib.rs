//! Verified core of the ZeroNode VPN desktop client.
use vstd::prelude::*;

pub mod text;
pub mod num;
pub mod ovpn;
pub mod wireguard;
pub mod prefs;
pub mod json;
pub mod helper;
pub mod cooldown;
pub mod display;
pub mod session;
pub mod cli;
pub mod servers;
pub mod tor;
pub mod launch;
pub mod android;
pub mod connect;
pub mod geo;

verus! {
} // verus!
