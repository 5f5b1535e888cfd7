use vstd::prelude::*;

pub mod bytes;
pub mod capture;
pub mod cli;
pub mod crypto;
pub mod display;
pub mod encode;
pub mod logging;
pub mod packet;
pub mod payloads;
pub mod proto;
pub mod protocol;
pub mod qr;
pub mod session;
pub mod status;
pub mod streams;
pub mod text;
pub mod ui;

verus! {
} // verus!
