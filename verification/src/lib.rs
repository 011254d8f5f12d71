//! The verified core of a silent-payment wallet's command line: how arguments are
//! read, where a scan starts, which transactions carry a payment, what a new
//! transaction pays, and what is reported back.

pub mod block;
pub mod bytemap;
pub mod bytes;
pub mod chain;
pub mod command;
pub mod frigate;
pub mod json;
pub mod network;
pub mod payment;
pub mod prevouts;
pub mod recipient;
pub mod report;
pub mod rpc;
pub mod scan;
pub mod secrets;
pub mod text;
pub mod time;
pub mod transaction;
