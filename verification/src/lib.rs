//! Network interface classification and wireless scan parsing.
//!
//! The library turns the text that the system's link and wireless tools
//! print into typed records. It runs no command and reads no file itself:
//! the caller hands it the text, and gets back interfaces, networks and the
//! words in which a failure is reported.
//!
//! Every executable function carries a contract over sequences of
//! characters, and Verus proves the body against it. The modules
//! [`interface_model`] and [`scan_model`] say what the text means;
//! [`network`] and [`scanner`] compute it. [`ui`] holds what an interactive
//! screen shows and what each key does to it.

pub mod channel;
pub mod command;
pub mod interface_model;
pub mod mac;
pub mod network;
pub mod number;
pub mod outside;
pub mod ranking;
pub mod scan_model;
pub mod scanner;
pub mod text;
pub mod ui;
