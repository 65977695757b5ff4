pub mod agent;
pub mod api;
pub mod apple_vz;
pub mod base64;
pub mod catalog;
pub mod cli;
pub mod client;
pub mod config;
pub mod creation;
pub mod daemon;
pub mod firecracker;
pub mod forwards;
pub mod guard;
pub mod ident;
pub mod ip;
pub mod json;
pub mod limiter;
pub mod logs;
pub mod net;
pub mod orchestrator;
pub mod path;
pub mod proto;
pub mod shell;
pub mod sorted;
pub mod state;
pub mod storage;
pub mod tables;
pub mod text;
pub mod traffic;
pub mod unread;
pub mod upkeep;
pub mod vmm;
