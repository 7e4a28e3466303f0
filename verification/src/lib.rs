//! Names that a host overrides, and the lifecycle of the system service that does it.
//!
//! - Names and where they lead: [`name`], [`target`], [`address`], [`mapping`].
//! - What is installed and how it is recorded: [`model`], [`generation`], [`source`],
//!   [`publications`], [`units`], [`paths`], [`digest`], [`encoding`].
//! - What is found on the host: [`files`], [`observation`], [`snapshot`], [`state`], [`status`],
//!   [`integrity`], [`bootstrap`], [`cleanup`].
//! - What is planned, approved and shown: [`plan`], [`preparing`], [`approval`], [`effects`], [`labels`],
//!   [`commands`], [`fault`].
//! - What is done, step by step: [`installing`], [`publishing`], [`rolling`],
//!   [`uninstalling`], [`recovering`], [`recovery`], [`manager`], [`health`], [`sockets`],
//!   [`storage`], [`disk`], [`linking`], [`runtime`].
//! - What keeps the resolver in place: [`supervisor`], [`worker`], [`stability`], [`link`],
//!   [`upstreams`], [`exchange`], [`events`], [`native`].
//! - What source files are held to: [`quality`], [`syntax`].
//!
//! [`text`], [`json`], [`order`] and [`course`] hold what all of these share.

pub mod address;
pub mod approval;
pub mod bootstrap;
pub mod cleanup;
pub mod commands;
pub mod course;
pub mod digest;
pub mod disk;
pub mod effects;
pub mod encoding;
pub mod events;
pub mod exchange;
pub mod fault;
pub mod files;
pub mod generation;
pub mod health;
pub mod installing;
pub mod integrity;
pub mod json;
pub mod labels;
pub mod link;
pub mod linking;
pub mod manager;
pub mod mapping;
pub mod model;
pub mod name;
pub mod native;
pub mod observation;
pub mod order;
pub mod paths;
pub mod plan;
pub mod preparing;
pub mod publications;
pub mod publishing;
pub mod quality;
pub mod recovering;
pub mod recovery;
pub mod rolling;
pub mod runtime;
pub mod snapshot;
pub mod sockets;
pub mod source;
pub mod stability;
pub mod state;
pub mod status;
pub mod storage;
pub mod supervisor;
pub mod syntax;
pub mod target;
pub mod text;
pub mod uninstalling;
pub mod units;
pub mod upstreams;
pub mod worker;
