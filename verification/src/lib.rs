//! A voxel game server: the loaded world with its saved edits, weather that
//! damages it, an assistant that builds in it, and the games played there.
//!
//! What is here decides and computes; sockets, files, clocks, floating point
//! geometry and the wiring of it all are left to the program around it.
//!
//! * The world: [`pos`], [`block`] and [`chunk`] are its parts, [`cache`] and
//!   [`blocks`] what is loaded of it, [`scan`] and [`paint`] ways to read and write
//!   much of it at once.
//! * What lasts: [`overlay`] and [`persist`] keep edits ([`le`] their bytes),
//!   [`replay`] puts them back into chunks that load, [`publish`] brings snapshots
//!   to the disk.
//! * The assistant: [`agent`], [`query`] and [`sidecar`] are its side, [`session`],
//!   [`bridge`], [`actions`] and [`reads`] the server's.
//! * The sky: [`weather`], [`forecast`], [`cityweather`] and their [`command`]s.
//! * The games: [`lotus`], [`skyblock`], [`npc`] and [`team`].
//! * Around it: [`entity`], [`server`], [`chance`] and [`text`].

pub mod actions;
pub mod agent;
pub mod block;
pub mod blocks;
pub mod bridge;
pub mod cache;
pub mod chance;
pub mod chunk;
pub mod cityweather;
pub mod command;
pub mod entity;
pub mod forecast;
pub mod le;
pub mod lotus;
pub mod npc;
pub mod overlay;
pub mod paint;
pub mod persist;
pub mod pos;
pub mod publish;
pub mod query;
pub mod reads;
pub mod replay;
pub mod scan;
pub mod server;
pub mod session;
pub mod sidecar;
pub mod skyblock;
pub mod team;
pub mod text;
pub mod weather;
