//! Machine-local mail between agent rooms: the rules, formats and state machines.
pub mod channel;
pub mod chat;
pub mod cli;
pub mod command;
pub mod context;
pub mod cursor;
pub mod declaring;
pub mod delivery;
pub mod doctor;
pub mod error;
pub mod fence;
pub mod history;
pub mod ids;
pub mod inbox;
pub mod joining;
pub mod laws;
pub mod mail;
pub mod model;
pub mod names;
pub mod order;
pub mod output;
pub mod outside;
pub mod owner;
pub mod paths;
pub mod presence;
pub mod profile;
pub mod reading;
pub mod registering;
pub mod rooms;
pub mod schema;
pub mod send;
pub mod signed;
pub mod store;
pub mod text;
pub mod textmap;
pub mod transcript;
pub mod watch;
