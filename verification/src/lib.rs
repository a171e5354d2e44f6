//! Squad replay bundles: classification, log merging, timelines, ticket
//! accounting and the `.sqrb` container, with contracts proved by Verus.

pub mod calendar;
pub mod outside;
pub mod text;
pub mod classify;
pub mod name_laws;
pub mod float_bits;
pub mod bundle;
pub mod string_map;
pub mod time_order;
pub mod le_bytes;
pub mod formats;
pub mod parts;
pub mod format_laws;
pub mod log_laws;
pub mod log_parser;
pub mod numbers;
pub mod game_mode;
pub mod ticket_laws;
pub mod ticketproof;
pub mod grouped;
pub mod timeline;
pub mod cli;
pub mod text_laws;
pub mod operation_laws;
