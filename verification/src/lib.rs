//! The decision-making core of `geotop`, a live network and log monitor with
//! a world map: configuration rules, event parsing, bookkeeping, layout of
//! the dashboard and the integer geometry of the map renderer.
//!
//! Everything here works on plain values. Sockets, files, clocks, windows and
//! floating-point drawing live in the program around this library.

pub mod text;
pub mod ip;
pub mod cli;
pub mod clock;
pub mod event;
pub mod ingest;
pub mod ieee;
pub mod paths;
pub mod config;
pub mod hex_color;
pub mod ui;
pub mod geo;
pub mod db_downloader;
pub mod home;
pub mod slices;
pub mod units;
