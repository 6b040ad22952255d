//! Podforge library: the verified core of a local music library manager.

pub mod text;
pub mod numbers;
pub mod models;
pub mod paths;
pub mod convert;
pub mod cd_detect;
pub mod cd_rip;
pub mod disc_id;
pub mod folder_scan;
pub mod tags;
pub mod ipod_fix;
pub mod musicbrainz;
pub mod cover_art;
pub mod settings;
pub mod jobs;
pub mod commands;
pub mod bin_path;
pub mod order;
