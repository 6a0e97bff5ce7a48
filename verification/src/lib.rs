//! Application footprint inventory: the parsing, planning and bookkeeping
//! logic behind the package adapters (dpkg, rpm, Flatpak, Snap, AppImage).

pub mod text;
pub mod clock;
pub mod models;
pub mod adapters;
pub mod case;
pub mod paths;
pub mod cancel;
pub mod discovery;
pub mod laws;
pub mod adapter_laws;
