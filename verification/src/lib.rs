//! Verified rules that classify the parameters and return conventions of
//! method signatures read from Windows metadata, the decisions taken when the
//! rules' records are read from metadata files, and the COM interface handles
//! and constants of the Windows Media library sharing services.

pub mod sharing;
pub mod model;
pub mod kinds;
pub mod attributes;
pub mod types;
pub mod params;
pub mod signature;
pub mod reader;
