//! The core of a desktop quick launcher: loading provider plugins, scoring
//! labels against a query, and merging every provider's results into one
//! ranked list, each part with a contract proved by Verus.

pub mod catalogue;
pub mod desktop;
pub mod error;
pub mod files;
pub mod icons;
pub mod loader;
pub mod merge;
pub mod plugin;
pub mod preferences;
pub mod providers;
pub mod rank;
pub mod recent;
pub mod score;
pub mod shared;
pub mod text;
