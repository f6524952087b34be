//! Skill management: the data model, naming rules, entry lookup, directory
//! reconciliation and the command flow.
pub mod names;
pub mod model;
pub mod clock;
pub mod keyed;
pub mod scan;
pub mod format;
pub mod manager;
pub mod add;
pub mod lookup;
pub mod markdown;
pub mod download;
