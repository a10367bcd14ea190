//! Mirrors new and updated extension releases from a release feed into a
//! downstream registry repository.

pub mod text;
pub mod version;
pub mod dist;
pub mod trunk;
pub mod github;
pub mod archive;
pub mod sync;
