//! Brightness control logic for monitors: localization of the user interface,
//! monitor enumeration and brightness arithmetic, and the single instance lock.

pub mod utils;
pub mod localization;
pub mod monitors;
pub mod edid;
