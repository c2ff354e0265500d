//! Platform-independent Easel wallpaper domain: displays, schedules,
//! rotation queues, dynamic still sets, suitability, and library helpers.

pub mod text;
pub mod display;
pub mod ids;
pub mod schedule;
pub mod asset;
pub mod suitability;
pub mod rotation;
pub mod collection;
pub mod display_group;
pub mod history;
pub mod hotplug;
pub mod smoke;
pub mod probe;
pub mod cache;
pub mod xmp;
pub mod calendar;
pub mod dynamic;
pub mod evaluation;
pub mod profile;
pub mod apple;
pub mod bundle;
pub mod heic;
pub mod encode;
pub mod plasma;
pub mod playback;
pub mod slideshow;
