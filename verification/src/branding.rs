//! Branding of the application: its names, version, logo, colours, links and notices.
use vstd::prelude::*;

pub mod about;
pub mod colors;
pub mod copyright;
pub mod social;

verus! {

/// Application name.
pub const APP_NAME: &'static str = "Aurora Compass";

/// Short form of the application name.
pub const APP_NAME_SHORT: &'static str = "Aurora";

/// Application tagline.
pub const APP_TAGLINE: &'static str = "Navigate the ATmosphere";

/// Application version.
pub const APP_VERSION: &'static str = "0.1.0";

/// Logo file path (relative to the repository root).
pub const LOGO_PATH: &'static str = "logo.png";

} // verus!
