//! Brand colours, taken from the logo.
use vstd::prelude::*;

verus! {

/// Primary brand colour (navy blue of the compass).
pub const PRIMARY: &'static str = "#1E3A5F";

/// Secondary brand colour (purple of the aurora).
pub const SECONDARY_PURPLE: &'static str = "#9D4EDD";

/// Secondary brand colour (blue of the aurora).
pub const SECONDARY_BLUE: &'static str = "#3A86FF";

/// Secondary brand colour (cyan of the aurora).
pub const SECONDARY_CYAN: &'static str = "#06FFA5";

/// Accent colour (gold of the compass detail).
pub const ACCENT_GOLD: &'static str = "#FFB703";

/// Background colour (light theme).
pub const BACKGROUND_LIGHT: &'static str = "#FFFFFF";

/// Background colour (dark theme).
pub const BACKGROUND_DARK: &'static str = "#0A0F1A";

/// Background colour (dim theme).
pub const BACKGROUND_DIM: &'static str = "#1A2332";

} // verus!
