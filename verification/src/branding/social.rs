//! Links of the project.
use vstd::prelude::*;

verus! {

/// Official website.
pub const WEBSITE: &'static str = "https://aurora-compass.app";

/// Source repository.
pub const GITHUB: &'static str = "https://github.com/yourusername/aurora-compass";

/// Support e-mail address.
pub const SUPPORT_EMAIL: &'static str = "support@aurora-compass.app";

} // verus!
