//! The about text of the application.
use vstd::prelude::*;
use crate::branding::copyright::notice;
use crate::branding::{APP_NAME, APP_TAGLINE, APP_VERSION};
use crate::text::concat2;

verus! {

/// What the about text says between the tagline and the copyright notice.
pub const ABOUT_BODY: &'static str = "A fork of Bluesky maintaining the same great UX with added freedom:\n• Optional moderation services (not forced)\n• Custom AppView configuration per user\n• Same beautiful design and features\n\nBuilt with Rust and ❤️";

/// The about text: name and version, tagline, what the application offers, and the copyright
/// notice, separated by blank lines.
pub fn text() -> (r: String)
    ensures
        r@ == APP_NAME@ + " v"@ + APP_VERSION@ + "\n\n"@ + APP_TAGLINE@ + "\n\n"@ + ABOUT_BODY@ + "\n\n"@
            + "© "@ + crate::branding::copyright::YEAR@ + " "@ + crate::branding::copyright::HOLDER@
            + ". Licensed under "@ + crate::branding::copyright::LICENSE@ + "."@,
{
    let mut s = concat2(APP_NAME, " v");
    s.append(APP_VERSION);
    s.append("\n\n");
    s.append(APP_TAGLINE);
    s.append("\n\n");
    s.append(ABOUT_BODY);
    s.append("\n\n");
    let n = notice();
    s.append(n.as_str());
    s
}

} // verus!
