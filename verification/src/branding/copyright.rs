//! Copyright information.
use vstd::prelude::*;
use crate::text::concat2;

verus! {

/// Copyright years.
pub const YEAR: &'static str = "2024-2025";

/// Copyright holder.
pub const HOLDER: &'static str = "Aurora Compass Team";

/// Licence.
pub const LICENSE: &'static str = "MIT";

/// The full copyright notice: `© YEAR HOLDER. Licensed under LICENSE.`
pub fn notice() -> (r: String)
    ensures
        r@ == "© "@ + YEAR@ + " "@ + HOLDER@ + ". Licensed under "@ + LICENSE@ + "."@,
{
    let mut s = concat2("© ", YEAR);
    s.append(" ");
    s.append(HOLDER);
    s.append(". Licensed under ");
    s.append(LICENSE);
    s.append(".");
    s
}

} // verus!
