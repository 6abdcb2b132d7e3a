//! Verbosity levels.

use vstd::prelude::*;

verus! {

/// The name of the log level that verbosity `v` selects: `0` is the quietest,
/// `2` the most detailed, and every other value means the default level.
pub open spec fn level_name(v: u8) -> Seq<char> {
    if v == 0 {
        "warn"@
    } else if v == 2 {
        "debug"@
    } else {
        "info"@
    }
}

/// Maps a numeric verbosity to the name of a log level.
pub fn level_from_verbosity(v: u8) -> (level: &'static str)
    ensures
        level@ == level_name(v),
{
    match v {
        0 => "warn",
        2 => "debug",
        _ => "info",
    }
}

} // verus!
