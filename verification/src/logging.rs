//! The diagnostic channel: the five severities as the numbers that a
//! registered callback receives, and the text that it receives.

use vstd::prelude::*;

verus! {

/// The "error" level designates very serious errors
pub const RASCAL_LOG_LEVEL_ERROR: i32 = 1;

/// The "warn" level designates hazardous situations
pub const RASCAL_LOG_LEVEL_WARN: i32 = 2;

/// The "info" level designates useful information
pub const RASCAL_LOG_LEVEL_INFO: i32 = 3;

/// The "debug" level designates lower priority information
///
/// By default, log messages at this level are disabled in release mode, and
/// enabled in debug mode.
pub const RASCAL_LOG_LEVEL_DEBUG: i32 = 4;

/// The "trace" level designates very low priority, often extremely verbose,
/// information.
pub const RASCAL_LOG_LEVEL_TRACE: i32 = 5;

/// Whether `level` is one of the five severities.
pub open spec fn is_level(level: i32) -> bool {
    1 <= level <= 5
}

/// Whether a message of severity `level` passes when messages up to
/// `max_level` are enabled: the more serious a message, the lower its number.
pub open spec fn passes(level: i32, max_level: i32) -> bool {
    is_level(level) && level <= max_level
}

/// Whether `level` is one of the five severities.
pub fn is_log_level(level: i32) -> (r: bool)
    ensures
        r == is_level(level),
{
    RASCAL_LOG_LEVEL_ERROR <= level && level <= RASCAL_LOG_LEVEL_TRACE
}

/// The most verbose severity that is enabled when a callback is set: debug
/// in a development build, info otherwise.
pub fn default_max_level(development_build: bool) -> (level: i32)
    ensures
        level == if development_build {
            RASCAL_LOG_LEVEL_DEBUG
        } else {
            RASCAL_LOG_LEVEL_INFO
        },
        is_level(level),
{
    if development_build {
        RASCAL_LOG_LEVEL_DEBUG
    } else {
        RASCAL_LOG_LEVEL_INFO
    }
}

/// Whether a message of severity `level` is handed to the callback when
/// messages up to `max_level` are enabled.
pub fn level_enabled(level: i32, max_level: i32) -> (r: bool)
    ensures
        r == passes(level, max_level),
{
    is_log_level(level) && level <= max_level
}

/// The text that the callback receives for a log event: where the event
/// comes from, then ` -- `, then what it says.
///
/// Trusted: `format!` of std with the template `{} -- {}` on two strings
/// writes the first, the four characters of the template between the
/// braces, and the second.
#[verifier::external_body]
pub(crate) fn join_message(target: &str, args: &str) -> (message: String)
    ensures
        message@ == target@ + " -- "@ + args@,
{
    format!("{} -- {}", target, args)
}

/// The text that the callback receives for a log event at `target` that
/// says `args`.
pub fn format_message(target: &str, args: &str) -> (message: String)
    ensures
        message@ == target@ + " -- "@ + args@,
        message@.len() == target@.len() + 4 + args@.len(),
{
    proof {
        reveal_strlit(" -- ");
    }
    join_message(target, args)
}

} // verus!
