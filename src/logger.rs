//! The debug trace sink's switch.
use vstd::prelude::*;

verus! {

/// log's error for a logger installed twice.
#[verifier::external_type_specification]
#[verifier::external_body]
pub struct ExSetLoggerError(log::SetLoggerError);

/// Relies on log::set_max_level: lets records up to debug level through to
/// the installed logger.
#[verifier::external_body]
fn enable_debug_level() {
    log::set_max_level(log::LevelFilter::Debug)
}

/// Turns debug tracing on once the sink has been handed to `log`:
/// `installed` is what installing it returned. Returns whether tracing is on.
pub fn init(installed: Result<(), log::SetLoggerError>) -> (r: bool)
    ensures
        r == installed is Ok,
{
    match installed {
        Ok(()) => {
            enable_debug_level();
            true
        },
        Err(_) => false,
    }
}

} // verus!
