//! The system commands that have nothing to do on Linux. They exist so
//! that the same commands can be given on every system.

use crate::error::RigError;
use vstd::prelude::*;

verus! {

/// The arguments of a command, as `clap` hands them over. Nothing here
/// looks inside.
#[verifier::external_type_specification]
#[verifier::external_body]
pub struct ExArgMatches(clap::ArgMatches);

/// Nothing to do on Linux. It never fails.
pub fn sc_system_allow_core_dumps(_args: &clap::ArgMatches) -> (r: Result<(), RigError>)
    ensures
        r is Ok,
{
    Ok(())
}

/// Nothing to do on Linux. It never fails.
pub fn sc_system_allow_debugger(_args: &clap::ArgMatches) -> (r: Result<(), RigError>)
    ensures
        r is Ok,
{
    Ok(())
}

/// Nothing to do on Linux. It never fails.
pub fn sc_system_allow_debugger_rstudio(_args: &clap::ArgMatches) -> (r: Result<(), RigError>)
    ensures
        r is Ok,
{
    Ok(())
}

/// Nothing to do on Linux. It never fails.
pub fn sc_system_make_orthogonal(_args: &clap::ArgMatches) -> (r: Result<(), RigError>)
    ensures
        r is Ok,
{
    Ok(())
}

/// Nothing to do on Linux. It never fails.
pub fn sc_system_fix_permissions(_args: &clap::ArgMatches) -> (r: Result<(), RigError>)
    ensures
        r is Ok,
{
    Ok(())
}

/// Nothing to do on Linux. It never fails.
pub fn sc_system_forget() -> (r: Result<(), RigError>)
    ensures
        r is Ok,
{
    Ok(())
}

/// Nothing to do on Linux. It never fails.
pub fn sc_system_no_openmp(_args: &clap::ArgMatches) -> (r: Result<(), RigError>)
    ensures
        r is Ok,
{
    Ok(())
}

/// Nothing to do on Linux: there is no registry. It never fails.
pub fn sc_clean_registry() -> (r: Result<(), RigError>)
    ensures
        r is Ok,
{
    Ok(())
}

/// Nothing to do on Linux: there are no build tools to update. It never
/// fails.
pub fn sc_system_update_rtools40() -> (r: Result<(), RigError>)
    ensures
        r is Ok,
{
    Ok(())
}

/// Accepts every version: whether the package installer can be had for it
/// shows when it is installed. It never fails.
pub fn check_has_pak(_rver: &str) -> (r: Result<(), RigError>)
    ensures
        r is Ok,
{
    Ok(())
}

} // verus!
