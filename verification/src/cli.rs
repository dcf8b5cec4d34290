//! The command line of the deployer, as plain data.

use vstd::prelude::*;

verus! {

/// The command line: the configuration file, whether the confirmation prompt
/// is skipped, overrides for the script and the network, and the arguments
/// that are passed through to the deployment command.
#[derive(Debug, Clone)]
pub struct Args {
    pub config: String,
    pub skip_confirmation: bool,
    pub script: Option<String>,
    pub network: Option<String>,
    pub extra_args: Vec<String>,
}

} // verus!
