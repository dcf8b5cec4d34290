//! The deployment configuration and the lookups on it.

use vstd::prelude::*;
use vstd::string::*;

verus! {

/// One named network: its chain id, its endpoint template (which may hold
/// `${NAME}` placeholders) and whether deployed contracts are verified.
#[derive(Debug, Clone)]
pub struct NetworkConfig {
    pub chain_id: u64,
    pub rpc_url: String,
    pub verify: bool,
}

/// What is deployed, where to, and how the project is prepared.
#[derive(Debug, Clone)]
pub struct ProjectConfig {
    pub name: String,
    pub script: String,
    pub network: String,
    pub setup_command: String,
    pub repo: Option<String>,
    pub path: Option<String>,
}

/// The configured environment layers: an inline table of variables and the
/// environment files to load, in order.
#[derive(Debug, Clone)]
pub struct EnvConfig {
    pub vars: Vec<(String, String)>,
    pub load_files: Option<Vec<String>>,
}

/// A whole deployment configuration. `networks` lists each network under its
/// name; where a name occurs twice the later entry counts.
#[derive(Debug, Clone)]
pub struct DeploymentConfig {
    pub project: ProjectConfig,
    pub env: EnvConfig,
    pub networks: Vec<(String, NetworkConfig)>,
    pub extra_args: Option<Vec<(String, String)>>,
}

/// The index of the last entry of `entries` that is named `name`, or -1 if
/// there is none.
pub open spec fn network_index(entries: Seq<(String, NetworkConfig)>, name: Seq<char>) -> int
    decreases entries.len(),
{
    if entries.len() == 0 {
        -1
    } else if entries.last().0@ == name {
        entries.len() - 1
    } else {
        network_index(entries.drop_last(), name)
    }
}

/// The file name of the deployment script `script`.
pub open spec fn script_file(script: Seq<char>) -> Seq<char> {
    script + seq!['.', 's', '.', 's', 'o', 'l']
}

impl DeploymentConfig {
    /// Whether a network named `name` is configured.
    pub open spec fn has_network(&self, name: Seq<char>) -> bool {
        network_index(self.networks@, name) >= 0
    }

    /// The network configured under `name`.
    pub open spec fn network(&self, name: Seq<char>) -> NetworkConfig
        recommends
            self.has_network(name),
    {
        self.networks@[network_index(self.networks@, name)].1
    }

    /// Looks up the network named `network_name`.
    pub fn get_network(&self, network_name: &str) -> (r: Option<&NetworkConfig>)
        ensures
            r.is_some() == self.has_network(network_name@),
            r.is_some() ==> *r.unwrap() == self.network(network_name@),
    {
        let wanted: String = network_name.to_owned();
        let mut i: usize = self.networks.len();
        assert(self.networks@.take(i as int) =~= self.networks@);
        while i > 0
            invariant
                i <= self.networks@.len(),
                wanted@ == network_name@,
                network_index(self.networks@, network_name@) == network_index(
                    self.networks@.take(i as int),
                    network_name@,
                ),
            decreases i,
        {
            proof {
                assert(self.networks@.take(i as int).drop_last() =~= self.networks@.take(
                    i as int - 1,
                ));
            }
            if self.networks[i - 1].0 == wanted {
                return Some(&self.networks[i - 1].1);
            }
            i -= 1;
        }
        None
    }

    /// The file name of the configured deployment script.
    pub fn get_script_name(&self) -> (r: String)
        ensures
            r@ == script_file(self.project.script@),
    {
        proof {
            reveal_strlit(".s.sol");
        }
        let mut r: String = self.project.script.clone();
        r.append(".s.sol");
        assert(r@ =~= script_file(self.project.script@));
        r
    }
}

} // verus!
