use vstd::prelude::*;
use vstd::string::StringExecFns;

verus! {

/// A configuration value that could not be produced (for example a missing
/// environment setting reported by the caller that assembles the config).
#[derive(Debug, Clone)]
pub struct ConfigError {
    pub message: String,
}

/// Process-wide configuration: the working directory that holds the post
/// sources and the generated site, the API token, and the path of the ssh key
/// used for remote version-control operations.
#[derive(Debug, Clone)]
pub struct Config {
    pub working_path: String,
    pub token: String,
    pub git_ssh_key_path: String,
}

impl Config {
    /// Builds a configuration from already-expanded values.
    pub fn new(working_path: String, token: String, git_ssh_key_path: String) -> (c: Config)
        ensures
            c.working_path@ == working_path@,
            c.token@ == token@,
            c.git_ssh_key_path@ == git_ssh_key_path@,
    {
        Config { working_path, token, git_ssh_key_path }
    }

    /// The directory that holds the post sources.
    pub fn get_input_path(&self) -> (r: String)
        ensures
            r@ == self.working_path@ + "/posts"@,
    {
        let mut r = self.working_path.clone();
        r.append("/posts");
        r
    }

    /// The directory the generated site is written to.
    pub fn get_output_path(&self) -> (r: String)
        ensures
            r@ == self.working_path@ + "/p"@,
    {
        let mut r = self.working_path.clone();
        r.append("/p");
        r
    }
}

/// Anything that can hand out the API token; the web layer is generic over it.
pub trait ConfigType {
    fn get_token(&self) -> String;
}

impl ConfigType for Config {
    fn get_token(&self) -> String {
        self.token.clone()
    }
}

} // verus!
