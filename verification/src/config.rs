//! The fleet configuration: per-server settings with process-wide defaults.
//! Loading the TOML file is the caller's concern; the fallback rules and the
//! validation of required fields live here.

use vstd::prelude::*;

use crate::kube::opt_str_model;
use crate::merge::lemma_filter_push;
use crate::text::str_eq;
use vstd::string::StringExecFns;

verus! {

/// The main configuration: defaults plus the list of servers.
pub struct Config {
    /// Default SSH user when a server names none.
    pub default_user: Option<String>,
    /// Default remote directory when a server names none.
    pub default_file_path: Option<String>,
    /// Default remote file name when a server names none.
    pub default_file_name: Option<String>,
    /// Default SSH identity file when a server names none.
    pub default_identity_file: Option<String>,
    /// Directory the fetched kubeconfig files are written under.
    pub local_output_dir: String,
    /// The servers to process; names are unique.
    pub servers: Vec<Server>,
}

/// One remote server.
pub struct Server {
    /// Unique name, also the local cache file's name.
    pub name: String,
    /// SSH address.
    pub address: String,
    /// Address written into the rewritten kubeconfig.
    pub target_cluster_ip: String,
    /// SSH user, overriding the default.
    pub user: Option<String>,
    /// Remote directory, overriding the default.
    pub file_path: Option<String>,
    /// Remote file name, overriding the default.
    pub file_name: Option<String>,
    /// Context name to write; the server name is used when absent.
    pub context_name: Option<String>,
    /// SSH identity file, overriding the default.
    pub identity_file: Option<String>,
}

/// Model of one server.
#[verifier::ext_equal]
pub struct ServerModel {
    pub name: Seq<char>,
    pub address: Seq<char>,
    pub target_cluster_ip: Seq<char>,
    pub user: Option<Seq<char>>,
    pub file_path: Option<Seq<char>>,
    pub file_name: Option<Seq<char>>,
    pub context_name: Option<Seq<char>>,
    pub identity_file: Option<Seq<char>>,
}

impl View for Server {
    type V = ServerModel;

    open spec fn view(&self) -> ServerModel {
        ServerModel {
            name: self.name@,
            address: self.address@,
            target_cluster_ip: self.target_cluster_ip@,
            user: opt_str_model(self.user),
            file_path: opt_str_model(self.file_path),
            file_name: opt_str_model(self.file_name),
            context_name: opt_str_model(self.context_name),
            identity_file: opt_str_model(self.identity_file),
        }
    }
}

/// Model of the configuration.
#[verifier::ext_equal]
pub struct ConfigModel {
    pub default_user: Option<Seq<char>>,
    pub default_file_path: Option<Seq<char>>,
    pub default_file_name: Option<Seq<char>>,
    pub default_identity_file: Option<Seq<char>>,
    pub local_output_dir: Seq<char>,
    pub servers: Seq<ServerModel>,
}

impl View for Config {
    type V = ConfigModel;

    open spec fn view(&self) -> ConfigModel {
        ConfigModel {
            default_user: opt_str_model(self.default_user),
            default_file_path: opt_str_model(self.default_file_path),
            default_file_name: opt_str_model(self.default_file_name),
            default_identity_file: opt_str_model(self.default_identity_file),
            local_output_dir: self.local_output_dir@,
            servers: crate::kube::entries_model(self.servers@),
        }
    }
}

/// A required field that neither the server nor the defaults provide.
#[derive(Clone, Copy, PartialEq, Eq, Structural, Debug)]
pub enum ConfigError {
    MissingUser,
    MissingFilePath,
    MissingFileName,
}

impl ConfigError {
    /// The field the error names.
    pub fn message(&self) -> (r: &'static str)
        ensures
            r@ == match self {
                ConfigError::MissingUser => "user not specified in config"@,
                ConfigError::MissingFilePath => "file_path not specified in config"@,
                ConfigError::MissingFileName => "file_name not specified in config"@,
            },
    {
        match self {
            ConfigError::MissingUser => "user not specified in config",
            ConfigError::MissingFilePath => "file_path not specified in config",
            ConfigError::MissingFileName => "file_name not specified in config",
        }
    }
}

/// A server's value for an optional field, with the config's default behind it.
pub open spec fn spec_with_default(own: Option<Seq<char>>, dflt: Option<Seq<char>>) -> Option<
    Seq<char>,
> {
    match own {
        Some(v) => Some(v),
        None => dflt,
    }
}

/// The full remote path of a server's kubeconfig: directory, `/`, file name.
pub open spec fn spec_remote_path(s: ServerModel, c: ConfigModel) -> Option<Seq<char>> {
    match spec_with_default(s.file_path, c.default_file_path) {
        Some(dir) => match spec_with_default(s.file_name, c.default_file_name) {
            Some(name) => Some(dir + "/"@ + name),
            None => None,
        },
        None => None,
    }
}

impl Server {
    /// The SSH user for this server, falling back to the config's default.
    /// Errs exactly when neither names one.
    pub fn user<'a>(&'a self, config: &'a Config) -> (r: Result<&'a str, ConfigError>)
        ensures
            match r {
                Ok(u) => spec_with_default(self@.user, config@.default_user) == Some(u@),
                Err(e) => e == ConfigError::MissingUser && spec_with_default(
                    self@.user,
                    config@.default_user,
                ) is None,
            },
    {
        match &self.user {
            Some(u) => Ok(u.as_str()),
            None => match &config.default_user {
                Some(u) => Ok(u.as_str()),
                None => Err(ConfigError::MissingUser),
            },
        }
    }

    /// The full remote path of this server's kubeconfig, combining the
    /// directory and file name with their defaults. Errs on the first of the
    /// two that is missing.
    pub fn file_path(&self, config: &Config) -> (r: Result<String, ConfigError>)
        ensures
            match r {
                Ok(p) => spec_remote_path(self@, config@) == Some(p@),
                Err(ConfigError::MissingFilePath) => spec_with_default(
                    self@.file_path,
                    config@.default_file_path,
                ) is None,
                Err(ConfigError::MissingFileName) => spec_with_default(
                    self@.file_path,
                    config@.default_file_path,
                ) is Some && spec_with_default(self@.file_name, config@.default_file_name) is None,
                Err(ConfigError::MissingUser) => false,
            },
    {
        let dir = match &self.file_path {
            Some(p) => p.as_str(),
            None => match &config.default_file_path {
                Some(p) => p.as_str(),
                None => {
                    return Err(ConfigError::MissingFilePath);
                },
            },
        };
        let name = match &self.file_name {
            Some(n) => n.as_str(),
            None => match &config.default_file_name {
                Some(n) => n.as_str(),
                None => {
                    return Err(ConfigError::MissingFileName);
                },
            },
        };
        let mut full = dir.to_owned();
        full.append("/");
        full.append(name);
        Ok(full)
    }

    /// The SSH identity file for this server, falling back to the default.
    pub fn identity_file<'a>(&'a self, config: &'a Config) -> (r: Option<&'a str>)
        ensures
            match r {
                Some(f) => spec_with_default(self@.identity_file, config@.default_identity_file)
                    == Some(f@),
                None => spec_with_default(
                    self@.identity_file,
                    config@.default_identity_file,
                ) is None,
            },
    {
        match &self.identity_file {
            Some(f) => Some(f.as_str()),
            None => match &config.default_identity_file {
                Some(f) => Some(f.as_str()),
                None => None,
            },
        }
    }

    /// Whether this server's name stands in a list of requested names.
    pub fn named_among(&self, names: &Vec<String>) -> (b: bool)
        ensures
            b == names@.map_values(|n: String| n@).contains(self@.name),
    {
        let ghost nm = names@.map_values(|n: String| n@);
        let mut i: usize = 0;
        while i < names.len()
            invariant
                nm == names@.map_values(|n: String| n@),
                i <= nm.len(),
                forall|k: int| 0 <= k < i ==> nm[k] != self@.name,
            decreases nm.len() - i,
        {
            if str_eq(names[i].as_str(), self.name.as_str()) {
                proof {
                    assert(nm[i as int] == self@.name);
                }
                return true;
            }
            proof {
                assert(nm[i as int] == names@[i as int]@);
            }
            i = i + 1;
        }
        proof {
            if nm.contains(self@.name) {
                let w = choose|w: int| 0 <= w < nm.len() && nm[w] == self@.name;
                assert(nm[w] != self@.name);
            }
        }
        false
    }

    /// Where this server's fetched kubeconfig is cached locally.
    pub fn local_cache_path(&self, config: &Config) -> (r: String)
        ensures
            r@ == config@.local_output_dir + "/"@ + self@.name,
    {
        let mut p = config.local_output_dir.as_str().to_owned();
        p.append("/");
        p.append(self.name.as_str());
        p
    }
}

/// The servers a run with the given name filter processes: every server when
/// the filter is empty, else those whose names the filter carries, in
/// configuration order.
pub open spec fn spec_selected_servers(
    servers: Seq<ServerModel>,
    names: Seq<Seq<char>>,
) -> Seq<ServerModel> {
    if names.len() == 0 {
        servers
    } else {
        servers.filter(|s: ServerModel| names.contains(s.name))
    }
}

/// Select the servers a run processes, per the name filter.
pub fn select_servers<'a>(config: &'a Config, names: &Vec<String>) -> (r: Vec<&'a Server>)
    ensures
        r@.map_values(|s: &Server| s@) == spec_selected_servers(
            config@.servers,
            names@.map_values(|n: String| n@),
        ),
{
    let ghost sm = config@.servers;
    let ghost nm = names@.map_values(|n: String| n@);
    let ghost p = |s: ServerModel| nm.contains(s.name);
    let empty_filter = names.len() == 0;
    let mut r: Vec<&'a Server> = Vec::new();
    let mut i: usize = 0;
    while i < config.servers.len()
        invariant
            sm == config@.servers,
            nm == names@.map_values(|n: String| n@),
            p == (|s: ServerModel| nm.contains(s.name)),
            empty_filter == (nm.len() == 0),
            i <= sm.len(),
            r@.map_values(|s: &Server| s@) == (if empty_filter {
                sm.subrange(0, i as int)
            } else {
                sm.subrange(0, i as int).filter(p)
            }),
        decreases sm.len() - i,
    {
        let ghost pre = sm.subrange(0, i as int);
        proof {
            assert(sm[i as int] == config.servers@[i as int]@);
            assert(sm.subrange(0, i + 1 as int) =~= pre.push(sm[i as int]));
            lemma_filter_push(pre, sm[i as int], p);
        }
        let server = &config.servers[i];
        if empty_filter {
            r.push(server);
            assert(r@.map_values(|s: &Server| s@) =~= pre.push(sm[i as int]));
        } else if server.named_among(names) {
            proof {
                assert(p(sm[i as int]));
            }
            r.push(server);
            assert(r@.map_values(|s: &Server| s@) =~= pre.filter(p).push(sm[i as int]));
        } else {
            proof {
                assert(!p(sm[i as int]));
            }
        }
        i = i + 1;
    }
    proof {
        assert(sm.subrange(0, sm.len() as int) =~= sm);
    }
    r
}

} // verus!
