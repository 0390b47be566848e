//! The settings of a run: where to listen, which task file to serve and
//! where the static assets lie. They are resolved once, before anything is
//! bound, from what the invocation and the environment supplied, and do not
//! change afterwards.

use vstd::prelude::*;
use vstd::string::*;

verus! {

/// The address a background service listens on.
pub const SERVICE_BIND_ADDRESS: &'static str = "127.0.0.1:8765";

/// The variable that names the task file of a background service.
pub const TASKS_FILE_VARIABLE: &'static str = "COMPANION_TASKS_FILE";

/// The variable that names the asset root of a background service.
pub const SITE_ROOT_VARIABLE: &'static str = "COMPANION_SITE_ROOT";

/// How the process runs.
#[derive(Clone, Copy, Debug, PartialEq, Eq, Structural)]
pub enum RunMode {
    /// Started directly; serves until the listener ends.
    Foreground,
    /// Started by the host's service manager, which also stops it.
    Service,
}

/// A setting that a run needs and did not get.
#[derive(Clone, Copy, Debug, PartialEq, Eq, Structural)]
pub enum ConfigError {
    /// A foreground run was given no task file.
    MissingTasksFile,
    /// A foreground run was given no address to listen on.
    MissingBindAddress,
    /// A foreground run was given no asset root.
    MissingSiteRoot,
    /// A service run found the task-file variable unset.
    MissingTasksFileVariable,
    /// A service run found the asset-root variable unset.
    MissingSiteRootVariable,
}

/// What to tell the operator of each missing setting.
pub open spec fn message_of(error: ConfigError) -> Seq<char> {
    match error {
        ConfigError::MissingTasksFile => "no task file was given"@,
        ConfigError::MissingBindAddress => "no address to listen on was given"@,
        ConfigError::MissingSiteRoot => "no asset root was given"@,
        ConfigError::MissingTasksFileVariable => "COMPANION_TASKS_FILE is not set"@,
        ConfigError::MissingSiteRootVariable => "COMPANION_SITE_ROOT is not set"@,
    }
}

impl ConfigError {
    /// What to tell the operator.
    pub fn message(&self) -> (text: String)
        ensures
            text@ == message_of(*self),
    {
        match self {
            ConfigError::MissingTasksFile => String::from_str("no task file was given"),
            ConfigError::MissingBindAddress => String::from_str(
                "no address to listen on was given",
            ),
            ConfigError::MissingSiteRoot => String::from_str("no asset root was given"),
            ConfigError::MissingTasksFileVariable => String::from_str(
                "COMPANION_TASKS_FILE is not set",
            ),
            ConfigError::MissingSiteRootVariable => String::from_str(
                "COMPANION_SITE_ROOT is not set",
            ),
        }
    }
}

/// What the invocation and the environment supplied.
pub struct Sources {
    /// Whether the invocation asked for a background service.
    pub service: bool,
    /// The task file named by the invocation.
    pub tasks_file: Option<String>,
    /// The address named by the invocation.
    pub bind_address: Option<String>,
    /// The asset root named by the invocation.
    pub site_root: Option<String>,
    /// The value of the task-file variable.
    pub tasks_file_variable: Option<String>,
    /// The value of the asset-root variable.
    pub site_root_variable: Option<String>,
}

/// The sources as plain values.
pub struct SourcesView {
    /// Whether the invocation asked for a background service.
    pub service: bool,
    /// The task file named by the invocation.
    pub tasks_file: Option<Seq<char>>,
    /// The address named by the invocation.
    pub bind_address: Option<Seq<char>>,
    /// The asset root named by the invocation.
    pub site_root: Option<Seq<char>>,
    /// The value of the task-file variable.
    pub tasks_file_variable: Option<Seq<char>>,
    /// The value of the asset-root variable.
    pub site_root_variable: Option<Seq<char>>,
}

/// The text of a string that may be absent.
pub open spec fn text_of(value: Option<String>) -> Option<Seq<char>> {
    match value {
        Some(s) => Some(s@),
        None => None,
    }
}

impl View for Sources {
    type V = SourcesView;

    open spec fn view(&self) -> SourcesView {
        SourcesView {
            service: self.service,
            tasks_file: text_of(self.tasks_file),
            bind_address: text_of(self.bind_address),
            site_root: text_of(self.site_root),
            tasks_file_variable: text_of(self.tasks_file_variable),
            site_root_variable: text_of(self.site_root_variable),
        }
    }
}

/// The resolved settings of a run. A service listens on the fixed service
/// address.
#[derive(Debug)]
pub struct RunConfig {
    bind_address: String,
    tasks_file: String,
    site_root: String,
    mode: RunMode,
}

/// The settings as plain values.
pub struct RunConfigView {
    /// The address the listener binds.
    pub bind_address: Seq<char>,
    /// The path of the task file that every request reads and writes.
    pub tasks_file: Seq<char>,
    /// The directory of the static assets.
    pub site_root: Seq<char>,
    /// How the process runs.
    pub mode: RunMode,
}

impl View for RunConfig {
    type V = RunConfigView;

    closed spec fn view(&self) -> RunConfigView {
        RunConfigView {
            bind_address: self.bind_address@,
            tasks_file: self.tasks_file@,
            site_root: self.site_root@,
            mode: self.mode,
        }
    }
}

/// The mode that the invocation's service flag selects.
pub open spec fn mode_of(service: bool) -> RunMode {
    if service {
        RunMode::Service
    } else {
        RunMode::Foreground
    }
}

/// The settings that the sources resolve to. A foreground run takes all
/// three from the invocation. A service run listens on the fixed service
/// address and takes the task file and the asset root from the two
/// variables. The first setting that is missing, in the order task file,
/// address, asset root, is the error.
pub open spec fn resolved(sources: SourcesView) -> Result<RunConfigView, ConfigError> {
    if sources.service {
        match (sources.tasks_file_variable, sources.site_root_variable) {
            (None, _) => Err(ConfigError::MissingTasksFileVariable),
            (Some(_), None) => Err(ConfigError::MissingSiteRootVariable),
            (Some(tasks_file), Some(site_root)) => Ok(
                RunConfigView {
                    bind_address: SERVICE_BIND_ADDRESS@,
                    tasks_file,
                    site_root,
                    mode: RunMode::Service,
                },
            ),
        }
    } else {
        match (sources.tasks_file, sources.bind_address, sources.site_root) {
            (None, _, _) => Err(ConfigError::MissingTasksFile),
            (Some(_), None, _) => Err(ConfigError::MissingBindAddress),
            (Some(_), Some(_), None) => Err(ConfigError::MissingSiteRoot),
            (Some(tasks_file), Some(bind_address), Some(site_root)) => Ok(
                RunConfigView { bind_address, tasks_file, site_root, mode: RunMode::Foreground },
            ),
        }
    }
}

/// The settings as a result of plain values.
pub open spec fn outcome_view(outcome: Result<RunConfig, ConfigError>) -> Result<
    RunConfigView,
    ConfigError,
> {
    match outcome {
        Ok(config) => Ok(config@),
        Err(error) => Err(error),
    }
}

impl RunMode {
    /// The mode that the invocation's service flag selects.
    pub fn from_flag(service: bool) -> (mode: RunMode)
        ensures
            mode == mode_of(service),
    {
        if service {
            RunMode::Service
        } else {
            RunMode::Foreground
        }
    }
}

impl RunConfig {
    #[verifier::type_invariant]
    spec fn service_listens_on_fixed_address(&self) -> bool {
        self.mode == RunMode::Service ==> self.bind_address@ == SERVICE_BIND_ADDRESS@
    }

    /// Resolves the settings of a run.
    pub fn resolve(sources: Sources) -> (outcome: Result<RunConfig, ConfigError>)
        ensures
            outcome_view(outcome) == resolved(sources@),
    {
        if sources.service {
            let tasks_file = match sources.tasks_file_variable {
                Some(value) => value,
                None => { return Err(ConfigError::MissingTasksFileVariable); },
            };
            let site_root = match sources.site_root_variable {
                Some(value) => value,
                None => { return Err(ConfigError::MissingSiteRootVariable); },
            };
            Ok(
                RunConfig {
                    bind_address: String::from_str(SERVICE_BIND_ADDRESS),
                    tasks_file,
                    site_root,
                    mode: RunMode::Service,
                },
            )
        } else {
            let tasks_file = match sources.tasks_file {
                Some(value) => value,
                None => { return Err(ConfigError::MissingTasksFile); },
            };
            let bind_address = match sources.bind_address {
                Some(value) => value,
                None => { return Err(ConfigError::MissingBindAddress); },
            };
            let site_root = match sources.site_root {
                Some(value) => value,
                None => { return Err(ConfigError::MissingSiteRoot); },
            };
            Ok(RunConfig { bind_address, tasks_file, site_root, mode: RunMode::Foreground })
        }
    }

    /// The address the listener binds; for a service, the fixed service
    /// address.
    pub fn bind_address(&self) -> (address: &str)
        ensures
            address@ == self@.bind_address,
            self@.mode == RunMode::Service ==> address@ == SERVICE_BIND_ADDRESS@,
    {
        proof {
            use_type_invariant(self);
        }
        self.bind_address.as_str()
    }

    /// The path of the task file that every request reads and writes.
    pub fn tasks_file(&self) -> (path: &str)
        ensures
            path@ == self@.tasks_file,
    {
        self.tasks_file.as_str()
    }

    /// The directory of the static assets.
    pub fn site_root(&self) -> (path: &str)
        ensures
            path@ == self@.site_root,
    {
        self.site_root.as_str()
    }

    /// How the process runs.
    pub fn mode(&self) -> (mode: RunMode)
        ensures
            mode == self@.mode,
    {
        self.mode
    }

    /// The directory of the compiled client: `pkg` below the asset root.
    pub fn pkg_dir(&self) -> (path: String)
        ensures
            path@ == self@.site_root + "/pkg"@,
    {
        let mut path = self.site_root.clone();
        path.append("/pkg");
        path
    }

    /// The path of the site's icon: `favicon.ico` below the asset root.
    pub fn favicon_path(&self) -> (path: String)
        ensures
            path@ == self@.site_root + "/favicon.ico"@,
    {
        let mut path = self.site_root.clone();
        path.append("/favicon.ico");
        path
    }
}

} // verus!
