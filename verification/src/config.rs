//! The configuration of the tool: defaults, then the configuration file,
//! then the environment, then the command line.

use crate::error::N8nError;
use crate::output::OutputFormat;
use crate::text::opt_text;
use vstd::prelude::*;
use vstd::string::*;

verus! {

/// The configuration in force, fully resolved.
#[derive(Debug)]
pub struct Config {
    pub base_url: String,
    pub api_key: String,
    pub output_format: OutputFormat,
    pub timeout_secs: u64,
    pub verbose: bool,
    pub quiet: bool,
}

/// Timeout of a request where nothing sets one, in seconds.
pub const DEFAULT_TIMEOUT_SECS: u64 = 30;

impl Default for Config {
    fn default() -> (r: Self)
        ensures
            r.base_url@ == "http://localhost:5678"@,
            r.api_key@ == Seq::<char>::empty(),
            r.output_format == OutputFormat::Table,
            r.timeout_secs == DEFAULT_TIMEOUT_SECS,
            !r.verbose,
            !r.quiet,
    {
        Config {
            base_url: "http://localhost:5678".to_owned(),
            api_key: String::new(),
            output_format: OutputFormat::Table,
            timeout_secs: DEFAULT_TIMEOUT_SECS,
            verbose: false,
            quiet: false,
        }
    }
}

/// A named set of connection settings.
#[derive(Debug)]
pub struct Profile {
    pub base_url: String,
    pub api_key: Option<String>,
    /// Name of the environment variable that holds the API key.
    pub api_key_env: Option<String>,
    pub output_format: Option<OutputFormat>,
}

/// A profile under its name in the configuration file.
#[derive(Debug)]
pub struct NamedProfile {
    pub name: String,
    pub profile: Profile,
}

/// What the configuration file holds.
#[derive(Debug)]
pub struct ConfigFile {
    pub default_profile: Option<String>,
    pub output_format: Option<OutputFormat>,
    pub timeout_secs: Option<u64>,
    pub profiles: Vec<NamedProfile>,
}

impl Default for ConfigFile {
    fn default() -> (r: Self)
        ensures
            r.default_profile is None,
            r.output_format is None,
            r.timeout_secs is None,
            r.profiles@.len() == 0,
    {
        ConfigFile {
            default_profile: None,
            output_format: None,
            timeout_secs: None,
            profiles: Vec::new(),
        }
    }
}

/// What the command line sets.
#[derive(Debug)]
pub struct CliOverrides {
    pub profile: Option<String>,
    pub url: Option<String>,
    pub api_key: Option<String>,
    pub output: OutputFormat,
    pub verbose: bool,
    pub quiet: bool,
}

/// One variable of the environment.
#[derive(Debug)]
pub struct EnvVar {
    pub name: String,
    pub value: String,
}

/// The first of two values that is there.
pub open spec fn or_else<A>(first: Option<A>, second: Option<A>) -> Option<A> {
    match first {
        Some(_) => first,
        None => second,
    }
}

/// The variable at `i` has the name `name`, and none before it has.
pub open spec fn is_first_var(env: Seq<EnvVar>, name: Seq<char>, i: int) -> bool {
    &&& 0 <= i < env.len()
    &&& env[i].name@ == name
    &&& forall|j: int| 0 <= j < i ==> (#[trigger] env[j]).name@ != name
}

/// The value of a variable of the environment.
pub open spec fn env_value(env: Seq<EnvVar>, name: Seq<char>) -> Option<Seq<char>> {
    if exists|i: int| is_first_var(env, name, i) {
        Some(env[choose|i: int| is_first_var(env, name, i)].value@)
    } else {
        None
    }
}

/// The profile at `i` has the name `name`, and none before it has.
pub open spec fn is_first_profile(profiles: Seq<NamedProfile>, name: Seq<char>, i: int) -> bool {
    &&& 0 <= i < profiles.len()
    &&& profiles[i].name@ == name
    &&& forall|j: int| 0 <= j < i ==> (#[trigger] profiles[j]).name@ != name
}

/// The profile of a given name.
pub open spec fn profile_named(profiles: Seq<NamedProfile>, name: Seq<char>) -> Option<Profile> {
    if exists|i: int| is_first_profile(profiles, name, i) {
        Some(profiles[choose|i: int| is_first_profile(profiles, name, i)].profile)
    } else {
        None
    }
}

/// The name of the profile to use: from the command line, else from the
/// variable `N8N_PROFILE`, else the default of the file.
pub open spec fn profile_choice(
    file: ConfigFile,
    env: Seq<EnvVar>,
    overrides: CliOverrides,
) -> Option<Seq<char>> {
    or_else(
        opt_text(overrides.profile),
        or_else(env_value(env, "N8N_PROFILE"@), opt_text(file.default_profile)),
    )
}

/// The profile in force, where there is a file and a profile is chosen.
pub open spec fn profile_in_force(
    file: Option<ConfigFile>,
    env: Seq<EnvVar>,
    overrides: CliOverrides,
) -> Option<Profile> {
    match file {
        Some(f) => match profile_choice(f, env, overrides) {
            Some(name) => profile_named(f.profiles@, name),
            None => None,
        },
        None => None,
    }
}

/// The name of a profile that was chosen and is not in the file.
pub open spec fn missing_profile(
    file: Option<ConfigFile>,
    env: Seq<EnvVar>,
    overrides: CliOverrides,
) -> Option<Seq<char>> {
    match file {
        Some(f) => match profile_choice(f, env, overrides) {
            Some(name) => if profile_named(f.profiles@, name) is None {
                Some(name)
            } else {
                None
            },
            None => None,
        },
        None => None,
    }
}

/// The API key a profile gives: its own, else the value of the variable
/// it names.
pub open spec fn profile_key(profile: Profile, env: Seq<EnvVar>) -> Option<Seq<char>> {
    match profile.api_key {
        Some(k) => Some(k@),
        None => match profile.api_key_env {
            Some(var) => env_value(env, var@),
            None => None,
        },
    }
}

/// The base URL in force: from the command line, else from the variable
/// `N8N_BASE_URL`, else from the profile, else the default.
pub open spec fn base_url_of(
    file: Option<ConfigFile>,
    env: Seq<EnvVar>,
    overrides: CliOverrides,
) -> Seq<char> {
    let from_profile = match profile_in_force(file, env, overrides) {
        Some(p) => Some(p.base_url@),
        None => None,
    };
    match or_else(opt_text(overrides.url), or_else(env_value(env, "N8N_BASE_URL"@), from_profile)) {
        Some(u) => u,
        None => "http://localhost:5678"@,
    }
}

/// The API key in force: from the command line, else from the variable
/// `N8N_API_KEY`, else from the profile, else none.
pub open spec fn api_key_of(
    file: Option<ConfigFile>,
    env: Seq<EnvVar>,
    overrides: CliOverrides,
) -> Seq<char> {
    let from_profile = match profile_in_force(file, env, overrides) {
        Some(p) => profile_key(p, env),
        None => None,
    };
    match or_else(
        opt_text(overrides.api_key),
        or_else(env_value(env, "N8N_API_KEY"@), from_profile),
    ) {
        Some(k) => k,
        None => Seq::empty(),
    }
}

/// The timeout in force: from the file, else the default.
pub open spec fn timeout_of(file: Option<ConfigFile>) -> u64 {
    match file {
        Some(f) => match f.timeout_secs {
            Some(t) => t,
            None => DEFAULT_TIMEOUT_SECS,
        },
        None => DEFAULT_TIMEOUT_SECS,
    }
}

fn lookup_env(env: &Vec<EnvVar>, name: &str) -> (r: Option<String>)
    ensures
        opt_text(r) == env_value(env@, name@),
{
    let wanted = name.to_owned();
    let mut i: usize = 0;
    while i < env.len()
        invariant
            i <= env.len(),
            wanted@ == name@,
            forall|j: int| 0 <= j < i ==> (#[trigger] env@[j]).name@ != name@,
        decreases env.len() - i,
    {
        if env[i].name == wanted {
            proof {
                assert(is_first_var(env@, name@, i as int));
                let c = choose|c: int| is_first_var(env@, name@, c);
                assert(c == i);
            }
            return Some(env[i].value.clone());
        }
        i += 1;
    }
    None
}

fn lookup_profile<'a>(profiles: &'a Vec<NamedProfile>, name: &String) -> (r: Option<&'a Profile>)
    ensures
        match r {
            Some(p) => profile_named(profiles@, name@) == Some(*p),
            None => profile_named(profiles@, name@) is None,
        },
{
    let mut i: usize = 0;
    while i < profiles.len()
        invariant
            i <= profiles.len(),
            forall|j: int| 0 <= j < i ==> (#[trigger] profiles@[j]).name@ != name@,
        decreases profiles.len() - i,
    {
        if profiles[i].name == *name {
            proof {
                assert(is_first_profile(profiles@, name@, i as int));
                let c = choose|c: int| is_first_profile(profiles@, name@, c);
                assert(c == i);
            }
            return Some(&profiles[i].profile);
        }
        i += 1;
    }
    None
}

fn clone_opt(t: &Option<String>) -> (r: Option<String>)
    ensures
        r == *t,
{
    match t {
        Some(s) => Some(s.clone()),
        None => None,
    }
}

/// Resolves the configuration from what the file holds (where there is a
/// file), the environment and the command line. What comes later in that
/// list wins. A profile that is chosen and not in the file is an error.
pub fn resolve_config(file: Option<ConfigFile>, env: &Vec<EnvVar>, overrides: CliOverrides) -> (r:
    Result<Config, N8nError>)
    ensures
        match missing_profile(file, env@, overrides) {
            Some(name) => r is Err && r->Err_0 is ProfileNotFound && r->Err_0->ProfileNotFound_0@
                == name,
            None => {
                &&& r is Ok
                &&& r->Ok_0.base_url@ == base_url_of(file, env@, overrides)
                &&& r->Ok_0.api_key@ == api_key_of(file, env@, overrides)
                &&& r->Ok_0.output_format == overrides.output
                &&& r->Ok_0.timeout_secs == timeout_of(file)
                &&& r->Ok_0.verbose == overrides.verbose
                &&& r->Ok_0.quiet == overrides.quiet
            },
        },
{
    let mut base_url: Option<String> = None;
    let mut api_key: Option<String> = None;
    let mut timeout_secs: u64 = DEFAULT_TIMEOUT_SECS;
    match &file {
        Some(f) => {
            match f.timeout_secs {
                Some(t) => {
                    timeout_secs = t;
                },
                None => {},
            }
            let from_env = lookup_env(env, "N8N_PROFILE");
            let chosen = match clone_opt(&overrides.profile) {
                Some(p) => Some(p),
                None => match from_env {
                    Some(p) => Some(p),
                    None => clone_opt(&f.default_profile),
                },
            };
            match chosen {
                Some(name) => {
                    match lookup_profile(&f.profiles, &name) {
                        Some(profile) => {
                            base_url = Some(profile.base_url.clone());
                            match &profile.api_key {
                                Some(k) => {
                                    api_key = Some(k.clone());
                                },
                                None => match &profile.api_key_env {
                                    Some(var) => {
                                        api_key = lookup_env(env, var.as_str());
                                    },
                                    None => {},
                                },
                            }
                        },
                        None => {
                            return Err(N8nError::ProfileNotFound(name));
                        },
                    }
                },
                None => {},
            }
        },
        None => {},
    }
    match lookup_env(env, "N8N_BASE_URL") {
        Some(u) => {
            base_url = Some(u);
        },
        None => {},
    }
    match lookup_env(env, "N8N_API_KEY") {
        Some(k) => {
            api_key = Some(k);
        },
        None => {},
    }
    match clone_opt(&overrides.url) {
        Some(u) => {
            base_url = Some(u);
        },
        None => {},
    }
    match clone_opt(&overrides.api_key) {
        Some(k) => {
            api_key = Some(k);
        },
        None => {},
    }
    Ok(
        Config {
            base_url: match base_url {
                Some(u) => u,
                None => "http://localhost:5678".to_owned(),
            },
            api_key: match api_key {
                Some(k) => k,
                None => String::new(),
            },
            output_format: overrides.output,
            timeout_secs,
            verbose: overrides.verbose,
            quiet: overrides.quiet,
        },
    )
}

/// Checks that what every request needs is configured: an API key first,
/// then a base URL.
pub fn validate_config(config: &Config) -> (r: Result<(), N8nError>)
    ensures
        config.api_key@.len() == 0 ==> r is Err && r->Err_0 is MissingApiKey,
        config.api_key@.len() != 0 && config.base_url@.len() == 0 ==> r is Err && r->Err_0
            is MissingBaseUrl,
        config.api_key@.len() != 0 && config.base_url@.len() != 0 ==> r is Ok,
{
    if config.api_key.as_str().is_empty() {
        return Err(N8nError::MissingApiKey);
    }
    if config.base_url.as_str().is_empty() {
        return Err(N8nError::MissingBaseUrl);
    }
    Ok(())
}

} // verus!
