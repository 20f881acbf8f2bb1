//! The configuration of the connection, and its defaults from the environment.

use vstd::prelude::*;

use crate::db::{OracleConnectParams, OracleConnectParamsView};
use crate::text::{joined_text, option_view, result_view, text_eq};

verus! {

/// How to reach the database, where its password is, and how many connections
/// to keep.
pub struct OciOracleConfig {
    pub username: String,
    pub connect_descriptor: String,
    pub wallet_path: Option<String>,
    pub stage: String,
    pub secret_path: String,
    pub pool_max: usize,
    pub pool_timeout_secs: u64,
}

/// How to reach the database, where its password is, and how many connections
/// to keep.
pub ghost struct OciOracleConfigView {
    pub username: Seq<char>,
    pub connect_descriptor: Seq<char>,
    pub wallet_path: Option<Seq<char>>,
    pub stage: Seq<char>,
    pub secret_path: Seq<char>,
    pub pool_max: usize,
    pub pool_timeout_secs: u64,
}

impl View for OciOracleConfig {
    type V = OciOracleConfigView;

    open spec fn view(&self) -> OciOracleConfigView {
        OciOracleConfigView {
            username: self.username@,
            connect_descriptor: self.connect_descriptor@,
            wallet_path: option_view(self.wallet_path),
            stage: self.stage@,
            secret_path: self.secret_path@,
            pool_max: self.pool_max,
            pool_timeout_secs: self.pool_timeout_secs,
        }
    }
}

impl Clone for OciOracleConfig {
    fn clone(&self) -> (copy: Self)
        ensures
            copy == *self,
    {
        OciOracleConfig {
            username: self.username.clone(),
            connect_descriptor: self.connect_descriptor.clone(),
            wallet_path: match &self.wallet_path {
                Some(path) => Some(path.clone()),
                None => None,
            },
            stage: self.stage.clone(),
            secret_path: self.secret_path.clone(),
            pool_max: self.pool_max,
            pool_timeout_secs: self.pool_timeout_secs,
        }
    }
}

// --------------------------------------------------------------- environment

/// Why a variable that is not there cannot be had.
pub const NOT_PRESENT: &'static str = "environment variable not found";

/// An environment variable: its name, and its value or why it cannot be had.
pub struct EnvVar {
    pub name: String,
    pub value: Result<String, String>,
}

/// What reading some environment variables came to.
pub struct Environment {
    pub vars: Vec<EnvVar>,
}

/// The value of a variable, or why it cannot be had: what the first entry of its
/// name says. A variable without an entry is not there.
pub open spec fn lookup(
    vars: Seq<(Seq<char>, Result<Seq<char>, Seq<char>>)>,
    name: Seq<char>,
) -> Result<Seq<char>, Seq<char>>
    decreases vars.len(),
{
    if vars.len() == 0 {
        Err(NOT_PRESENT@)
    } else if vars[0].0 == name {
        vars[0].1
    } else {
        lookup(vars.skip(1), name)
    }
}

/// The value of `first`, or else that of `second`, or else why `second` cannot
/// be had.
pub open spec fn lookup_either(
    vars: Seq<(Seq<char>, Result<Seq<char>, Seq<char>>)>,
    first: Seq<char>,
    second: Seq<char>,
) -> Result<Seq<char>, Seq<char>> {
    match lookup(vars, first) {
        Ok(v) => Ok(v),
        Err(_) => lookup(vars, second),
    }
}

impl View for Environment {
    type V = Seq<(Seq<char>, Result<Seq<char>, Seq<char>>)>;

    open spec fn view(&self) -> Seq<(Seq<char>, Result<Seq<char>, Seq<char>>)> {
        self.vars@.map_values(|v: EnvVar| (v.name@, result_view(v.value)))
    }
}

impl Environment {
    /// The value of a variable, or why it cannot be had.
    pub fn var(&self, name: &str) -> (value: Result<String, String>)
        ensures
            result_view(value) == lookup(self@, name@),
    {
        let mut i: usize = 0;
        proof {
            assert(self@.skip(0) =~= self@);
        }
        while i < self.vars.len()
            invariant
                i <= self.vars@.len(),
                lookup(self@, name@) == lookup(self@.skip(i as int), name@),
            decreases self.vars@.len() - i,
        {
            if text_eq(self.vars[i].name.as_str(), name) {
                return match &self.vars[i].value {
                    Ok(v) => Ok(v.clone()),
                    Err(e) => Err(e.clone()),
                };
            }
            proof {
                assert(self@.skip(i as int).skip(1) =~= self@.skip(i + 1));
            }
            i += 1;
        }
        Err(NOT_PRESENT.to_owned())
    }

    /// The value of `first`, or else that of `second`.
    pub fn var_either(&self, first: &str, second: &str) -> (value: Result<String, String>)
        ensures
            result_view(value) == lookup_either(self@, first@, second@),
    {
        match self.var(first) {
            Ok(v) => Ok(v),
            Err(_) => self.var(second),
        }
    }
}

// ------------------------------------------------------------------ defaults

/// The secret path where none is configured: the one that the environment gives,
/// or else the variable that holds the password, which is `OCI_DB_PASSWORD`
/// unless only `DB_PASSWORD` is there.
pub open spec fn default_secret_path(
    vars: Seq<(Seq<char>, Result<Seq<char>, Seq<char>>)>,
) -> Seq<char> {
    match lookup(vars, "OCI_DB_SECRET_PATH"@) {
        Ok(path) => path,
        Err(_) => if lookup(vars, "OCI_DB_PASSWORD"@) is Err && lookup(vars, "DB_PASSWORD"@) is Ok {
            "env://DB_PASSWORD"@
        } else {
            "env://OCI_DB_PASSWORD"@
        },
    }
}

/// The user name: the configured one, or else that of the environment.
pub open spec fn username_or_default(
    config: OciOracleConfigView,
    vars: Seq<(Seq<char>, Result<Seq<char>, Seq<char>>)>,
) -> Result<Seq<char>, Seq<char>> {
    if config.username.len() > 0 {
        Ok(config.username)
    } else {
        match lookup_either(vars, "OCI_DB_USERNAME"@, "DB_USER"@) {
            Ok(v) => Ok(v),
            Err(e) => Err("Neither OCI_DB_USERNAME nor DB_USER is set: "@ + e),
        }
    }
}

/// The connect descriptor: the configured one, or else that of the environment.
pub open spec fn descriptor_or_default(
    config: OciOracleConfigView,
    vars: Seq<(Seq<char>, Result<Seq<char>, Seq<char>>)>,
) -> Result<Seq<char>, Seq<char>> {
    if config.connect_descriptor.len() > 0 {
        Ok(config.connect_descriptor)
    } else {
        match lookup_either(vars, "OCI_DB_CONNECT_DESCRIPTOR"@, "DB_CONNECT_STRING"@) {
            Ok(v) => Ok(v),
            Err(e) => Err(
                "Neither OCI_DB_CONNECT_DESCRIPTOR nor DB_CONNECT_STRING is set: "@ + e,
            ),
        }
    }
}

/// The configuration with every gap filled from the environment, or why that
/// cannot be done.
pub open spec fn env_defaults(
    config: OciOracleConfigView,
    vars: Seq<(Seq<char>, Result<Seq<char>, Seq<char>>)>,
) -> Result<OciOracleConfigView, Seq<char>> {
    match (username_or_default(config, vars), descriptor_or_default(config, vars)) {
        (Err(e), _) => Err(e),
        (Ok(_), Err(e)) => Err(e),
        (Ok(username), Ok(connect_descriptor)) => Ok(
            OciOracleConfigView {
                username,
                connect_descriptor,
                wallet_path: match (
                    config.wallet_path,
                    lookup_either(vars, "OCI_DB_WALLET"@, "TNS_ADMIN"@),
                ) {
                    (Some(path), _) => Some(path),
                    (None, Ok(path)) => Some(path),
                    (None, Err(_)) => None,
                },
                stage: if config.stage.len() > 0 {
                    config.stage
                } else {
                    match lookup(vars, "OCI_STAGE"@) {
                        Ok(stage) => stage,
                        Err(_) => "PRODUCTION"@,
                    }
                },
                secret_path: if config.secret_path.len() > 0 {
                    config.secret_path
                } else {
                    default_secret_path(vars)
                },
                pool_max: if config.pool_max == 0 {
                    10
                } else {
                    config.pool_max
                },
                pool_timeout_secs: config.pool_timeout_secs,
            },
        ),
    }
}

/// The view of a configuration or of the text of an error.
pub open spec fn config_result_view(
    r: Result<OciOracleConfig, String>,
) -> Result<OciOracleConfigView, Seq<char>> {
    match r {
        Ok(c) => Ok(c@),
        Err(e) => Err(e@),
    }
}

impl OciOracleConfig {
    /// The variables that `with_env_defaults` looks at.
    pub fn env_names() -> (names: Vec<String>)
        ensures
            crate::text::string_views(names@) == seq![
                "OCI_DB_USERNAME"@,
                "DB_USER"@,
                "OCI_DB_CONNECT_DESCRIPTOR"@,
                "DB_CONNECT_STRING"@,
                "OCI_DB_WALLET"@,
                "TNS_ADMIN"@,
                "OCI_DB_SECRET_PATH"@,
                "OCI_DB_PASSWORD"@,
                "DB_PASSWORD"@,
                "OCI_STAGE"@,
            ],
    {
        let mut names: Vec<String> = Vec::new();
        names.push("OCI_DB_USERNAME".to_owned());
        names.push("DB_USER".to_owned());
        names.push("OCI_DB_CONNECT_DESCRIPTOR".to_owned());
        names.push("DB_CONNECT_STRING".to_owned());
        names.push("OCI_DB_WALLET".to_owned());
        names.push("TNS_ADMIN".to_owned());
        names.push("OCI_DB_SECRET_PATH".to_owned());
        names.push("OCI_DB_PASSWORD".to_owned());
        names.push("DB_PASSWORD".to_owned());
        names.push("OCI_STAGE".to_owned());
        names
    }

    /// The configuration with every gap filled from the environment.
    ///
    /// Primary variables:
    /// - `OCI_DB_USERNAME` (required if the user name is empty)
    /// - `OCI_DB_CONNECT_DESCRIPTOR` (required if the connect descriptor is empty)
    /// - `OCI_DB_WALLET` (optional)
    /// - `OCI_DB_SECRET_PATH` (optional, by default `env://OCI_DB_PASSWORD`)
    /// - `OCI_STAGE` (optional, by default `PRODUCTION`)
    ///
    /// Alternatives:
    /// - `DB_USER` for `OCI_DB_USERNAME`
    /// - `DB_CONNECT_STRING` for `OCI_DB_CONNECT_DESCRIPTOR`
    /// - `TNS_ADMIN` for `OCI_DB_WALLET`
    /// - `DB_PASSWORD` for `OCI_DB_PASSWORD` in the secret path
    pub fn with_env_defaults(self, env: &Environment) -> (filled: Result<Self, String>)
        ensures
            config_result_view(filled) == env_defaults(self@, env@),
    {
        let username: String = if self.username.as_str().is_empty() {
            match env.var_either("OCI_DB_USERNAME", "DB_USER") {
                Ok(v) => v,
                Err(e) => {
                    return Err(
                        joined_text("Neither OCI_DB_USERNAME nor DB_USER is set: ", e.as_str()),
                    );
                },
            }
        } else {
            self.username
        };
        let connect_descriptor: String = if self.connect_descriptor.as_str().is_empty() {
            match env.var_either("OCI_DB_CONNECT_DESCRIPTOR", "DB_CONNECT_STRING") {
                Ok(v) => v,
                Err(e) => {
                    return Err(
                        joined_text(
                            "Neither OCI_DB_CONNECT_DESCRIPTOR nor DB_CONNECT_STRING is set: ",
                            e.as_str(),
                        ),
                    );
                },
            }
        } else {
            self.connect_descriptor
        };
        let wallet_path: Option<String> = match self.wallet_path {
            Some(path) => Some(path),
            None => match env.var_either("OCI_DB_WALLET", "TNS_ADMIN") {
                Ok(path) => Some(path),
                Err(_) => None,
            },
        };
        let secret_path: String = if self.secret_path.as_str().is_empty() {
            match env.var("OCI_DB_SECRET_PATH") {
                Ok(path) => path,
                Err(_) => {
                    if env.var("OCI_DB_PASSWORD").is_err() && env.var("DB_PASSWORD").is_ok() {
                        "env://DB_PASSWORD".to_owned()
                    } else {
                        "env://OCI_DB_PASSWORD".to_owned()
                    }
                },
            }
        } else {
            self.secret_path
        };
        let stage: String = if self.stage.as_str().is_empty() {
            match env.var("OCI_STAGE") {
                Ok(stage) => stage,
                Err(_) => "PRODUCTION".to_owned(),
            }
        } else {
            self.stage
        };
        let pool_max: usize = if self.pool_max == 0 {
            10
        } else {
            self.pool_max
        };
        Ok(
            OciOracleConfig {
                username,
                connect_descriptor,
                wallet_path,
                stage,
                secret_path,
                pool_max,
                pool_timeout_secs: self.pool_timeout_secs,
            },
        )
    }
}

// --------------------------------------------------------------- connections

/// How large a pool of connections is, and how long one waits for a connection.
#[derive(Clone, Copy, PartialEq, Eq, Structural, Debug)]
pub struct PoolSettings {
    pub max_size: usize,
    /// In seconds; without it one waits for ever.
    pub wait_timeout_secs: Option<u64>,
}

/// The pool that a configuration asks for. A timeout of zero is none.
pub open spec fn pool_settings(config: OciOracleConfigView) -> PoolSettings {
    PoolSettings {
        max_size: config.pool_max,
        wait_timeout_secs: if config.pool_timeout_secs > 0 {
            Some(config.pool_timeout_secs)
        } else {
            None
        },
    }
}

/// What connections are opened with under a configuration and a password.
pub open spec fn params_with(
    config: OciOracleConfigView,
    password: Seq<char>,
) -> OracleConnectParamsView {
    OracleConnectParamsView {
        username: config.username,
        password,
        connect_descriptor: config.connect_descriptor,
    }
}

impl OciOracleConfig {
    /// The pool that the configuration asks for.
    pub fn pool_settings(&self) -> (settings: PoolSettings)
        ensures
            settings == pool_settings(self@),
    {
        let wait_timeout_secs: Option<u64> = if self.pool_timeout_secs > 0 {
            Some(self.pool_timeout_secs)
        } else {
            None
        };
        PoolSettings { max_size: self.pool_max, wait_timeout_secs }
    }

    /// What connections are opened with, given the password.
    pub fn connect_params(&self, password: String) -> (params: OracleConnectParams)
        ensures
            params@ == params_with(self@, password@),
    {
        OracleConnectParams::new(self.username.clone(), password, self.connect_descriptor.clone())
    }
}

// -------------------------------------------------------------------- wallet

/// The variable by which the Oracle client finds a wallet.
pub const TNS_ADMIN: &'static str = "TNS_ADMIN";

/// The file of a wallet that names databases.
pub const TNSNAMES_FILE: &'static str = "tnsnames.ora";

/// The file of a wallet that sets up the client.
pub const SQLNET_FILE: &'static str = "sqlnet.ora";

/// What was found at the path of a wallet.
#[derive(Clone, Copy, PartialEq, Eq, Structural, Debug)]
pub struct WalletFiles {
    /// Whether it is a directory.
    pub is_dir: bool,
    /// Whether `tnsnames.ora` is in it.
    pub has_tnsnames: bool,
    /// Whether `sqlnet.ora` is in it.
    pub has_sqlnet: bool,
}

/// Whether a wallet can be used: it is a directory with at least one of the two
/// files in it.
pub open spec fn wallet_fault(path: Seq<char>, files: WalletFiles) -> Option<Seq<char>> {
    if !files.is_dir {
        Some("Oracle wallet path '"@ + path + "' is not a directory"@)
    } else if !files.has_tnsnames && !files.has_sqlnet {
        Some("Oracle wallet path '"@ + path + "' is missing tnsnames.ora or sqlnet.ora"@)
    } else {
        None
    }
}

/// Whether the Oracle client can be given the wallet at `wallet_path`, where
/// `files` was found; if not, why.
pub fn configure_oracle_client(wallet_path: &str, files: WalletFiles) -> (usable: Result<
    (),
    String,
>)
    ensures
        match (usable, wallet_fault(wallet_path@, files)) {
            (Ok(_), None) => true,
            (Err(e), Some(fault)) => e@ == fault,
            _ => false,
        },
        usable is Ok <==> files.is_dir && (files.has_tnsnames || files.has_sqlnet),
{
    let head: String = joined_text("Oracle wallet path '", wallet_path);
    if !files.is_dir {
        return Err(joined_text(head.as_str(), "' is not a directory"));
    }
    if !files.has_tnsnames && !files.has_sqlnet {
        return Err(joined_text(head.as_str(), "' is missing tnsnames.ora or sqlnet.ora"));
    }
    Ok(())
}

// --------------------------------------------------------------------- laws

/// What is configured is kept: the environment only fills gaps.
pub proof fn configured_values_are_kept(
    config: OciOracleConfigView,
    vars: Seq<(Seq<char>, Result<Seq<char>, Seq<char>>)>,
)
    requires
        env_defaults(config, vars) is Ok,
    ensures
        ({
            let filled = env_defaults(config, vars)->Ok_0;
            &&& config.username.len() > 0 ==> filled.username == config.username
            &&& config.connect_descriptor.len() > 0 ==> filled.connect_descriptor
                == config.connect_descriptor
            &&& config.wallet_path is Some ==> filled.wallet_path == config.wallet_path
            &&& config.stage.len() > 0 ==> filled.stage == config.stage
            &&& config.secret_path.len() > 0 ==> filled.secret_path == config.secret_path
            &&& config.pool_max > 0 ==> filled.pool_max == config.pool_max
            &&& filled.pool_timeout_secs == config.pool_timeout_secs
            &&& filled.pool_max > 0
        }),
{
}

/// A configuration without gaps does not depend on the environment.
pub proof fn complete_configuration_needs_no_environment(
    config: OciOracleConfigView,
    vars: Seq<(Seq<char>, Result<Seq<char>, Seq<char>>)>,
)
    requires
        config.username.len() > 0,
        config.connect_descriptor.len() > 0,
        config.wallet_path is Some,
        config.stage.len() > 0,
        config.secret_path.len() > 0,
        config.pool_max > 0,
    ensures
        env_defaults(config, vars) == Ok::<OciOracleConfigView, Seq<char>>(config),
{
}

/// To fill the gaps twice from the same environment is to fill them once.
pub proof fn filling_gaps_twice_is_filling_them_once(
    config: OciOracleConfigView,
    vars: Seq<(Seq<char>, Result<Seq<char>, Seq<char>>)>,
)
    requires
        env_defaults(config, vars) is Ok,
    ensures
        env_defaults(env_defaults(config, vars)->Ok_0, vars) == env_defaults(config, vars),
{
    reveal_strlit("PRODUCTION");
    reveal_strlit("env://DB_PASSWORD");
    reveal_strlit("env://OCI_DB_PASSWORD");
}

} // verus!
