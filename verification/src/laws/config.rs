//! Laws of the configuration, of the wallet and of secrets.

use vstd::prelude::*;

use crate::config::{
    env_defaults, lookup, lookup_either, params_with, pool_settings, wallet_fault, OciOracleConfig,
    OciOracleConfigView, WalletFiles,
};
use crate::db::OracleConnectParamsView;
use crate::laws::text;
use crate::secret::{
    secret_from, secret_path_names_its_source, secret_source, SecretSourceView,
};
use crate::text::{is_white_space, reads_at};

verus! {

// -------------------------------------------------------------- environment

/// A variable has what the first entry of its name says.
pub proof fn variable_has_what_its_first_entry_says(
    before: Seq<(Seq<char>, Result<Seq<char>, Seq<char>>)>,
    name: Seq<char>,
    value: Result<Seq<char>, Seq<char>>,
    after: Seq<(Seq<char>, Result<Seq<char>, Seq<char>>)>,
)
    requires
        forall|i: int| 0 <= i < before.len() ==> (#[trigger] before[i]).0 != name,
    ensures
        lookup(before + seq![(name, value)] + after, name) == value,
    decreases before.len(),
{
    let all = before + seq![(name, value)] + after;
    if before.len() == 0 {
        assert(all[0] == (name, value));
    } else {
        let rest = before.skip(1);
        assert(before[0].0 != name);
        assert forall|i: int| 0 <= i < rest.len() implies (#[trigger] rest[i]).0 != name by {
            assert(before[i + 1].0 != name);
        }
        variable_has_what_its_first_entry_says(rest, name, value, after);
        assert(all.skip(1) =~= rest + seq![(name, value)] + after);
    }
}

/// A variable without an entry is not there.
pub proof fn variable_without_an_entry_is_not_there(
    vars: Seq<(Seq<char>, Result<Seq<char>, Seq<char>>)>,
    name: Seq<char>,
)
    requires
        forall|i: int| 0 <= i < vars.len() ==> (#[trigger] vars[i]).0 != name,
    ensures
        lookup(vars, name) == Err::<Seq<char>, Seq<char>>("environment variable not found"@),
    decreases vars.len(),
{
    if vars.len() > 0 {
        let rest = vars.skip(1);
        assert(vars[0].0 != name);
        assert forall|i: int| 0 <= i < rest.len() implies (#[trigger] rest[i]).0 != name by {
            assert(vars[i + 1].0 != name);
        }
        variable_without_an_entry_is_not_there(rest, name);
    }
}

/// The second of two variables counts only where the first one is not there.
pub proof fn second_variable_stands_in_for_the_first(
    vars: Seq<(Seq<char>, Result<Seq<char>, Seq<char>>)>,
    first: Seq<char>,
    second: Seq<char>,
)
    ensures
        lookup(vars, first) is Ok ==> lookup_either(vars, first, second) == lookup(vars, first),
        lookup(vars, first) is Err ==> lookup_either(vars, first, second) == lookup(vars, second),
{
}

// ----------------------------------------------------------------- defaults

/// The configuration can be completed exactly if there is a user name and a connect
/// descriptor, in it or in the environment; the first that is missing is reported,
/// with why its last variable cannot be had.
pub proof fn user_name_and_descriptor_have_to_be_there(
    config: OciOracleConfigView,
    vars: Seq<(Seq<char>, Result<Seq<char>, Seq<char>>)>,
)
    ensures
        ({
            let user = config.username.len() > 0 || lookup(vars, "OCI_DB_USERNAME"@) is Ok
                || lookup(vars, "DB_USER"@) is Ok;
            let descriptor = config.connect_descriptor.len() > 0 || lookup(
                vars,
                "OCI_DB_CONNECT_DESCRIPTOR"@,
            ) is Ok || lookup(vars, "DB_CONNECT_STRING"@) is Ok;
            &&& env_defaults(config, vars) is Ok <==> user && descriptor
            &&& !user ==> env_defaults(config, vars) == Err::<OciOracleConfigView, Seq<char>>(
                "Neither OCI_DB_USERNAME nor DB_USER is set: "@ + lookup(vars, "DB_USER"@)->Err_0,
            )
            &&& user && !descriptor ==> env_defaults(config, vars) == Err::<
                OciOracleConfigView,
                Seq<char>,
            >(
                "Neither OCI_DB_CONNECT_DESCRIPTOR nor DB_CONNECT_STRING is set: "@ + lookup(
                    vars,
                    "DB_CONNECT_STRING"@,
                )->Err_0,
            )
        }),
{
}

/// A gap in the user name, the connect descriptor or the wallet is filled from the
/// primary variable, or else from the alternative one.
pub proof fn gaps_are_filled_from_the_primary_variable_first(
    config: OciOracleConfigView,
    vars: Seq<(Seq<char>, Result<Seq<char>, Seq<char>>)>,
    filled: OciOracleConfigView,
)
    requires
        env_defaults(config, vars) == Ok::<OciOracleConfigView, Seq<char>>(filled),
    ensures
        config.username.len() == 0 ==> (lookup(vars, "OCI_DB_USERNAME"@) matches Ok(v)
            ==> filled.username == v),
        config.username.len() == 0 && lookup(vars, "OCI_DB_USERNAME"@) is Err ==> lookup(
            vars,
            "DB_USER"@,
        ) == Ok::<Seq<char>, Seq<char>>(filled.username),
        config.connect_descriptor.len() == 0 ==> (lookup(
            vars,
            "OCI_DB_CONNECT_DESCRIPTOR"@,
        ) matches Ok(v) ==> filled.connect_descriptor == v),
        config.connect_descriptor.len() == 0 && lookup(vars, "OCI_DB_CONNECT_DESCRIPTOR"@) is Err
            ==> lookup(vars, "DB_CONNECT_STRING"@) == Ok::<Seq<char>, Seq<char>>(
            filled.connect_descriptor,
        ),
        config.wallet_path is None ==> (lookup(vars, "OCI_DB_WALLET"@) matches Ok(v)
            ==> filled.wallet_path == Some(v)),
        config.wallet_path is None && lookup(vars, "OCI_DB_WALLET"@) is Err ==> (lookup(
            vars,
            "TNS_ADMIN"@,
        ) matches Ok(v) ==> filled.wallet_path == Some(v)),
        config.wallet_path is None && lookup(vars, "OCI_DB_WALLET"@) is Err && lookup(
            vars,
            "TNS_ADMIN"@,
        ) is Err ==> filled.wallet_path is None,
{
}

/// A gap in the stage is filled from the environment, or else with `PRODUCTION`; a
/// pool without size gets ten connections; the timeout stays as it is.
pub proof fn stage_and_pool_have_defaults(
    config: OciOracleConfigView,
    vars: Seq<(Seq<char>, Result<Seq<char>, Seq<char>>)>,
    filled: OciOracleConfigView,
)
    requires
        env_defaults(config, vars) == Ok::<OciOracleConfigView, Seq<char>>(filled),
    ensures
        config.stage.len() == 0 ==> (lookup(vars, "OCI_STAGE"@) matches Ok(v) ==> filled.stage
            == v),
        config.stage.len() == 0 && lookup(vars, "OCI_STAGE"@) is Err ==> filled.stage
            == "PRODUCTION"@,
        config.pool_max == 0 ==> filled.pool_max == 10,
        config.pool_max > 0 ==> filled.pool_max == config.pool_max,
        filled.pool_timeout_secs == config.pool_timeout_secs,
{
}

/// A gap in the secret path is filled from the environment; or else it names the
/// variable that holds the password. `OCI_DB_PASSWORD` is that variable unless it is
/// not there and `DB_PASSWORD` is.
pub proof fn secret_path_names_the_password_that_is_there(
    config: OciOracleConfigView,
    vars: Seq<(Seq<char>, Result<Seq<char>, Seq<char>>)>,
    filled: OciOracleConfigView,
)
    requires
        env_defaults(config, vars) == Ok::<OciOracleConfigView, Seq<char>>(filled),
        config.secret_path.len() == 0,
    ensures
        lookup(vars, "OCI_DB_SECRET_PATH"@) matches Ok(path) ==> filled.secret_path == path,
        lookup(vars, "OCI_DB_SECRET_PATH"@) is Err ==> {
            &&& filled.secret_path == "env://OCI_DB_PASSWORD"@ || filled.secret_path
                == "env://DB_PASSWORD"@
            &&& lookup(vars, "DB_PASSWORD"@) is Err ==> filled.secret_path
                == "env://OCI_DB_PASSWORD"@
            &&& lookup(vars, "OCI_DB_PASSWORD"@) is Ok ==> filled.secret_path
                == "env://OCI_DB_PASSWORD"@
            &&& lookup(vars, "OCI_DB_PASSWORD"@) is Err && lookup(vars, "DB_PASSWORD"@) is Ok
                ==> filled.secret_path == "env://DB_PASSWORD"@
        },
{
}

/// Wherever a password is in one of the two variables, the secret path that is
/// filled in leads to a variable that is there.
pub proof fn filled_secret_path_leads_to_a_password(
    config: OciOracleConfigView,
    vars: Seq<(Seq<char>, Result<Seq<char>, Seq<char>>)>,
    filled: OciOracleConfigView,
)
    requires
        env_defaults(config, vars) == Ok::<OciOracleConfigView, Seq<char>>(filled),
        config.secret_path.len() == 0,
        lookup(vars, "OCI_DB_SECRET_PATH"@) is Err,
        lookup(vars, "OCI_DB_PASSWORD"@) is Ok || lookup(vars, "DB_PASSWORD"@) is Ok,
    ensures
        secret_source(filled.secret_path) matches SecretSourceView::Variable(name) && lookup(
            vars,
            name,
        ) is Ok,
{
    secret_path_names_the_password_that_is_there(config, vars, filled);
    reveal_strlit("env://");
    reveal_strlit("env://OCI_DB_PASSWORD");
    reveal_strlit("OCI_DB_PASSWORD");
    reveal_strlit("env://DB_PASSWORD");
    reveal_strlit("DB_PASSWORD");
    assert("env://OCI_DB_PASSWORD"@ =~= "env://"@ + "OCI_DB_PASSWORD"@);
    assert("env://DB_PASSWORD"@ =~= "env://"@ + "DB_PASSWORD"@);
    secret_path_names_its_source("OCI_DB_PASSWORD"@);
    secret_path_names_its_source("DB_PASSWORD"@);
}

/// Nothing but ten variables has a say in how gaps are filled.
pub proof fn no_other_variable_has_a_say(
    config: OciOracleConfigView,
    a: Seq<(Seq<char>, Result<Seq<char>, Seq<char>>)>,
    b: Seq<(Seq<char>, Result<Seq<char>, Seq<char>>)>,
)
    requires
        lookup(a, "OCI_DB_USERNAME"@) == lookup(b, "OCI_DB_USERNAME"@),
        lookup(a, "DB_USER"@) == lookup(b, "DB_USER"@),
        lookup(a, "OCI_DB_CONNECT_DESCRIPTOR"@) == lookup(b, "OCI_DB_CONNECT_DESCRIPTOR"@),
        lookup(a, "DB_CONNECT_STRING"@) == lookup(b, "DB_CONNECT_STRING"@),
        lookup(a, "OCI_DB_WALLET"@) == lookup(b, "OCI_DB_WALLET"@),
        lookup(a, "TNS_ADMIN"@) == lookup(b, "TNS_ADMIN"@),
        lookup(a, "OCI_DB_SECRET_PATH"@) == lookup(b, "OCI_DB_SECRET_PATH"@),
        lookup(a, "OCI_DB_PASSWORD"@) == lookup(b, "OCI_DB_PASSWORD"@),
        lookup(a, "DB_PASSWORD"@) == lookup(b, "DB_PASSWORD"@),
        lookup(a, "OCI_STAGE"@) == lookup(b, "OCI_STAGE"@),
    ensures
        env_defaults(config, a) == env_defaults(config, b),
{
}

/// The view of a configuration shows each of its fields.
pub proof fn configuration_is_seen_field_by_field(config: OciOracleConfig)
    ensures
        config@.username == config.username@,
        config@.connect_descriptor == config.connect_descriptor@,
        config@.stage == config.stage@,
        config@.secret_path == config.secret_path@,
        config@.pool_max == config.pool_max,
        config@.pool_timeout_secs == config.pool_timeout_secs,
        config.wallet_path is None <==> config@.wallet_path is None,
        config.wallet_path matches Some(p) ==> config@.wallet_path == Some(p@),
{
}

// -------------------------------------------------------------- connections

/// Connections are opened with the configured user name and descriptor and the
/// password, each as it is; the pool has the configured size, and a timeout where
/// one is configured.
pub proof fn connections_are_opened_as_configured(
    config: OciOracleConfigView,
    password: Seq<char>,
)
    ensures
        params_with(config, password) == (OracleConnectParamsView {
            username: config.username,
            password,
            connect_descriptor: config.connect_descriptor,
        }),
        pool_settings(config).max_size == config.pool_max,
        pool_settings(config).wait_timeout_secs is None <==> config.pool_timeout_secs == 0,
        config.pool_timeout_secs > 0 ==> pool_settings(config).wait_timeout_secs == Some(
            config.pool_timeout_secs,
        ),
{
}

// ------------------------------------------------------------------- wallet

/// A wallet can be used exactly if it is a directory and at least one of the two
/// files is in it.
pub proof fn wallet_needs_one_of_two_files(path: Seq<char>, files: WalletFiles)
    ensures
        wallet_fault(path, files) is None <==> files.is_dir && (files.has_tnsnames
            || files.has_sqlnet),
        !files.is_dir ==> wallet_fault(path, files) == Some(
            "Oracle wallet path '"@ + path + "' is not a directory"@,
        ),
        files.is_dir && !(files.has_tnsnames || files.has_sqlnet) ==> wallet_fault(path, files)
            == Some(
            "Oracle wallet path '"@ + path + "' is missing tnsnames.ora or sqlnet.ora"@,
        ),
{
}

/// One more file in a wallet never makes it unusable.
pub proof fn more_files_do_no_harm(path: Seq<char>, fewer: WalletFiles, more: WalletFiles)
    requires
        fewer.is_dir == more.is_dir,
        fewer.has_tnsnames ==> more.has_tnsnames,
        fewer.has_sqlnet ==> more.has_sqlnet,
        wallet_fault(path, fewer) is None,
    ensures
        wallet_fault(path, more) is None,
{
}

// ------------------------------------------------------------------ secrets

/// A secret path that starts with neither `env://` nor `file://` leads to the
/// fallback.
pub proof fn other_secret_paths_lead_to_the_fallback(path: Seq<char>)
    requires
        forall|name: Seq<char>| path != #[trigger] ("env://"@ + name),
        forall|name: Seq<char>| path != #[trigger] ("file://"@ + name),
    ensures
        secret_source(path) == SecretSourceView::Fallback,
{
    if reads_at(path, 0, "env://"@) {
        let name = path.skip("env://"@.len() as int);
        assert(path =~= "env://"@ + name) by {
            assert(path.subrange(0, "env://"@.len() as int) == "env://"@);
            assert forall|i: int| 0 <= i < path.len() implies path[i] == ("env://"@ + name)[i] by {
                if i < "env://"@.len() {
                    assert(path.subrange(0, "env://"@.len() as int)[i] == path[i]);
                }
            }
        }
    } else if reads_at(path, 0, "file://"@) {
        let name = path.skip("file://"@.len() as int);
        assert(path =~= "file://"@ + name) by {
            assert(path.subrange(0, "file://"@.len() as int) == "file://"@);
            assert forall|i: int| 0 <= i < path.len() implies path[i] == ("file://"@ + name)[i] by {
                if i < "file://"@.len() {
                    assert(path.subrange(0, "file://"@.len() as int)[i] == path[i]);
                }
            }
        }
    }
}

/// The value of a variable is the secret as it is.
pub proof fn variable_is_the_secret_as_it_is(name: Seq<char>, value: Seq<char>)
    ensures
        secret_from(SecretSourceView::Variable(name), Ok(value)) == Ok::<Seq<char>, Seq<char>>(
            value,
        ),
        secret_from(SecretSourceView::Fallback, Ok(value)) == Ok::<Seq<char>, Seq<char>>(value),
{
}

/// What a file holds between white space is the secret, character for character.
pub proof fn file_holds_the_secret_between_space(
    path: Seq<char>,
    a: Seq<char>,
    secret: Seq<char>,
    b: Seq<char>,
)
    requires
        forall|i: int| 0 <= i < a.len() ==> is_white_space(#[trigger] a[i]),
        forall|i: int| 0 <= i < b.len() ==> is_white_space(#[trigger] b[i]),
        secret.len() > 0,
        !is_white_space(secret[0]),
        !is_white_space(secret[secret.len() - 1]),
    ensures
        secret_from(SecretSourceView::File(path), Ok(a + secret + b)) == Ok::<Seq<char>, Seq<char>>(
            secret,
        ),
{
    text::trimming_leaves_what_lies_between_space(a, secret, b);
}

/// A source that cannot be read is reported by what it is.
pub proof fn unreadable_source_is_reported(name: Seq<char>, error: Seq<char>)
    ensures
        secret_from(SecretSourceView::Variable(name), Err(error)) == Err::<Seq<char>, Seq<char>>(
            "env "@ + name + " not found: "@ + error,
        ),
        secret_from(SecretSourceView::File(name), Err(error)) == Err::<Seq<char>, Seq<char>>(
            "failed reading file secret '"@ + name + "': "@ + error,
        ),
        secret_from(SecretSourceView::Fallback, Err(error)) == Err::<Seq<char>, Seq<char>>(
            "OCI_DB_PASSWORD not set: "@ + error,
        ),
{
}

} // verus!
