//! Laws of what the functions of the connector come to.

use vstd::prelude::*;

use crate::checksum::{fnv1a, hash64};
use crate::clock::now_ms;
use crate::config::{
    configure_oracle_client, env_defaults, lookup, Environment, OciOracleConfig, PoolSettings,
    WalletFiles,
};
use crate::db::{
    is_authentication_error, map_oracle_error, BindView, OracleConnectParams, OracleError, SqlCall,
    Timestamp,
};
use crate::migrations::{
    classify_migration_file, hash64_of_file, insert_history_row, kind_of_name, migration_kind,
    migration_views, plan_migrations, plan_of, read_fault_text, repeatable_checksum,
    repeatable_current, repeatable_row, upsert_history_row, version_applied, versioned_row,
    MigrationFile, ReadFault,
};
use crate::numbers::{decimal, decimal_of, parse_u64, parsed_u64};
use crate::redact::{log_db_url, logged, parsed_url, redacted_text, UrlParts};
use crate::scan::has_sql_extension;
use crate::schema::{
    agent_runtime_steps, create_conversations_table_if_missing, create_index_if_missing,
    create_responses_table_if_missing, ensure_migrations_table, ensure_start, history_step,
    index_exists, init_agent_runtime_schema, table_exists, EnsureRun, EnsureStep, Missing,
};
use crate::secret::{DefaultSecretFetcher, SecretSource};
use crate::sql_text::{
    migration_statements, placeholders_view, plsql_blocks, split_plsql_blocks, sql_statements,
    substitute, substitute_placeholders, Placeholders,
};
use crate::store::{task_result, OciOracleStore};
use crate::text::uppercase;

verus! {

// -------------------------------------------------------------------- clock

/// Milliseconds since 1970 are counted modulo two to the power of 64; before 1970
/// they are zero.
pub proof fn milliseconds_are_counted_since_1970(since_epoch: Option<u128>, ms: u64)
    requires
        call_ensures(now_ms, (since_epoch,), ms),
    ensures
        since_epoch is None ==> ms == 0,
        since_epoch matches Some(m) ==> ms == m % 0x1_0000_0000_0000_0000,
{
}

// ------------------------------------------------------------ configuration

/// The wallet is accepted exactly if it is a directory and at least one of the two
/// files is in it; what is wrong with any other one is said.
pub proof fn wallet_is_accepted_with_one_of_two_files(
    path: &str,
    files: WalletFiles,
    usable: Result<(), String>,
)
    requires
        call_ensures(configure_oracle_client, (path, files), usable),
    ensures
        usable is Ok <==> files.is_dir && (files.has_tnsnames || files.has_sqlnet),
        usable matches Err(e) ==> (!files.is_dir ==> e@ == "Oracle wallet path '"@ + path@
            + "' is not a directory"@),
        usable matches Err(e) ==> (files.is_dir ==> e@ == "Oracle wallet path '"@ + path@
            + "' is missing tnsnames.ora or sqlnet.ora"@),
{
}

/// A variable has what the environment says of it.
pub proof fn variable_is_looked_up(
    env: Environment,
    name: &str,
    second: &str,
    value: Result<String, String>,
    either: Result<String, String>,
)
    requires
        call_ensures(Environment::var, (&env, name), value),
        call_ensures(Environment::var_either, (&env, name, second), either),
    ensures
        value matches Ok(v) ==> lookup(env@, name@) == Ok::<Seq<char>, Seq<char>>(v@),
        value matches Err(e) ==> lookup(env@, name@) == Err::<Seq<char>, Seq<char>>(e@),
        value matches Ok(v) ==> (either matches Ok(w) && w@ == v@),
        value is Err ==> (match either {
            Ok(w) => lookup(env@, second@) == Ok::<Seq<char>, Seq<char>>(w@),
            Err(e) => lookup(env@, second@) == Err::<Seq<char>, Seq<char>>(e@),
        }),
{
}

/// The view of an environment shows each variable, in order.
pub proof fn environment_is_seen_whole(env: Environment, i: int)
    requires
        0 <= i < env.vars@.len(),
    ensures
        env@.len() == env.vars@.len(),
        env@[i].0 == env.vars@[i].name@,
        env.vars@[i].value matches Ok(v) ==> env@[i].1 == Ok::<Seq<char>, Seq<char>>(v@),
        env.vars@[i].value matches Err(e) ==> env@[i].1 == Err::<Seq<char>, Seq<char>>(e@),
{
}

/// What is configured stays as it is when gaps are filled, and so do the sizes but
/// for a pool without size.
pub proof fn configured_fields_stay(
    config: OciOracleConfig,
    env: Environment,
    filled: Result<OciOracleConfig, String>,
)
    requires
        call_ensures(OciOracleConfig::with_env_defaults, (config, &env), filled),
    ensures
        filled matches Ok(f) ==> {
            &&& config.username@.len() > 0 ==> f.username@ == config.username@
            &&& config.connect_descriptor@.len() > 0 ==> f.connect_descriptor@
                == config.connect_descriptor@
            &&& config.secret_path@.len() > 0 ==> f.secret_path@ == config.secret_path@
            &&& config.stage@.len() > 0 ==> f.stage@ == config.stage@
            &&& config.wallet_path matches Some(p) ==> (f.wallet_path matches Some(q) && q@ == p@)
            &&& f.pool_max == if config.pool_max == 0 {
                10
            } else {
                config.pool_max
            }
            &&& f.pool_timeout_secs == config.pool_timeout_secs
        },
{
}

/// Filling gaps succeeds exactly if there is a user name and a connect descriptor,
/// in the configuration or in the environment.
pub proof fn gaps_are_filled_where_the_environment_fills_them(
    config: OciOracleConfig,
    env: Environment,
    filled: Result<OciOracleConfig, String>,
)
    requires
        call_ensures(OciOracleConfig::with_env_defaults, (config, &env), filled),
    ensures
        filled is Ok <==> (config.username@.len() > 0 || lookup(env@, "OCI_DB_USERNAME"@) is Ok
            || lookup(env@, "DB_USER"@) is Ok) && (config.connect_descriptor@.len() > 0 || lookup(
            env@,
            "OCI_DB_CONNECT_DESCRIPTOR"@,
        ) is Ok || lookup(env@, "DB_CONNECT_STRING"@) is Ok),
        filled matches Ok(f) ==> env_defaults(config@, env@) matches Ok(g) && g == f@,
        filled matches Err(e) ==> env_defaults(config@, env@) matches Err(g) && g == e@,
{
}

/// The secret path that is filled in names `DB_PASSWORD` exactly if that variable is
/// there and `OCI_DB_PASSWORD` is not.
pub proof fn filled_secret_path_names_the_password(
    config: OciOracleConfig,
    env: Environment,
    filled: OciOracleConfig,
)
    requires
        call_ensures(
            OciOracleConfig::with_env_defaults,
            (config, &env),
            Ok::<OciOracleConfig, String>(filled),
        ),
        config.secret_path@.len() == 0,
    ensures
        lookup(env@, "OCI_DB_SECRET_PATH"@) matches Ok(path) ==> filled.secret_path@ == path,
        lookup(env@, "OCI_DB_SECRET_PATH"@) is Err && lookup(env@, "DB_PASSWORD"@) is Ok && lookup(
            env@,
            "OCI_DB_PASSWORD"@,
        ) is Err ==> filled.secret_path@ == "env://DB_PASSWORD"@,
        lookup(env@, "OCI_DB_SECRET_PATH"@) is Err && (lookup(env@, "DB_PASSWORD"@) is Err
            || lookup(env@, "OCI_DB_PASSWORD"@) is Ok) ==> filled.secret_path@
            == "env://OCI_DB_PASSWORD"@,
{
}

/// The variables that are read are the ten that have a say in how gaps are filled.
pub proof fn every_variable_with_a_say_is_read(names: Vec<String>)
    requires
        call_ensures(OciOracleConfig::env_names, (), names),
    ensures
        names@.len() == 10,
        names@[0]@ == "OCI_DB_USERNAME"@,
        names@[1]@ == "DB_USER"@,
        names@[2]@ == "OCI_DB_CONNECT_DESCRIPTOR"@,
        names@[3]@ == "DB_CONNECT_STRING"@,
        names@[4]@ == "OCI_DB_WALLET"@,
        names@[5]@ == "TNS_ADMIN"@,
        names@[6]@ == "OCI_DB_SECRET_PATH"@,
        names@[7]@ == "OCI_DB_PASSWORD"@,
        names@[8]@ == "DB_PASSWORD"@,
        names@[9]@ == "OCI_STAGE"@,
{
    let views = crate::text::string_views(names@);
    assert(views.len() == names@.len());
    assert(views[0] == names@[0]@);
    assert(views[1] == names@[1]@);
    assert(views[2] == names@[2]@);
    assert(views[3] == names@[3]@);
    assert(views[4] == names@[4]@);
    assert(views[5] == names@[5]@);
    assert(views[6] == names@[6]@);
    assert(views[7] == names@[7]@);
    assert(views[8] == names@[8]@);
    assert(views[9] == names@[9]@);
}

/// A copy of a configuration holds the same.
pub proof fn copy_of_a_configuration_holds_the_same(
    config: OciOracleConfig,
    copy: OciOracleConfig,
)
    requires
        call_ensures(OciOracleConfig::clone, (&config,), copy),
    ensures
        copy@ == config@,
{
}

/// The pool gets the configured size, and the configured timeout unless that is
/// zero; connections are opened with the configured names and the password.
pub proof fn pool_and_connections_are_as_configured(
    config: OciOracleConfig,
    password: String,
    settings: PoolSettings,
    params: OracleConnectParams,
)
    requires
        call_ensures(OciOracleConfig::pool_settings, (&config,), settings),
        call_ensures(OciOracleConfig::connect_params, (&config, password), params),
    ensures
        settings.max_size == config.pool_max,
        config.pool_timeout_secs == 0 ==> settings.wait_timeout_secs is None,
        config.pool_timeout_secs > 0 ==> settings.wait_timeout_secs == Some(
            config.pool_timeout_secs,
        ),
        params.username@ == config.username@,
        params.password@ == password@,
        params.connect_descriptor@ == config.connect_descriptor@,
{
}

// ------------------------------------------------------------------ secrets

/// The path alone says where a secret is.
pub proof fn secret_path_says_where_the_secret_is(
    fetcher: DefaultSecretFetcher,
    path: &str,
    name: Seq<char>,
    source: SecretSource,
)
    requires
        call_ensures(DefaultSecretFetcher::source, (&fetcher, path), source),
    ensures
        path@ == "env://"@ + name ==> (source matches SecretSource::Variable(v) && v@ == name),
        path@ == "file://"@ + name ==> (source matches SecretSource::File(f) && f@ == name),
        source matches SecretSource::Variable(v) ==> path@ =~= "env://"@ + v@,
        source matches SecretSource::File(f) ==> path@ =~= "file://"@ + f@,
{
    crate::secret::secret_path_names_its_source(name);
    if source is Variable {
        let part = path@.subrange(0, "env://"@.len() as int);
        assert forall|i: int| 0 <= i < "env://"@.len() implies path@[i] == "env://"@[i] by {
            assert(part[i] == path@[i]);
        }
    }
    if source is File {
        let part = path@.subrange(0, "file://"@.len() as int);
        assert forall|i: int| 0 <= i < "file://"@.len() implies path@[i] == "file://"@[i] by {
            assert(part[i] == path@[i]);
        }
    }
}

/// The value of a variable is the secret as it is, and of a file what is left of it
/// without the white space at either end. The stage makes no difference, and a
/// source that cannot be read is reported.
pub proof fn secret_is_what_its_source_holds(
    fetcher: DefaultSecretFetcher,
    path: &str,
    stage: &str,
    read: Result<String, String>,
    source: SecretSource,
    secret: Result<String, String>,
)
    requires
        call_ensures(DefaultSecretFetcher::source, (&fetcher, path), source),
        call_ensures(
            DefaultSecretFetcher::fetch_latest_secret,
            (&fetcher, path, stage, read),
            secret,
        ),
    ensures
        match (source, read) {
            (SecretSource::Variable(_), Ok(value)) => secret matches Ok(s) && s@ == value@,
            (SecretSource::Fallback, Ok(value)) => secret matches Ok(s) && s@ == value@,
            (SecretSource::File(_), Ok(content)) => secret matches Ok(s) && s@
                == crate::text::trim(content@),
            (SecretSource::Variable(name), Err(e)) => secret matches Err(r) && r@ == "env "@ + name@
                + " not found: "@ + e@,
            (SecretSource::File(file), Err(e)) => secret matches Err(r) && r@
                == "failed reading file secret '"@ + file@ + "': "@ + e@,
            (SecretSource::Fallback, Err(e)) => secret matches Err(r) && r@
                == "OCI_DB_PASSWORD not set: "@ + e@,
        },
{
}

// ----------------------------------------------------------------- database

/// An error of the database is reported by its number and its message, any other
/// one in its own words; three numbers mean that the credentials were refused.
pub proof fn errors_are_told_by_their_numbers(err: OracleError, text: String, refused: bool)
    requires
        call_ensures(map_oracle_error, (err,), text),
        call_ensures(is_authentication_error, (&err,), refused),
    ensures
        match err.db_error {
            Some(e) => text@ == "Oracle error (code "@ + decimal(e.code as int) + "): "@
                + e.message@ && (refused <==> e.code == 1017 || e.code == 28000 || e.code
                == 28001),
            None => text@ == err.text@ && !refused,
        },
{
}

/// What a connection is opened with, and copies of it, hold what was given.
pub proof fn connect_params_hold_what_was_given(
    username: String,
    password: String,
    connect_descriptor: String,
    params: OracleConnectParams,
    copy: OracleConnectParams,
)
    requires
        call_ensures(OracleConnectParams::new, (username, password, connect_descriptor), params),
        call_ensures(OracleConnectParams::clone, (&params,), copy),
    ensures
        params.username == username,
        params.password == password,
        params.connect_descriptor == connect_descriptor,
        copy == params,
{
}

/// A statement is made of its text, with nothing bound or one text.
pub proof fn statements_hold_what_was_given(sql: &str, text: String, plain: SqlCall, bound: SqlCall)
    requires
        call_ensures(SqlCall::plain, (sql,), plain),
        call_ensures(SqlCall::with_text, (sql, text), bound),
    ensures
        plain.sql@ == sql@,
        plain.binds@.len() == 0,
        bound.sql@ == sql@,
        bound.binds@.len() == 1,
        bound.binds@[0]@ == BindView::Text(text@),
{
    assert(plain@.binds.len() == plain.binds@.len());
    assert(bound@.binds.len() == bound.binds@.len());
    assert(bound@.binds[0] == bound.binds@[0]@);
}

// ------------------------------------------------------------------- schema

/// Tables and indexes are counted by their names in upper case.
pub proof fn objects_are_counted_by_name(name: &str, tables: SqlCall, indexes: SqlCall)
    requires
        call_ensures(table_exists, (name,), tables),
        call_ensures(index_exists, (name,), indexes),
    ensures
        tables@.sql == "SELECT COUNT(*) FROM user_tables WHERE table_name = :1"@,
        tables@.binds == seq![BindView::Text(uppercase(name@))],
        indexes@.sql == "SELECT COUNT(*) FROM user_indexes WHERE index_name = :1"@,
        indexes@.binds == seq![BindView::Text(uppercase(name@))],
{
}

/// The step that creates an index counts the indexes of its name, executes what was
/// given, and passes over two errors.
pub proof fn index_is_created_as_given(name: &str, ddl: &str, step: EnsureStep, code: i32)
    requires
        call_ensures(create_index_if_missing, (name, ddl), step),
    ensures
        step@.probe.sql == "SELECT COUNT(*) FROM user_indexes WHERE index_name = :1"@,
        step@.probe.binds == seq![BindView::Text(uppercase(name@))],
        step@.ddl.sql == ddl@,
        step@.ddl.binds.len() == 0,
        step.missing == Missing::NotPositive,
        step.tolerated@.contains(code) <==> code == 955 || code == 1408,
        step.follow_up is None,
{
    let codes = seq![955i32, 1408i32];
    assert(codes[0] == 955 && codes[1] == 1408);
    assert(step@.tolerated =~= codes);
}

/// The steps of the two tables are the first two of the agent runtime, and runs
/// start with all of their steps to do.
pub proof fn runs_start_with_all_steps(
    responses: EnsureStep,
    conversations: EnsureStep,
    agent_runtime: EnsureRun,
    history: EnsureRun,
)
    requires
        call_ensures(create_responses_table_if_missing, (), responses),
        call_ensures(create_conversations_table_if_missing, (), conversations),
        call_ensures(init_agent_runtime_schema, (), agent_runtime),
        call_ensures(ensure_migrations_table, (), history),
    ensures
        responses@ == agent_runtime_steps()[0],
        conversations@ == agent_runtime_steps()[1],
        agent_runtime@ == ensure_start(agent_runtime_steps()),
        history@ == ensure_start(seq![history_step()]),
{
}

// --------------------------------------------------------------- migrations

/// Numbers are written and read in decimal notation.
pub proof fn numbers_are_decimal(n: i32, written: String, text: Vec<char>, read: Option<u64>)
    requires
        call_ensures(decimal_of, (n,), written),
        call_ensures(parsed_u64, (&text,), read),
    ensures
        written@ == decimal(n as int),
        read == parse_u64(text@),
{
}

/// A file's checksum is that of its bytes, and a file that cannot be read is
/// reported.
pub proof fn file_has_the_checksum_of_its_bytes(
    data: &[u8],
    hash: u64,
    content: Result<Vec<u8>, ReadFault>,
    sum: Result<u64, String>,
)
    requires
        call_ensures(hash64, (data,), hash),
        call_ensures(hash64_of_file, (content,), sum),
    ensures
        hash == fnv1a(data@),
        content matches Ok(bytes) ==> sum == Ok::<u64, String>(fnv1a(bytes@)),
        content matches Err(fault) ==> (sum matches Err(e) && e@ == read_fault_text(fault)),
{
}

/// A file is a migration exactly if its name says so; it then has its name, its
/// path, the version in its name and the checksum of its bytes. Only the bytes of
/// migrations have to be had.
pub proof fn name_and_bytes_make_a_migration<P>(
    name: &str,
    path: P,
    content: Result<Vec<u8>, ReadFault>,
    found: Result<Option<MigrationFile<P>>, String>,
)
    requires
        call_ensures(classify_migration_file::<P>, (name, path, content), found),
    ensures
        match migration_kind(name@) {
            None => found == Ok::<Option<MigrationFile<P>>, String>(None),
            Some((ty, version)) => match content {
                Ok(bytes) => found matches Ok(Some(file)) && file.ty == ty && file.version == version
                    && file.name@ == name@ && file.path == path && file.checksum == fnv1a(bytes@),
                Err(fault) => found matches Err(e) && e@ == read_fault_text(fault),
            },
        },
{
}

/// An extension is `sql` exactly if it is these three letters, each of them large or
/// small.
pub proof fn sql_files_are_told_by_their_extension(extension: Option<String>, sql: bool)
    requires
        call_ensures(has_sql_extension, (&extension,), sql),
    ensures
        extension is None ==> !sql,
        extension matches Some(ext) ==> (sql <==> ext@.len() == 3 && (ext@[0] == 's' || ext@[0]
            == 'S') && (ext@[1] == 'q' || ext@[1] == 'Q') && (ext@[2] == 'l' || ext@[2] == 'L')),
{
    if let Some(ext) = extension {
        crate::laws::migrations::extension_is_sql_in_whatever_case(ext@);
    }
}

/// Migrations are planned as what was found says, and names are read alike
/// everywhere.
pub proof fn migrations_are_planned<P>(
    name: &str,
    kind: Option<(crate::migrations::MigType, Option<u64>)>,
    files: Vec<MigrationFile<P>>,
    plan: Vec<MigrationFile<P>>,
)
    requires
        call_ensures(kind_of_name, (name,), kind),
        call_ensures(plan_migrations::<P>, (files,), plan),
    ensures
        kind == migration_kind(name@),
        migration_views(plan@) == plan_of(migration_views(files@)),
{
}

/// The history is asked by a migration's name.
pub proof fn history_is_asked_by_name<P>(
    mig: MigrationFile<P>,
    applied: SqlCall,
    checksum: SqlCall,
)
    requires
        call_ensures(version_applied::<P>, (&mig,), applied),
        call_ensures(repeatable_checksum::<P>, (&mig,), checksum),
    ensures
        applied@.sql == "SELECT COUNT(*) FROM MIGRATIONS_HISTORY WHERE NAME = :1 AND TYPE = 'V'"@,
        applied@.binds == seq![BindView::Text(mig.name@)],
        checksum@.sql
            == "SELECT CHECKSUM FROM MIGRATIONS_HISTORY WHERE NAME = :1 AND TYPE = 'R'"@,
        checksum@.binds == seq![BindView::Text(mig.name@)],
{
}

/// A repeatable migration is current exactly if the history holds its checksum, as
/// the signed number with the same bits, or none where it is zero.
pub proof fn recorded_checksum_makes_it_current<P>(
    mig: MigrationFile<P>,
    row: Option<Option<i64>>,
    current: bool,
)
    requires
        call_ensures(repeatable_current::<P>, (&mig, row), current),
    ensures
        current <==> (match row {
            None => false,
            Some(None) => mig.checksum == 0,
            Some(Some(n)) => mig.checksum == n || mig.checksum == n + 0x1_0000_0000_0000_0000,
        }),
{
    if let Some(Some(n)) = row {
        crate::laws::migrations::row_with_the_checksum_makes_it_current(n, mig.checksum);
    }
}

/// A versioned migration is recorded by one row; the row of a repeatable one takes
/// the place of the one of its name.
pub proof fn rows_are_inserted_and_replaced<P>(
    mig: MigrationFile<P>,
    now: Timestamp,
    row: SqlCall,
    replacing: (SqlCall, SqlCall),
)
    requires
        call_ensures(insert_history_row::<P>, (&mig, now), row),
        call_ensures(upsert_history_row::<P>, (&mig, now), replacing),
    ensures
        row@ == versioned_row(mig@, now),
        replacing.0@.sql == "DELETE FROM MIGRATIONS_HISTORY WHERE NAME = :1 AND TYPE = 'R'"@,
        replacing.0@.binds == seq![BindView::Text(mig.name@)],
        replacing.1@ == repeatable_row(mig@, now),
{
}

/// Text is substituted, taken apart into blocks and turned into statements, and what
/// a file says is executed, all by the same rules.
pub proof fn migration_text_is_read_alike(
    sql: &str,
    none: Placeholders,
    placeholders: Placeholders,
    some: Option<Placeholders>,
    substituted: String,
    blocks: Vec<String>,
    found: Vec<String>,
    calls: Vec<SqlCall>,
)
    requires
        call_ensures(Placeholders::new, (), none),
        call_ensures(substitute_placeholders, (sql, &placeholders), substituted),
        call_ensures(split_plsql_blocks, (sql,), blocks),
        call_ensures(sql_statements, (sql, &some), found),
        call_ensures(crate::apply::apply_sql_file, (sql, &some), calls),
    ensures
        none@.len() == 0,
        substituted@ == substitute(sql@, placeholders@),
        blocks@.len() == plsql_blocks(sql@).len(),
        forall|i: int| 0 <= i < blocks@.len() ==> (#[trigger] blocks@[i])@ == plsql_blocks(sql@)[i],
        ({
            let statements = migration_statements(sql@, placeholders_view(some));
            &&& found@.len() == statements.len()
            &&& forall|i: int| 0 <= i < found@.len() ==> (#[trigger] found@[i])@ == statements[i]
            &&& calls@.len() == statements.len()
            &&& forall|i: int|
                0 <= i < calls@.len() ==> (#[trigger] calls@[i]).sql@ == statements[i]
                    && calls@[i].binds@.len() == 0
        }),
{
    let statements = migration_statements(sql@, placeholders_view(some));
    assert(crate::text::string_views(blocks@).len() == blocks@.len());
    assert forall|i: int| 0 <= i < blocks@.len() implies (#[trigger] blocks@[i])@ == plsql_blocks(
        sql@,
    )[i] by {
        assert(crate::text::string_views(blocks@)[i] == blocks@[i]@);
    }
    assert(crate::text::string_views(found@).len() == found@.len());
    assert forall|i: int| 0 <= i < found@.len() implies (#[trigger] found@[i])@ == statements[i] by {
        assert(crate::text::string_views(found@)[i] == found@[i]@);
    }
    assert(crate::apply::call_views(calls@).len() == calls@.len());
    assert forall|i: int| 0 <= i < calls@.len() implies (#[trigger] calls@[i]).sql@ == statements[i]
        && calls@[i].binds@.len() == 0 by {
        assert(crate::apply::call_views(calls@)[i] == calls@[i]@);
        assert(calls@[i]@.binds.len() == calls@[i].binds@.len());
    }
}

// -------------------------------------------------------------------- store

/// A refresh is due a minute after the last one, and at any time after that.
pub proof fn refresh_is_due_after_a_minute(store: OciOracleStore, now_ms: u64, due: bool)
    requires
        call_ensures(OciOracleStore::should_attempt_refresh, (&store, now_ms), due),
    ensures
        due <==> now_ms >= store@.last_refresh_ts_ms + 60_000,
{
}

/// A copy of a store uses the same pool, and counts as never refreshed.
pub proof fn copy_counts_as_never_refreshed(store: OciOracleStore, copy: OciOracleStore)
    requires
        call_ensures(OciOracleStore::clone, (&store,), copy),
    ensures
        copy@.config == store@.config,
        copy@.manager_params == store@.manager_params,
        copy@.pool_params == store@.pool_params,
        !copy@.refresh_in_progress,
        copy@.last_refresh_ts_ms == 0,
{
}

/// The use of a connection comes to what its task came to; a task that did not come
/// to its end is reported.
pub proof fn task_comes_to_its_outcome<T>(
    ran: Result<Result<T, String>, String>,
    result: Result<T, String>,
)
    requires
        call_ensures(task_result::<T>, (ran,), result),
    ensures
        ran matches Ok(outcome) ==> result == outcome,
        ran matches Err(e) ==> (result matches Err(text) && text@ == "Task execution failed: "@
            + e@),
{
}

/// Of a text that is no URL nothing is logged; the masked text is logged of a URL with
/// a password that could be masked, and the URL's own text of any other.
pub proof fn masked_text_takes_the_place_of_a_password(
    parsed: Option<UrlParts>,
    masked: Option<UrlParts>,
    log: String,
)
    requires
        call_ensures(redacted_text, (parsed, masked), log),
    ensures
        match (parsed, masked) {
            (None, _) => log@ == "<redacted>"@,
            (Some(url), None) => log@ == url.text@,
            (Some(url), Some(m)) => log@ == if url.password is Some {
                m.text@
            } else {
                url.text@
            },
        },
{
}

/// A database URL is logged as its parts say.
pub proof fn url_is_logged_by_its_parts(url: &str, log: String)
    requires
        call_ensures(log_db_url, (url,), log),
    ensures
        log@ == logged(parsed_url(url@)),
{
}

} // verus!
