//! Laws of how a store and its schema are set up.

use vstd::prelude::*;

use crate::apply::{run_next, run_request, run_start, RunView};
use crate::config::{OciOracleConfigView, PoolSettings, WalletFiles};
use crate::db::{
    oracle_error_text, OracleConnectParams, OracleConnectParamsView, OracleError, OracleErrorView,
    Timestamp,
};
use crate::migrations::plan_of;
use crate::protocol::{answers, Reply, ReplyView, Request, RequestView};
use crate::scan::{scan_next, scan_request, ScanView};
use crate::schema::{
    agent_runtime_steps, ensure_next, ensure_request, history_step, EnsurePhaseView,
    EnsureView,
};
use crate::script::{
    agent_runtime_script, filesystem_script, script_next, script_request, SchemaScript, ScriptView,
};
use crate::setup::{
    setup_answers, setup_next, setup_request, setup_start, SchemaInit, SchemaInitView,
    SetupPhaseView, SetupReply, SetupReplyView, SetupRequest, SetupRequestView, SetupView,
};

verus! {

// ------------------------------------------------------------------- script

/// The agent runtime's script creates its schema; the script of a directory first
/// creates the history table.
pub proof fn scripts_start_with_their_tables<P>(
    dir: Seq<char>,
    placeholders: Option<Seq<(Seq<char>, Seq<char>)>>,
)
    ensures
        agent_runtime_script::<P>() == ScriptView::<P>::Ensure(
            EnsureView { left: agent_runtime_steps(), phase: EnsurePhaseView::Probe },
        ),
        filesystem_script::<P>(dir, placeholders) == (ScriptView::<P>::History {
            run: EnsureView { left: seq![history_step()], phase: EnsurePhaseView::Probe },
            dir,
            placeholders,
        }),
{
}

/// A script asks for what the part under way asks for, and one that has nothing to
/// do is done.
pub proof fn script_asks_for_what_its_part_asks_for<P>(
    run: EnsureView,
    scan: ScanView<P>,
    applying: RunView<P>,
    dir: Seq<char>,
    placeholders: Option<Seq<(Seq<char>, Seq<char>)>>,
)
    ensures
        script_request(ScriptView::<P>::Nothing) == RequestView::<P>::Done,
        script_request(ScriptView::<P>::Ensure(run)) == ensure_request::<P>(run),
        script_request(ScriptView::<P>::History { run, dir, placeholders }) == ensure_request::<P>(
            run,
        ),
        script_request(ScriptView::Scan { scan, placeholders }) == scan_request(scan),
        script_request(ScriptView::Apply(applying)) == run_request(applying),
{
}

/// The parts of a script follow each other: the history table, the walk through the
/// directory, and the migrations found, in the order of their plan and with the
/// same placeholders.
pub proof fn parts_of_a_script_follow_each_other<P>(
    run: EnsureView,
    scan: ScanView<P>,
    applying: RunView<P>,
    dir: Seq<char>,
    placeholders: Option<Seq<(Seq<char>, Seq<char>)>>,
    reply: ReplyView<P>,
    now: Timestamp,
)
    ensures
        script_next(ScriptView::<P>::Ensure(run), reply, now) == ScriptView::<P>::Ensure(
            ensure_next(run, reply),
        ),
        script_next(ScriptView::<P>::History { run, dir, placeholders }, reply, now) == (
        if ensure_next(run, reply).phase is Done {
            ScriptView::<P>::Scan { scan: ScanView::List { dir }, placeholders }
        } else {
            ScriptView::<P>::History { run: ensure_next(run, reply), dir, placeholders }
        }),
        script_next(ScriptView::Scan { scan, placeholders }, reply, now) == (match scan_next(
            scan,
            reply,
        ) {
            ScanView::Done { found } => ScriptView::Apply(run_start(plan_of(found), placeholders)),
            other => ScriptView::Scan { scan: other, placeholders },
        }),
        script_next(ScriptView::Apply(applying), reply, now) == ScriptView::Apply(
            run_next(applying, reply, now),
        ),
{
}

// -------------------------------------------------------------------- setup

/// A setup first looks at the wallet, where one is configured; where none is, it
/// first fetches the secret.
pub proof fn setup_starts_with_the_wallet<P>(
    config: OciOracleConfigView,
    init: SchemaInitView<P>,
)
    ensures
        setup_start(config, init).config == config,
        config.wallet_path matches Some(path) ==> setup_start(config, init).phase
            == SetupPhaseView::Wallet(init) && setup_request(setup_start(config, init))
            == SetupRequestView::<P>::InspectWallet(path),
        config.wallet_path is None ==> setup_start(config, init).phase == SetupPhaseView::Secret(
            init,
        ) && setup_request(setup_start(config, init)) == SetupRequestView::<P>::FetchSecret(
            config.secret_path,
            config.stage,
        ),
{
}

/// A wallet that is a directory with one of the two files is handed to the client,
/// and then the secret is fetched; any other one ends the setup.
pub proof fn usable_wallet_is_handed_to_the_client<P>(
    config: OciOracleConfigView,
    init: SchemaInitView<P>,
    path: Seq<char>,
    files: WalletFiles,
    now: Timestamp,
)
    requires
        config.wallet_path == Some(path),
    ensures
        ({
            let looked = SetupView { config, phase: SetupPhaseView::Wallet(init) };
            let after = setup_next(looked, SetupReplyView::<P>::Wallet(files), now);
            let handing = SetupView { config, phase: SetupPhaseView::TnsAdmin(init) };
            &&& files.is_dir && (files.has_tnsnames || files.has_sqlnet) ==> after == handing
            &&& !files.is_dir ==> setup_request(after) == SetupRequestView::<P>::Failed(
                "Oracle wallet path '"@ + path + "' is not a directory"@,
            )
            &&& files.is_dir && !files.has_tnsnames && !files.has_sqlnet ==> setup_request(after)
                == SetupRequestView::<P>::Failed(
                "Oracle wallet path '"@ + path + "' is missing tnsnames.ora or sqlnet.ora"@,
            )
            &&& setup_request(handing) == SetupRequestView::<P>::SetTnsAdmin(path)
            &&& setup_next(handing, SetupReplyView::<P>::TnsAdminSet, now) == (SetupView {
                config,
                phase: SetupPhaseView::Secret(init),
            })
        }),
{
}

/// With the secret a connection is opened, as the configured user and to the
/// configured descriptor; a secret that cannot be had ends the setup with the error.
pub proof fn secret_opens_a_connection<P>(
    config: OciOracleConfigView,
    init: SchemaInitView<P>,
    password: Seq<char>,
    error: Seq<char>,
    now: Timestamp,
)
    ensures
        ({
            let fetching = SetupView { config, phase: SetupPhaseView::Secret(init) };
            let params = OracleConnectParamsView {
                username: config.username,
                password,
                connect_descriptor: config.connect_descriptor,
            };
            let connecting = SetupView { config, phase: SetupPhaseView::Connect(init, params) };
            &&& setup_request(fetching) == SetupRequestView::<P>::FetchSecret(
                config.secret_path,
                config.stage,
            )
            &&& setup_next(fetching, SetupReplyView::<P>::Secret(Ok(password)), now) == connecting
            &&& setup_request(connecting) == SetupRequestView::<P>::Connect(params)
            &&& setup_request(setup_next(fetching, SetupReplyView::<P>::Secret(Err(error)), now))
                == SetupRequestView::<P>::Failed(error)
        }),
{
}

/// Over an open connection the schema is set up, by the embedding program or by the
/// script; a connection that cannot be opened ends the setup with the error.
pub proof fn connection_is_used_for_the_schema<P>(
    config: OciOracleConfigView,
    params: OracleConnectParamsView,
    script: ScriptView<P>,
    init: SchemaInitView<P>,
    err: OracleErrorView,
    now: Timestamp,
)
    ensures
        ({
            let connected = SetupReplyView::<P>::Connected(Ok(()));
            let by_caller = SetupView {
                config,
                phase: SetupPhaseView::Connect(SchemaInitView::<P>::Caller, params),
            };
            let by_script = SetupView {
                config,
                phase: SetupPhaseView::Connect(SchemaInitView::Script(script), params),
            };
            let refused = setup_next(
                SetupView { config, phase: SetupPhaseView::Connect(init, params) },
                SetupReplyView::<P>::Connected(Err(err)),
                now,
            );
            &&& setup_next(by_caller, connected, now) == (SetupView {
                config,
                phase: SetupPhaseView::<P>::Caller(params),
            })
            &&& setup_next(by_script, connected, now).phase == (match script_request(script) {
                RequestView::Done => SetupPhaseView::<P>::Pool(params),
                RequestView::Failed(e) => SetupPhaseView::<P>::Failed(e),
                _ => SetupPhaseView::Script(script, params),
            })
            &&& setup_request(refused) == SetupRequestView::<P>::Failed(oracle_error_text(err))
        }),
{
}

/// Once the schema is set up the pool is built; a schema that cannot be set up ends
/// the setup with the error.
pub proof fn pool_follows_the_schema<P>(
    config: OciOracleConfigView,
    params: OracleConnectParamsView,
    script: ScriptView<P>,
    reply: ReplyView<P>,
    error: Seq<char>,
    now: Timestamp,
)
    ensures
        ({
            let by_caller = SetupView { config, phase: SetupPhaseView::<P>::Caller(params) };
            let by_script = SetupView { config, phase: SetupPhaseView::Script(script, params) };
            let pool = SetupView { config, phase: SetupPhaseView::<P>::Pool(params) };
            let stepped = script_next(script, reply, now);
            &&& setup_request(by_caller) == SetupRequestView::<P>::InitSchema
            &&& setup_next(by_caller, SetupReplyView::<P>::SchemaSet(Ok(())), now) == pool
            &&& setup_request(
                setup_next(by_caller, SetupReplyView::<P>::SchemaSet(Err(error)), now),
            ) == SetupRequestView::<P>::Failed(error)
            &&& setup_request(by_script) == SetupRequestView::Script(script_request(script))
            &&& setup_next(by_script, SetupReplyView::Script(reply), now) == (SetupView {
                config,
                phase: match script_request(stepped) {
                    RequestView::Done => SetupPhaseView::<P>::Pool(params),
                    RequestView::Failed(e) => SetupPhaseView::<P>::Failed(e),
                    _ => SetupPhaseView::Script(stepped, params),
                },
            })
        }),
{
}

/// The pool is built with the parameters of the first connection, of the configured
/// size and with a timeout where one is configured. With it the store is there; if
/// it cannot be built, that is reported.
pub proof fn store_is_there_with_its_pool<P>(
    config: OciOracleConfigView,
    params: OracleConnectParamsView,
    error: Seq<char>,
    now: Timestamp,
)
    ensures
        ({
            let pool = SetupView { config, phase: SetupPhaseView::<P>::Pool(params) };
            let ready = SetupView { config, phase: SetupPhaseView::<P>::Ready(params) };
            &&& setup_request(pool) == SetupRequestView::<P>::BuildPool(
                params,
                PoolSettings {
                    max_size: config.pool_max,
                    wait_timeout_secs: if config.pool_timeout_secs > 0 {
                        Some(config.pool_timeout_secs)
                    } else {
                        None
                    },
                },
            )
            &&& setup_next(pool, SetupReplyView::<P>::PoolBuilt(Ok(())), now) == ready
            &&& setup_request(ready) == SetupRequestView::<P>::Ready
            &&& setup_request(setup_next(pool, SetupReplyView::<P>::PoolBuilt(Err(error)), now))
                == SetupRequestView::<P>::Failed("Failed to build Oracle pool: "@ + error)
        }),
{
}

/// A reply answers a request exactly if it is of the sort that was asked for.
pub proof fn replies_answer_what_setup_asked<P>(
    reply: SetupReplyView<P>,
    request: RequestView<P>,
    params: OracleConnectParamsView,
    settings: PoolSettings,
    path: Seq<char>,
    stage: Seq<char>,
)
    ensures
        setup_answers(reply, SetupRequestView::InspectWallet(path)) <==> reply is Wallet,
        setup_answers(reply, SetupRequestView::SetTnsAdmin(path)) <==> reply is TnsAdminSet,
        setup_answers(reply, SetupRequestView::FetchSecret(path, stage)) <==> reply is Secret,
        setup_answers(reply, SetupRequestView::Connect(params)) <==> reply is Connected,
        setup_answers(reply, SetupRequestView::InitSchema) <==> reply is SchemaSet,
        setup_answers(reply, SetupRequestView::Script(request)) <==> (
        reply matches SetupReplyView::Script(inner) && answers(inner, request)),
        setup_answers(reply, SetupRequestView::BuildPool(params, settings)) <==> reply
            is PoolBuilt,
        !setup_answers(reply, SetupRequestView::Ready),
        !setup_answers(reply, SetupRequestView::Failed(path)),
{
}

// -------------------------------------------------------------------- views

/// The views of requests, of replies and of who sets up the schema show what they
/// hold.
pub proof fn setup_is_seen_whole<'a, P>(
    path: &'a str,
    stage: &'a str,
    params: &'a OracleConnectParams,
    settings: PoolSettings,
    request: Request<'a, P>,
    files: WalletFiles,
    text: String,
    err: OracleError,
    reply: Reply<P>,
    script: SchemaScript<P>,
)
    ensures
        SetupRequest::<'a, P>::InspectWallet(path)@ == SetupRequestView::<P>::InspectWallet(path@),
        SetupRequest::<'a, P>::SetTnsAdmin(path)@ == SetupRequestView::<P>::SetTnsAdmin(path@),
        SetupRequest::<'a, P>::FetchSecret(path, stage)@ == SetupRequestView::<P>::FetchSecret(
            path@,
            stage@,
        ),
        SetupRequest::<'a, P>::Connect(params)@ == SetupRequestView::<P>::Connect(params@),
        SetupRequest::<'a, P>::InitSchema@ == SetupRequestView::<P>::InitSchema,
        SetupRequest::<'a, P>::Script(request)@ == SetupRequestView::<P>::Script(request@),
        SetupRequest::<'a, P>::BuildPool(params, settings)@ == SetupRequestView::<P>::BuildPool(
            params@,
            settings,
        ),
        SetupRequest::<'a, P>::Ready@ == SetupRequestView::<P>::Ready,
        SetupRequest::<'a, P>::Failed(path)@ == SetupRequestView::<P>::Failed(path@),
        SetupReply::<P>::Wallet(files)@ == SetupReplyView::<P>::Wallet(files),
        SetupReply::<P>::TnsAdminSet@ == SetupReplyView::<P>::TnsAdminSet,
        SetupReply::<P>::Secret(Ok(text))@ == SetupReplyView::<P>::Secret(Ok(text@)),
        SetupReply::<P>::Secret(Err(text))@ == SetupReplyView::<P>::Secret(Err(text@)),
        SetupReply::<P>::Connected(Ok(()))@ == SetupReplyView::<P>::Connected(Ok(())),
        SetupReply::<P>::Connected(Err(err))@ == SetupReplyView::<P>::Connected(Err(err@)),
        SetupReply::<P>::SchemaSet(Ok(()))@ == SetupReplyView::<P>::SchemaSet(Ok(())),
        SetupReply::<P>::SchemaSet(Err(text))@ == SetupReplyView::<P>::SchemaSet(Err(text@)),
        SetupReply::<P>::Script(reply)@ == SetupReplyView::<P>::Script(reply@),
        SetupReply::<P>::PoolBuilt(Ok(()))@ == SetupReplyView::<P>::PoolBuilt(Ok(())),
        SetupReply::<P>::PoolBuilt(Err(text))@ == SetupReplyView::<P>::PoolBuilt(Err(text@)),
        SchemaInit::<P>::Caller@ == SchemaInitView::<P>::Caller,
        SchemaInit::<P>::Script(script)@ == SchemaInitView::<P>::Script(script@),
{
}

} // verus!
