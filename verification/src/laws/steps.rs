//! Laws of the runs that the embedding program carries out step by step: what they
//! ask for and where a reply takes them depends on where they stand alone.

use vstd::prelude::*;

use crate::apply::{run_next, run_request, run_start, MigrationRun};
use crate::config::OciOracleConfig;
use crate::db::{OracleConnectParams, OracleConnectParamsView, Timestamp};
use crate::laws::migration_text::value_takes_the_place_of_its_key;
use crate::migrations::{migration_views, plan_of, MigrationFile};
use crate::protocol::{Reply, Request};
use crate::scan::{scan_next, scan_request, DirectoryScan, ScanView};
use crate::schema::{
    agent_runtime_steps, ensure_next, ensure_request, ensure_start, history_step, EnsureRun,
    EnsureStep,
};
use crate::script::{script_next, script_request, SchemaScript, ScriptView};
use crate::secret::SecretFetcher;
use crate::setup::{
    setup_next, setup_request, setup_start, SchemaInitView, SetupPhaseView, SetupReply,
    SetupRequest, StoreSetup,
};
use crate::sql_text::{placeholders_view, Placeholders};
use crate::store::{
    execute_next, execute_request, refresh_next, ExecuteEvent, ExecuteRequest, ExecuteRun,
    ExecuteView, OciOracleStore, RefreshEvent, RefreshRun, RefreshView,
};

verus! {

/// A run that creates objects.
pub proof fn creating_run_goes_step_by_step<'a, P>(
    steps: Vec<EnsureStep>,
    fresh: EnsureRun,
    run: EnsureRun,
    done: bool,
    request: Request<'a, P>,
    reply: Reply<P>,
    after: EnsureRun,
)
    requires
        call_ensures(EnsureRun::new, (steps,), fresh),
        call_ensures(EnsureRun::is_done, (&run,), done),
        call_ensures(EnsureRun::request::<P>, (&run,), request),
        call_ensures(EnsureRun::step::<P>, (run, reply), after),
    ensures
        fresh@ == ensure_start(Seq::new(steps@.len(), |i: int| steps@[i]@)),
        done <==> run@.phase is Done,
        request@ == ensure_request::<P>(run@),
        after@ == ensure_next(run@, reply@),
{
    assert(crate::schema::step_views(steps@) =~= Seq::new(steps@.len(), |i: int| steps@[i]@));
}

/// A walk through a directory.
pub proof fn walk_goes_step_by_step<'a, P>(
    dir: String,
    fresh: DirectoryScan<P>,
    scan: DirectoryScan<P>,
    done: bool,
    request: Request<'a, P>,
    reply: Reply<P>,
    after: DirectoryScan<P>,
    plan: Vec<MigrationFile<P>>,
)
    requires
        call_ensures(DirectoryScan::<P>::new, (dir,), fresh),
        call_ensures(DirectoryScan::<P>::is_done, (&scan,), done),
        call_ensures(DirectoryScan::<P>::request, (&scan,), request),
        call_ensures(DirectoryScan::<P>::step, (scan, reply), after),
        call_ensures(DirectoryScan::<P>::into_plan, (scan,), plan),
    ensures
        fresh@ == (ScanView::<P>::List { dir: dir@ }),
        done <==> scan@ is Done,
        request@ == scan_request(scan@),
        after@ == scan_next(scan@, reply@),
        scan@ matches ScanView::Done { found } ==> migration_views(plan@) == plan_of(found),
{
}

/// A run of migrations.
pub proof fn migrations_go_step_by_step<'a, P>(
    files: Vec<MigrationFile<P>>,
    placeholders: Option<Placeholders>,
    fresh: MigrationRun<P>,
    run: MigrationRun<P>,
    request: Request<'a, P>,
    reply: Reply<P>,
    now: Timestamp,
    after: MigrationRun<P>,
)
    requires
        call_ensures(MigrationRun::<P>::new, (files, placeholders), fresh),
        call_ensures(MigrationRun::<P>::request, (&run,), request),
        call_ensures(MigrationRun::<P>::step_at, (run, reply, now), after),
    ensures
        fresh@ == run_start(migration_views(files@), placeholders_view(placeholders)),
        request@ == run_request(run@),
        after@ == run_next(run@, reply@, now),
{
}

/// The scripts that set up a database: nothing, the agent runtime's schema, or the
/// migrations of a directory with or without a look for the history table.
pub proof fn scripts_go_step_by_step<'a, P>(
    dir: String,
    placeholders: Option<Placeholders>,
    nothing: SchemaScript<P>,
    agent_runtime: SchemaScript<P>,
    filesystem: SchemaScript<P>,
    migrations: SchemaScript<P>,
    script: SchemaScript<P>,
    request: Request<'a, P>,
    reply: Reply<P>,
    now: Timestamp,
    after: SchemaScript<P>,
)
    requires
        call_ensures(SchemaScript::<P>::nothing, (), nothing),
        call_ensures(SchemaScript::<P>::agent_runtime, (), agent_runtime),
        call_ensures(SchemaScript::<P>::filesystem, (dir, placeholders), filesystem),
        call_ensures(SchemaScript::<P>::apply_migrations_from_dir, (dir, placeholders), migrations),
        call_ensures(SchemaScript::<P>::request, (&script,), request),
        call_ensures(SchemaScript::<P>::step_at, (script, reply, now), after),
    ensures
        nothing@ == ScriptView::<P>::Nothing,
        agent_runtime@ == ScriptView::<P>::Ensure(ensure_start(agent_runtime_steps())),
        filesystem@ == (ScriptView::<P>::History {
            run: ensure_start(seq![history_step()]),
            dir: dir@,
            placeholders: placeholders_view(placeholders),
        }),
        migrations@ == (ScriptView::<P>::Scan {
            scan: ScanView::List { dir: dir@ },
            placeholders: placeholders_view(placeholders),
        }),
        request@ == script_request(script@),
        after@ == script_next(script@, reply@, now),
{
}

/// The setup of a store: by the embedding program, by nothing, with the agent
/// runtime's schema or with the migrations of a directory.
pub proof fn setups_start_with_their_schema<P>(
    config: OciOracleConfig,
    dir: String,
    placeholders: Option<Placeholders>,
    by_caller: StoreSetup<P>,
    bare: StoreSetup<P>,
    agent_runtime: StoreSetup<P>,
    filesystem: StoreSetup<P>,
)
    requires
        call_ensures(OciOracleStore::new_with_schema::<P>, (config,), by_caller),
        call_ensures(OciOracleStore::new::<P>, (config,), bare),
        call_ensures(OciOracleStore::new_with_agent_runtime_schema::<P>, (config,), agent_runtime),
        call_ensures(
            OciOracleStore::new_with_filesystem_migrations::<P>,
            (config, dir, placeholders),
            filesystem,
        ),
    ensures
        by_caller@ == setup_start(config@, SchemaInitView::<P>::Caller),
        bare@ == setup_start(config@, SchemaInitView::Script(ScriptView::<P>::Nothing)),
        agent_runtime@ == setup_start(
            config@,
            SchemaInitView::Script(ScriptView::<P>::Ensure(ensure_start(agent_runtime_steps()))),
        ),
        filesystem@ == setup_start(
            config@,
            SchemaInitView::Script(
                ScriptView::<P>::History {
                    run: ensure_start(seq![history_step()]),
                    dir: dir@,
                    placeholders: placeholders_view(placeholders),
                },
            ),
        ),
{
}

/// The setup of a store ends in a store exactly if it is ready; the store has the
/// configuration and the parameters of the setup.
pub proof fn setup_goes_step_by_step<'a, P>(
    setup: StoreSetup<P>,
    request: SetupRequest<'a, P>,
    reply: SetupReply<P>,
    now: Timestamp,
    after: StoreSetup<P>,
    store: Option<OciOracleStore>,
)
    requires
        call_ensures(StoreSetup::<P>::request, (&setup,), request),
        call_ensures(StoreSetup::<P>::step_at, (setup, reply, now), after),
        call_ensures(StoreSetup::<P>::into_store, (setup,), store),
    ensures
        request@ == setup_request(setup@),
        after@ == setup_next(setup@, reply@, now),
        store is Some <==> setup@.phase is Ready,
        setup@.phase matches SetupPhaseView::Ready(params) ==> (store matches Some(s) && s@.config
            == setup@.config && s@.manager_params == params && s@.pool_params == params
            && !s@.refresh_in_progress && s@.last_refresh_ts_ms == 0),
{
}

/// The use of a connection starts by asking for one; a store tells its configuration
/// and its parameters.
pub proof fn store_tells_what_it_has<'a>(
    store: OciOracleStore,
    config: &'a OciOracleConfig,
    manager: &'a OracleConnectParams,
    pool: &'a OracleConnectParams,
    start: ExecuteRun,
    run: ExecuteRun,
    request: ExecuteRequest<'a>,
)
    requires
        call_ensures(OciOracleStore::config, (&store,), config),
        call_ensures(OciOracleStore::manager_params, (&store,), manager),
        call_ensures(OciOracleStore::pool_params, (&store,), pool),
        call_ensures(OciOracleStore::execute, (&store,), start),
        call_ensures(ExecuteRun::request, (&run, &store), request),
    ensures
        config@ == store@.config,
        manager@ == store@.manager_params,
        pool@ == store@.pool_params,
        start@ == ExecuteView::Acquire,
        request@ == execute_request(run@, store@),
{
}

/// A refresh starts a minute or more after the last one, as long as none is in
/// progress, and is then noted; or else there is none, and the store stays as it is.
pub proof fn store_refreshes_a_minute_after_the_last_time(now_ms: u64, run: RefreshRun)
    ensures
        forall|store: &mut OciOracleStore|
            #[trigger] call_ensures(
                OciOracleStore::maybe_refresh_password,
                (store, now_ms),
                run,
            ) ==> {
                let due = !store@.refresh_in_progress && now_ms >= store@.last_refresh_ts_ms
                    + 60_000;
                &&& due ==> run is FetchSecret
                &&& !due ==> (run matches RefreshRun::Finished(Ok(_)))
                &&& final(store)@.refresh_in_progress == (due || store@.refresh_in_progress)
                &&& final(store)@.config == store@.config
                &&& final(store)@.manager_params == store@.manager_params
                &&& final(store)@.pool_params == store@.pool_params
                &&& final(store)@.last_refresh_ts_ms == store@.last_refresh_ts_ms
            },
{
}

/// A refresh and the use of a connection go on as their state says, and the store
/// with them.
pub proof fn store_goes_along_with_its_runs(
    refresh: RefreshRun,
    refresh_event: RefreshEvent,
    refreshed: RefreshRun,
    run: ExecuteRun,
    event: ExecuteEvent,
    after: ExecuteRun,
    now_ms: u64,
)
    ensures
        forall|store: &mut OciOracleStore|
            #[trigger] call_ensures(
                RefreshRun::step,
                (refresh, store, refresh_event, now_ms),
                refreshed,
            ) ==> (refreshed@, final(store)@) == refresh_next(
                refresh@,
                store@,
                refresh_event@,
                now_ms,
            ),
        forall|store: &mut OciOracleStore|
            #[trigger] call_ensures(ExecuteRun::step, (run, store, event, now_ms), after) ==> (
            after@,
            final(store)@,
        ) == execute_next(run@, store@, event@, now_ms),
{
}

/// A placeholder that is inserted has its value from then on, in the place where its
/// key stands first, or else behind all others.
pub proof fn inserted_placeholder_has_its_value(key: String, value: String)
    ensures
        forall|placeholders: &mut Placeholders|
            #[trigger] call_ensures(Placeholders::insert, (placeholders, key, value), ()) ==> {
                let before = placeholders@;
                let after = final(placeholders)@;
                &&& (forall|i: int| 0 <= i < before.len() ==> (#[trigger] before[i]).0 != key@)
                    ==> after == before + seq![(key@, value@)]
                &&& forall|i: int|
                    0 <= i < before.len() && (#[trigger] before[i]).0 == key@ && (forall|j: int|
                        0 <= j < i ==> (#[trigger] before[j]).0 != key@) ==> after
                        == before.update(i, (key@, value@))
            },
{
    assert forall|placeholders: &mut Placeholders|
        #[trigger] call_ensures(Placeholders::insert, (placeholders, key, value), ()) implies {
        let before = placeholders@;
        let after = final(placeholders)@;
        &&& (forall|i: int| 0 <= i < before.len() ==> (#[trigger] before[i]).0 != key@) ==> after
            == before + seq![(key@, value@)]
        &&& forall|i: int|
            0 <= i < before.len() && (#[trigger] before[i]).0 == key@ && (forall|j: int|
                0 <= j < i ==> (#[trigger] before[j]).0 != key@) ==> after == before.update(
                i,
                (key@, value@),
            )
    } by {
        let before = placeholders@;
        let after = final(placeholders)@;
        if forall|i: int| 0 <= i < before.len() ==> (#[trigger] before[i]).0 != key@ {
            value_takes_the_place_of_its_key(before, key@, value@, value@, Seq::empty());
        }
        assert forall|i: int|
            0 <= i < before.len() && (#[trigger] before[i]).0 == key@ && (forall|j: int|
                0 <= j < i ==> (#[trigger] before[j]).0 != key@) implies after == before.update(
            i,
            (key@, value@),
        ) by {
            let front = before.take(i);
            let back = before.skip(i + 1);
            assert(before =~= front + seq![(key@, before[i].1)] + back);
            assert forall|j: int| 0 <= j < front.len() implies (#[trigger] front[j]).0 != key@ by {
                assert(front[j] == before[j]);
            }
            value_takes_the_place_of_its_key(front, key@, before[i].1, value@, back);
            assert(before.update(i, (key@, value@)) =~= front + seq![(key@, value@)] + back);
        }
    }
}

/// A step by the clock is a step at some moment that lies at or after 1970.
pub proof fn clock_gives_a_moment<P>(
    run: MigrationRun<P>,
    script: SchemaScript<P>,
    setup: StoreSetup<P>,
    reply: Reply<P>,
    setup_reply: SetupReply<P>,
    run_after: MigrationRun<P>,
    script_after: SchemaScript<P>,
    setup_after: StoreSetup<P>,
)
    requires
        call_ensures(MigrationRun::<P>::step, (run, reply), run_after),
        call_ensures(SchemaScript::<P>::step, (script, reply), script_after),
        call_ensures(StoreSetup::<P>::step, (setup, setup_reply), setup_after),
    ensures
        exists|now: Timestamp|
            now.secs >= 0 && now.nanos < 1_000_000_000 && run_after@ == #[trigger] run_next(
                run@,
                reply@,
                now,
            ),
        exists|now: Timestamp|
            now.secs >= 0 && now.nanos < 1_000_000_000 && script_after@ == #[trigger] script_next(
                script@,
                reply@,
                now,
            ),
        exists|now: Timestamp|
            now.secs >= 0 && now.nanos < 1_000_000_000 && setup_after@ == #[trigger] setup_next(
                setup@,
                setup_reply@,
                now,
            ),
{
}

/// The secret is fetched with the configured path and stage. With it a connection is
/// opened in the course of a setup, and without it the setup ends with the error.
pub proof fn setup_fetches_the_configured_secret<P, F: SecretFetcher>(
    setup: StoreSetup<P>,
    fetcher: F,
    secret: Result<String, String>,
    after: StoreSetup<P>,
)
    requires
        setup@.phase is Secret,
        call_ensures(StoreSetup::<P>::fetch_secret::<F>, (setup, &fetcher), after),
        forall|path: &str, stage: &str, r: Result<String, String>|
            path@ == setup@.config.secret_path && stage@ == setup@.config.stage && #[trigger]
                call_ensures(F::fetch_latest_secret, (&fetcher, path, stage), r) ==> r == secret,
    ensures
        after@.config == setup@.config,
        setup@.phase matches SetupPhaseView::Secret(init) ==> after@.phase == (match secret {
            Ok(password) => SetupPhaseView::Connect(
                init,
                OracleConnectParamsView {
                    username: setup@.config.username,
                    password: password@,
                    connect_descriptor: setup@.config.connect_descriptor,
                },
            ),
            Err(e) => SetupPhaseView::Failed(e@),
        }),
{
}

/// In the course of a refresh, too, the secret is fetched with the configured path
/// and stage. With it a new pool is built, and without it a connection is asked for
/// once more.
pub proof fn refresh_fetches_the_configured_secret<F: SecretFetcher>(
    run: ExecuteRun,
    fetcher: F,
    now_ms: u64,
    after: ExecuteRun,
)
    requires
        run@ == ExecuteView::Refresh(RefreshView::FetchSecret),
    ensures
        forall|store: &mut OciOracleStore|
            #[trigger] call_ensures(
                ExecuteRun::fetch_secret::<F>,
                (run, store, &fetcher, now_ms),
                after,
            ) ==> exists|path: &str, stage: &str, secret: Result<String, String>|
                {
                    &&& path@ == store@.config.secret_path
                    &&& stage@ == store@.config.stage
                    &&& #[trigger] call_ensures(
                        F::fetch_latest_secret,
                        (&fetcher, path, stage),
                        secret,
                    )
                    &&& final(store)@.config == store@.config
                    &&& final(store)@.pool_params == store@.pool_params
                    &&& final(store)@.last_refresh_ts_ms == store@.last_refresh_ts_ms
                    &&& after@ == (match secret {
                        Ok(password) => ExecuteView::Refresh(
                            RefreshView::BuildPool(
                                OracleConnectParamsView {
                                    username: store@.config.username,
                                    password: password@,
                                    connect_descriptor: store@.config.connect_descriptor,
                                },
                            ),
                        ),
                        Err(_) => ExecuteView::AcquireAgain,
                    })
                },
{
}

} // verus!
