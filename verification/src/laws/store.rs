//! Laws of the store: when the password is refreshed, and how connections are had.

use vstd::prelude::*;

use crate::config::{OciOracleConfigView, PoolSettings};
use crate::db::{OracleConnectParams, OracleConnectParamsView};
use crate::store::{
    execute_awaits, execute_next, execute_request, new_store, refresh_awaits, refresh_next,
    refresh_start, ExecuteEvent, ExecuteEventView, ExecuteRequest, ExecuteRequestView, ExecuteRun,
    ExecuteView, RefreshEvent, RefreshEventView, RefreshRun, RefreshView, StoreView,
};

verus! {

// ------------------------------------------------------------------ refresh

/// A new store uses the parameters that it was set up with, and its password counts
/// as never refreshed.
pub proof fn new_store_was_never_refreshed(
    config: OciOracleConfigView,
    params: OracleConnectParamsView,
)
    ensures
        new_store(config, params).config == config,
        new_store(config, params).manager_params == params,
        new_store(config, params).pool_params == params,
        !new_store(config, params).refresh_in_progress,
        new_store(config, params).last_refresh_ts_ms == 0,
{
}

/// A refresh starts at every moment that lies a minute or more after the last one,
/// as long as none is in progress, and at no other moment.
pub proof fn refresh_starts_a_minute_after_the_last_one(store: StoreView, now_ms: u64)
    ensures
        refresh_start(store, now_ms).0 == RefreshView::FetchSecret <==> !store.refresh_in_progress
            && now_ms >= store.last_refresh_ts_ms + 60_000,
{
}

/// A refresh that starts is noted as in progress and changes nothing else; one that
/// does not start is over without error, and changes nothing at all.
pub proof fn start_of_a_refresh_is_noted(store: StoreView, now_ms: u64)
    ensures
        ({
            let (run, after) = refresh_start(store, now_ms);
            &&& run != RefreshView::FetchSecret ==> run == RefreshView::Finished(Ok(())) && after
                == store
            &&& run == RefreshView::FetchSecret ==> after.refresh_in_progress
            &&& after.config == store.config
            &&& after.manager_params == store.manager_params
            &&& after.pool_params == store.pool_params
            &&& after.last_refresh_ts_ms == store.last_refresh_ts_ms
        }),
{
}

/// Waiting longer never keeps a refresh from starting.
pub proof fn waiting_longer_does_no_harm(store: StoreView, earlier: u64, later: u64)
    requires
        earlier <= later,
        refresh_start(store, earlier).0 == RefreshView::FetchSecret,
    ensures
        refresh_start(store, later).0 == RefreshView::FetchSecret,
{
}

/// The password that was fetched goes, with the configured user name and descriptor,
/// into a new pool; one that cannot be fetched ends the refresh with the error.
pub proof fn fetched_password_goes_into_a_new_pool(
    store: StoreView,
    password: Seq<char>,
    error: Seq<char>,
    now_ms: u64,
)
    ensures
        refresh_next(
            RefreshView::FetchSecret,
            store,
            RefreshEventView::Secret(Ok(password)),
            now_ms,
        ) == (
            RefreshView::BuildPool(
                OracleConnectParamsView {
                    username: store.config.username,
                    password,
                    connect_descriptor: store.config.connect_descriptor,
                },
            ),
            store,
        ),
        ({
            let (run, after) = refresh_next(
                RefreshView::FetchSecret,
                store,
                RefreshEventView::Secret(Err(error)),
                now_ms,
            );
            &&& run == RefreshView::Finished(Err(error))
            &&& !after.refresh_in_progress
            &&& after.config == store.config
            &&& after.manager_params == store.manager_params
            &&& after.pool_params == store.pool_params
            &&& after.last_refresh_ts_ms == store.last_refresh_ts_ms
        }),
{
}

/// A pool that was built is the one in use, and the time is noted; one that cannot
/// be built leaves the old one in use, and the time of the last refresh as it was.
pub proof fn new_pool_takes_the_place_of_the_old_one(
    store: StoreView,
    params: OracleConnectParamsView,
    error: Seq<char>,
    now_ms: u64,
)
    ensures
        ({
            let (run, after) = refresh_next(
                RefreshView::BuildPool(params),
                store,
                RefreshEventView::PoolBuilt(Ok(())),
                now_ms,
            );
            &&& run == RefreshView::Finished(Ok(()))
            &&& !after.refresh_in_progress
            &&& after.config == store.config
            &&& after.manager_params == store.manager_params
            &&& after.pool_params == params
            &&& after.last_refresh_ts_ms == now_ms
        }),
        ({
            let (run, after) = refresh_next(
                RefreshView::BuildPool(params),
                store,
                RefreshEventView::PoolBuilt(Err(error)),
                now_ms,
            );
            &&& run == RefreshView::Finished(Err("Failed to rebuild Oracle pool: "@ + error))
            &&& !after.refresh_in_progress
            &&& after.config == store.config
            &&& after.manager_params == store.manager_params
            &&& after.pool_params == store.pool_params
            &&& after.last_refresh_ts_ms == store.last_refresh_ts_ms
        }),
{
}

// ------------------------------------------------------------------ execute

/// A connection that can be had is used, at the first time of asking or at the
/// second, and the store stays as it is.
pub proof fn connection_that_can_be_had_is_used(store: StoreView, now_ms: u64)
    ensures
        execute_next(
            ExecuteView::Acquire,
            store,
            ExecuteEventView::Acquired(Ok(())),
            now_ms,
        ) == (ExecuteView::Use, store),
        execute_next(
            ExecuteView::AcquireAgain,
            store,
            ExecuteEventView::Acquired(Ok(())),
            now_ms,
        ) == (ExecuteView::Use, store),
{
}

/// Where no connection can be had, the secret is fetched if a refresh is due and
/// none is in progress; or else a connection is asked for once more.
pub proof fn refused_connection_leads_to_a_refresh(
    store: StoreView,
    error: Seq<char>,
    now_ms: u64,
)
    ensures
        ({
            let (run, after) = execute_next(
                ExecuteView::Acquire,
                store,
                ExecuteEventView::Acquired(Err(error)),
                now_ms,
            );
            let due = !store.refresh_in_progress && now_ms >= store.last_refresh_ts_ms + 60_000;
            &&& due ==> execute_request(run, after) == ExecuteRequestView::FetchSecret(
                store.config.secret_path,
                store.config.stage,
            ) && after.refresh_in_progress
            &&& !due ==> run == ExecuteView::AcquireAgain && after == store
        }),
{
}

/// A refresh in the use of a connection goes as any refresh, and once it is over,
/// with an error or without, a connection is asked for once more.
pub proof fn connection_is_asked_for_after_the_refresh(
    refresh: RefreshView,
    store: StoreView,
    event: RefreshEventView,
    now_ms: u64,
)
    ensures
        ({
            let (next, after) = refresh_next(refresh, store, event, now_ms);
            let (run, kept) = execute_next(
                ExecuteView::Refresh(refresh),
                store,
                ExecuteEventView::Refresh(event),
                now_ms,
            );
            &&& kept == after
            &&& next is Finished ==> run == ExecuteView::AcquireAgain
            &&& !(next is Finished) ==> run == ExecuteView::Refresh(next)
        }),
{
}

/// A second refusal is final, and reported.
pub proof fn second_refusal_is_reported(store: StoreView, error: Seq<char>, now_ms: u64)
    ensures
        execute_next(
            ExecuteView::AcquireAgain,
            store,
            ExecuteEventView::Acquired(Err(error)),
            now_ms,
        ) == (
            ExecuteView::Failed("Failed to get Oracle connection after refresh: "@ + error),
            store,
        ),
{
}

/// What is asked for: a connection at first and after a refresh, the configured
/// secret for the configured stage, and a pool with the refreshed parameters, the
/// configured size and a timeout where one is configured.
pub proof fn use_of_a_connection_asks_for_what_is_configured(
    store: StoreView,
    params: OracleConnectParamsView,
    error: Seq<char>,
)
    ensures
        execute_request(ExecuteView::Acquire, store) == ExecuteRequestView::Acquire,
        execute_request(ExecuteView::AcquireAgain, store) == ExecuteRequestView::Acquire,
        execute_request(ExecuteView::Refresh(RefreshView::FetchSecret), store)
            == ExecuteRequestView::FetchSecret(store.config.secret_path, store.config.stage),
        execute_request(ExecuteView::Refresh(RefreshView::BuildPool(params)), store)
            == ExecuteRequestView::BuildPool(
            params,
            PoolSettings {
                max_size: store.config.pool_max,
                wait_timeout_secs: if store.config.pool_timeout_secs > 0 {
                    Some(store.config.pool_timeout_secs)
                } else {
                    None
                },
            },
        ),
        execute_request(ExecuteView::Use, store) == ExecuteRequestView::Use,
        execute_request(ExecuteView::Failed(error), store) == ExecuteRequestView::Failed(error),
{
}

/// Each step waits for what it asked for.
pub proof fn each_step_waits_for_what_it_asked_for(
    event: ExecuteEventView,
    refresh_event: RefreshEventView,
    params: OracleConnectParamsView,
    outcome: Result<(), Seq<char>>,
)
    ensures
        refresh_awaits(RefreshView::FetchSecret, refresh_event) <==> refresh_event is Secret,
        refresh_awaits(RefreshView::BuildPool(params), refresh_event) <==> refresh_event
            is PoolBuilt,
        !refresh_awaits(RefreshView::Finished(outcome), refresh_event),
        execute_awaits(ExecuteView::Acquire, event) <==> event is Acquired,
        execute_awaits(ExecuteView::AcquireAgain, event) <==> event is Acquired,
        execute_awaits(ExecuteView::Refresh(RefreshView::FetchSecret), event) <==> (
        event matches ExecuteEventView::Refresh(e) && e is Secret),
        execute_awaits(ExecuteView::Refresh(RefreshView::BuildPool(params)), event) <==> (
        event matches ExecuteEventView::Refresh(e) && e is PoolBuilt),
        !execute_awaits(ExecuteView::Use, event),
{
}

// -------------------------------------------------------------------- views

/// The views of a refresh, of the use of a connection and of what happens in their
/// course show what they hold.
pub proof fn runs_and_events_are_seen_whole<'a>(
    params: OracleConnectParams,
    text: String,
    refresh: RefreshRun,
    event: RefreshEvent,
    built: &'a OracleConnectParams,
    settings: PoolSettings,
    path: &'a str,
    stage: &'a str,
)
    ensures
        RefreshRun::FetchSecret@ == RefreshView::FetchSecret,
        RefreshRun::BuildPool(params)@ == RefreshView::BuildPool(params@),
        RefreshRun::Finished(Ok(()))@ == RefreshView::Finished(Ok(())),
        RefreshRun::Finished(Err(text))@ == RefreshView::Finished(Err(text@)),
        RefreshEvent::Secret(Ok(text))@ == RefreshEventView::Secret(Ok(text@)),
        RefreshEvent::Secret(Err(text))@ == RefreshEventView::Secret(Err(text@)),
        RefreshEvent::PoolBuilt(Ok(()))@ == RefreshEventView::PoolBuilt(Ok(())),
        RefreshEvent::PoolBuilt(Err(text))@ == RefreshEventView::PoolBuilt(Err(text@)),
        ExecuteRun::Acquire@ == ExecuteView::Acquire,
        ExecuteRun::Refresh(refresh)@ == ExecuteView::Refresh(refresh@),
        ExecuteRun::AcquireAgain@ == ExecuteView::AcquireAgain,
        ExecuteRun::Use@ == ExecuteView::Use,
        ExecuteRun::Failed(text)@ == ExecuteView::Failed(text@),
        ExecuteEvent::Acquired(Ok(()))@ == ExecuteEventView::Acquired(Ok(())),
        ExecuteEvent::Acquired(Err(text))@ == ExecuteEventView::Acquired(Err(text@)),
        ExecuteEvent::Refresh(event)@ == ExecuteEventView::Refresh(event@),
        ExecuteRequest::<'a>::Acquire@ == ExecuteRequestView::Acquire,
        ExecuteRequest::<'a>::FetchSecret(path, stage)@ == ExecuteRequestView::FetchSecret(
            path@,
            stage@,
        ),
        ExecuteRequest::<'a>::BuildPool(built, settings)@ == ExecuteRequestView::BuildPool(
            built@,
            settings,
        ),
        ExecuteRequest::<'a>::Use@ == ExecuteRequestView::Use,
        ExecuteRequest::<'a>::Failed(path)@ == ExecuteRequestView::Failed(path@),
{
}

} // verus!
