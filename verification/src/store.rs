//! The store: what connections are opened with, and how the password is
//! refreshed when they cannot be had any more.

use vstd::prelude::*;

use crate::config;
use crate::config::{OciOracleConfig, OciOracleConfigView, PoolSettings};
use crate::db::{OracleConnectParams, OracleConnectParamsView};
use crate::secret::SecretFetcher;
use crate::text;
use crate::text::joined_text;

verus! {

/// How long after a refresh of the password the next one is not tried, in
/// milliseconds.
pub const REFRESH_COOLDOWN_MS: u64 = 60_000;

/// The state of a store. The pool itself is kept by the embedding program, which
/// builds it as the store says.
pub struct OciOracleStore {
    config: OciOracleConfig,
    manager_params: OracleConnectParams,
    pool_params: OracleConnectParams,
    refresh_in_progress: bool,
    last_refresh_ts_ms: u64,
}

/// The state of a store.
pub ghost struct StoreView {
    pub config: OciOracleConfigView,
    /// What the first pool was built with.
    pub manager_params: OracleConnectParamsView,
    /// What the pool in use was built with.
    pub pool_params: OracleConnectParamsView,
    pub refresh_in_progress: bool,
    /// When the password was last refreshed, in milliseconds since 1970; zero
    /// where it never was.
    pub last_refresh_ts_ms: u64,
}

impl View for OciOracleStore {
    type V = StoreView;

    closed spec fn view(&self) -> StoreView {
        StoreView {
            config: self.config@,
            manager_params: self.manager_params@,
            pool_params: self.pool_params@,
            refresh_in_progress: self.refresh_in_progress,
            last_refresh_ts_ms: self.last_refresh_ts_ms,
        }
    }
}

/// A store that has just been set up.
pub open spec fn new_store(
    config: OciOracleConfigView,
    params: OracleConnectParamsView,
) -> StoreView {
    StoreView {
        config,
        manager_params: params,
        pool_params: params,
        refresh_in_progress: false,
        last_refresh_ts_ms: 0,
    }
}

impl Clone for OciOracleStore {
    /// A store with the same pool whose password counts as never refreshed.
    fn clone(&self) -> (copy: Self)
        ensures
            copy@ == (StoreView { refresh_in_progress: false, last_refresh_ts_ms: 0, ..self@ }),
    {
        OciOracleStore {
            config: self.config.clone(),
            manager_params: self.manager_params.clone(),
            pool_params: self.pool_params.clone(),
            refresh_in_progress: false,
            last_refresh_ts_ms: 0,
        }
    }
}

// ------------------------------------------------------------------ refresh

/// A refresh of the password.
pub enum RefreshRun {
    /// The secret is fetched.
    FetchSecret,
    /// A pool is built with these.
    BuildPool(OracleConnectParams),
    /// It is over, or there was none.
    Finished(Result<(), String>),
}

/// A refresh of the password.
pub ghost enum RefreshView {
    FetchSecret,
    BuildPool(OracleConnectParamsView),
    Finished(Result<(), Seq<char>>),
}

/// The view of an outcome.
pub open spec fn outcome_view(outcome: Result<(), String>) -> Result<(), Seq<char>> {
    match outcome {
        Ok(_) => Ok(()),
        Err(e) => Err(e@),
    }
}

impl View for RefreshRun {
    type V = RefreshView;

    open spec fn view(&self) -> RefreshView {
        match self {
            RefreshRun::FetchSecret => RefreshView::FetchSecret,
            RefreshRun::BuildPool(params) => RefreshView::BuildPool(params@),
            RefreshRun::Finished(outcome) => RefreshView::Finished(outcome_view(*outcome)),
        }
    }
}

/// What happens in the course of a refresh.
pub enum RefreshEvent {
    /// What fetching the secret came to.
    Secret(Result<String, String>),
    /// What building a pool came to. It is in use where it succeeded.
    PoolBuilt(Result<(), String>),
}

/// What happens in the course of a refresh.
pub ghost enum RefreshEventView {
    Secret(Result<Seq<char>, Seq<char>>),
    PoolBuilt(Result<(), Seq<char>>),
}

impl View for RefreshEvent {
    type V = RefreshEventView;

    open spec fn view(&self) -> RefreshEventView {
        match self {
            RefreshEvent::Secret(secret) => RefreshEventView::Secret(text::result_view(*secret)),
            RefreshEvent::PoolBuilt(built) => RefreshEventView::PoolBuilt(outcome_view(*built)),
        }
    }
}

/// Whether the last refresh lies far enough back.
pub open spec fn refresh_due(store: StoreView, now_ms: u64) -> bool {
    now_ms - store.last_refresh_ts_ms >= REFRESH_COOLDOWN_MS
}

/// The store with or without a refresh in progress.
pub open spec fn with_refresh(store: StoreView, in_progress: bool) -> StoreView {
    StoreView { refresh_in_progress: in_progress, ..store }
}

/// How a refresh starts: only if the last one lies far enough back and none is in
/// progress; otherwise it is over at once.
pub open spec fn refresh_start(store: StoreView, now_ms: u64) -> (RefreshView, StoreView) {
    if refresh_due(store, now_ms) && !store.refresh_in_progress {
        (RefreshView::FetchSecret, with_refresh(store, true))
    } else {
        (RefreshView::Finished(Ok(())), store)
    }
}

/// Whether an event is one that a refresh waits for.
pub open spec fn refresh_awaits(run: RefreshView, event: RefreshEventView) -> bool {
    match run {
        RefreshView::FetchSecret => event is Secret,
        RefreshView::BuildPool(_) => event is PoolBuilt,
        RefreshView::Finished(_) => false,
    }
}

/// A refresh and its store after an event: the secret that was fetched goes into
/// a new pool, and the time is noted once that pool is there. Any error ends the
/// refresh and leaves the pool as it was.
pub open spec fn refresh_next(
    run: RefreshView,
    store: StoreView,
    event: RefreshEventView,
    now_ms: u64,
) -> (RefreshView, StoreView) {
    match (run, event) {
        (RefreshView::FetchSecret, RefreshEventView::Secret(Ok(password))) => (
            RefreshView::BuildPool(config::params_with(store.config, password)),
            store,
        ),
        (RefreshView::FetchSecret, RefreshEventView::Secret(Err(e))) => (
            RefreshView::Finished(Err(e)),
            with_refresh(store, false),
        ),
        (RefreshView::BuildPool(params), RefreshEventView::PoolBuilt(Ok(_))) => (
            RefreshView::Finished(Ok(())),
            StoreView {
                pool_params: params,
                refresh_in_progress: false,
                last_refresh_ts_ms: now_ms,
                ..store
            },
        ),
        (RefreshView::BuildPool(_), RefreshEventView::PoolBuilt(Err(e))) => (
            RefreshView::Finished(Err("Failed to rebuild Oracle pool: "@ + e)),
            with_refresh(store, false),
        ),
        _ => (run, store),
    }
}

impl OciOracleStore {
    /// A store that has just been set up.
    pub(crate) fn set_up(config: OciOracleConfig, params: OracleConnectParams) -> (store: Self)
        ensures
            store@ == new_store(config@, params@),
    {
        OciOracleStore {
            config,
            manager_params: params.clone(),
            pool_params: params,
            refresh_in_progress: false,
            last_refresh_ts_ms: 0,
        }
    }

    /// The configuration that the store was set up with.
    pub fn config(&self) -> (config: &OciOracleConfig)
        ensures
            config@ == self@.config,
    {
        &self.config
    }

    /// What the first pool was built with.
    pub fn manager_params(&self) -> (params: &OracleConnectParams)
        ensures
            params@ == self@.manager_params,
    {
        &self.manager_params
    }

    /// What the pool in use was built with.
    pub fn pool_params(&self) -> (params: &OracleConnectParams)
        ensures
            params@ == self@.pool_params,
    {
        &self.pool_params
    }

    /// Whether the last refresh lies far enough back.
    pub fn should_attempt_refresh(&self, now_ms: u64) -> (due: bool)
        ensures
            due == refresh_due(self@, now_ms),
            due <==> now_ms >= self@.last_refresh_ts_ms + 60_000,
    {
        now_ms >= self.last_refresh_ts_ms && now_ms - self.last_refresh_ts_ms
            >= REFRESH_COOLDOWN_MS
    }

    /// Starts a refresh of the password, if the last one lies far enough back and
    /// none is in progress.
    pub fn maybe_refresh_password(&mut self, now_ms: u64) -> (run: RefreshRun)
        ensures
            (run@, final(self)@) == refresh_start(old(self)@, now_ms),
    {
        if !self.should_attempt_refresh(now_ms) || self.refresh_in_progress {
            return RefreshRun::Finished(Ok(()));
        }
        self.refresh_in_progress = true;
        RefreshRun::FetchSecret
    }
}

impl RefreshRun {
    /// The refresh after an event that it waits for.
    pub fn step(self, store: &mut OciOracleStore, event: RefreshEvent, now_ms: u64) -> (after:
        RefreshRun)
        requires
            refresh_awaits(self@, event@),
        ensures
            (after@, final(store)@) == refresh_next(self@, old(store)@, event@, now_ms),
    {
        match (self, event) {
            (RefreshRun::FetchSecret, RefreshEvent::Secret(Ok(password))) => {
                RefreshRun::BuildPool(store.config.connect_params(password))
            },
            (RefreshRun::FetchSecret, RefreshEvent::Secret(Err(e))) => {
                store.refresh_in_progress = false;
                RefreshRun::Finished(Err(e))
            },
            (RefreshRun::BuildPool(params), RefreshEvent::PoolBuilt(Ok(_))) => {
                store.pool_params = params;
                store.last_refresh_ts_ms = now_ms;
                store.refresh_in_progress = false;
                RefreshRun::Finished(Ok(()))
            },
            (RefreshRun::BuildPool(_), RefreshEvent::PoolBuilt(Err(e))) => {
                store.refresh_in_progress = false;
                RefreshRun::Finished(
                    Err(joined_text("Failed to rebuild Oracle pool: ", e.as_str())),
                )
            },
            (run, _) => run,
        }
    }
}

// ------------------------------------------------------------------ execute

/// The use of a pooled connection. Where none can be had, the password is
/// refreshed if that is due, as far as that succeeds, and one more is asked for.
pub enum ExecuteRun {
    /// A connection is asked for.
    Acquire,
    /// The password is refreshed.
    Refresh(RefreshRun),
    /// A connection is asked for once more.
    AcquireAgain,
    /// The connection is there to be used.
    Use,
    /// There is no connection.
    Failed(String),
}

/// The use of a pooled connection.
pub ghost enum ExecuteView {
    Acquire,
    Refresh(RefreshView),
    AcquireAgain,
    Use,
    Failed(Seq<char>),
}

impl View for ExecuteRun {
    type V = ExecuteView;

    open spec fn view(&self) -> ExecuteView {
        match self {
            ExecuteRun::Acquire => ExecuteView::Acquire,
            ExecuteRun::Refresh(run) => ExecuteView::Refresh(run@),
            ExecuteRun::AcquireAgain => ExecuteView::AcquireAgain,
            ExecuteRun::Use => ExecuteView::Use,
            ExecuteRun::Failed(e) => ExecuteView::Failed(e@),
        }
    }
}

/// What the embedding program has to do next.
pub enum ExecuteRequest<'a> {
    /// Ask the pool in use for a connection.
    Acquire,
    /// Fetch the secret at this path for this stage.
    FetchSecret(&'a str, &'a str),
    /// Build a pool with these, and use it from now on.
    BuildPool(&'a OracleConnectParams, PoolSettings),
    /// Use the connection.
    Use,
    /// Nothing: there is no connection, for this reason.
    Failed(&'a str),
}

/// What the embedding program has to do next.
pub ghost enum ExecuteRequestView {
    Acquire,
    FetchSecret(Seq<char>, Seq<char>),
    BuildPool(OracleConnectParamsView, PoolSettings),
    Use,
    Failed(Seq<char>),
}

impl<'a> View for ExecuteRequest<'a> {
    type V = ExecuteRequestView;

    open spec fn view(&self) -> ExecuteRequestView {
        match self {
            ExecuteRequest::Acquire => ExecuteRequestView::Acquire,
            ExecuteRequest::FetchSecret(path, stage) => ExecuteRequestView::FetchSecret(
                path@,
                stage@,
            ),
            ExecuteRequest::BuildPool(params, settings) => ExecuteRequestView::BuildPool(
                params@,
                *settings,
            ),
            ExecuteRequest::Use => ExecuteRequestView::Use,
            ExecuteRequest::Failed(e) => ExecuteRequestView::Failed(e@),
        }
    }
}

/// What happens while a connection is asked for.
pub enum ExecuteEvent {
    /// Whether there is a connection; if not, why.
    Acquired(Result<(), String>),
    Refresh(RefreshEvent),
}

/// What happens while a connection is asked for.
pub ghost enum ExecuteEventView {
    Acquired(Result<(), Seq<char>>),
    Refresh(RefreshEventView),
}

impl View for ExecuteEvent {
    type V = ExecuteEventView;

    open spec fn view(&self) -> ExecuteEventView {
        match self {
            ExecuteEvent::Acquired(outcome) => ExecuteEventView::Acquired(outcome_view(*outcome)),
            ExecuteEvent::Refresh(event) => ExecuteEventView::Refresh(event@),
        }
    }
}

/// What the use of a connection asks for.
pub open spec fn execute_request(run: ExecuteView, store: StoreView) -> ExecuteRequestView {
    match run {
        ExecuteView::Acquire => ExecuteRequestView::Acquire,
        ExecuteView::Refresh(RefreshView::FetchSecret) => ExecuteRequestView::FetchSecret(
            store.config.secret_path,
            store.config.stage,
        ),
        ExecuteView::Refresh(RefreshView::BuildPool(params)) => ExecuteRequestView::BuildPool(
            params,
            config::pool_settings(store.config),
        ),
        ExecuteView::Refresh(RefreshView::Finished(_)) => ExecuteRequestView::Acquire,
        ExecuteView::AcquireAgain => ExecuteRequestView::Acquire,
        ExecuteView::Use => ExecuteRequestView::Use,
        ExecuteView::Failed(e) => ExecuteRequestView::Failed(e),
    }
}

/// Whether an event is one that the use of a connection waits for.
pub open spec fn execute_awaits(run: ExecuteView, event: ExecuteEventView) -> bool {
    match run {
        ExecuteView::Acquire => event is Acquired,
        ExecuteView::AcquireAgain => event is Acquired,
        ExecuteView::Refresh(refresh) => event matches ExecuteEventView::Refresh(e)
            && refresh_awaits(refresh, e),
        _ => false,
    }
}

/// How it goes on with a refresh: once that is over, another connection is asked
/// for, whether the refresh succeeded or not.
pub open spec fn execute_refreshing(run: RefreshView) -> ExecuteView {
    match run {
        RefreshView::Finished(_) => ExecuteView::AcquireAgain,
        _ => ExecuteView::Refresh(run),
    }
}

/// The use of a connection and the store after an event.
pub open spec fn execute_next(
    run: ExecuteView,
    store: StoreView,
    event: ExecuteEventView,
    now_ms: u64,
) -> (ExecuteView, StoreView) {
    match (run, event) {
        (ExecuteView::Acquire, ExecuteEventView::Acquired(Ok(_))) => (ExecuteView::Use, store),
        (ExecuteView::Acquire, ExecuteEventView::Acquired(Err(_))) => {
            let (refresh, after) = refresh_start(store, now_ms);
            (execute_refreshing(refresh), after)
        },
        (ExecuteView::Refresh(refresh), ExecuteEventView::Refresh(e)) => {
            let (next, after) = refresh_next(refresh, store, e, now_ms);
            (execute_refreshing(next), after)
        },
        (ExecuteView::AcquireAgain, ExecuteEventView::Acquired(Ok(_))) => (ExecuteView::Use, store),
        (ExecuteView::AcquireAgain, ExecuteEventView::Acquired(Err(e))) => (
            ExecuteView::Failed("Failed to get Oracle connection after refresh: "@ + e),
            store,
        ),
        _ => (run, store),
    }
}

fn refreshing(run: RefreshRun) -> (after: ExecuteRun)
    ensures
        after@ == execute_refreshing(run@),
{
    match run {
        RefreshRun::Finished(_) => ExecuteRun::AcquireAgain,
        run => ExecuteRun::Refresh(run),
    }
}

impl OciOracleStore {
    /// Starts the use of a pooled connection.
    pub fn execute(&self) -> (run: ExecuteRun)
        ensures
            run@ == ExecuteView::Acquire,
    {
        ExecuteRun::Acquire
    }
}

impl ExecuteRun {
    /// What the use of a connection asks for.
    pub fn request<'a>(&'a self, store: &'a OciOracleStore) -> (request: ExecuteRequest<'a>)
        ensures
            request@ == execute_request(self@, store@),
    {
        match self {
            ExecuteRun::Acquire => ExecuteRequest::Acquire,
            ExecuteRun::Refresh(RefreshRun::FetchSecret) => ExecuteRequest::FetchSecret(
                store.config.secret_path.as_str(),
                store.config.stage.as_str(),
            ),
            ExecuteRun::Refresh(RefreshRun::BuildPool(params)) => ExecuteRequest::BuildPool(
                params,
                store.config.pool_settings(),
            ),
            ExecuteRun::Refresh(RefreshRun::Finished(_)) => ExecuteRequest::Acquire,
            ExecuteRun::AcquireAgain => ExecuteRequest::Acquire,
            ExecuteRun::Use => ExecuteRequest::Use,
            ExecuteRun::Failed(e) => ExecuteRequest::Failed(e.as_str()),
        }
    }

    /// The use of a connection after an event that it waits for.
    pub fn step(self, store: &mut OciOracleStore, event: ExecuteEvent, now_ms: u64) -> (after:
        ExecuteRun)
        requires
            execute_awaits(self@, event@),
        ensures
            (after@, final(store)@) == execute_next(self@, old(store)@, event@, now_ms),
    {
        match (self, event) {
            (ExecuteRun::Acquire, ExecuteEvent::Acquired(Ok(_))) => ExecuteRun::Use,
            (ExecuteRun::Acquire, ExecuteEvent::Acquired(Err(_))) => refreshing(
                store.maybe_refresh_password(now_ms),
            ),
            (ExecuteRun::Refresh(refresh), ExecuteEvent::Refresh(e)) => refreshing(
                refresh.step(store, e, now_ms),
            ),
            (ExecuteRun::AcquireAgain, ExecuteEvent::Acquired(Ok(_))) => ExecuteRun::Use,
            (ExecuteRun::AcquireAgain, ExecuteEvent::Acquired(Err(e))) => ExecuteRun::Failed(
                joined_text("Failed to get Oracle connection after refresh: ", e.as_str()),
            ),
            (run, _) => run,
        }
    }

    /// Fetches the secret that a refresh waits for.
    pub fn fetch_secret<F: SecretFetcher + ?Sized>(
        self,
        store: &mut OciOracleStore,
        fetcher: &F,
        now_ms: u64,
    ) -> (after: ExecuteRun)
        requires
            self@ == ExecuteView::Refresh(RefreshView::FetchSecret),
        ensures
            exists|path: &str, stage: &str, secret: Result<String, String>|
                {
                    &&& path@ == old(store)@.config.secret_path
                    &&& stage@ == old(store)@.config.stage
                    &&& #[trigger] call_ensures(
                        F::fetch_latest_secret,
                        (fetcher, path, stage),
                        secret,
                    )
                    &&& (after@, final(store)@) == execute_next(
                        self@,
                        old(store)@,
                        ExecuteEventView::Refresh(
                            RefreshEventView::Secret(text::result_view(secret)),
                        ),
                        now_ms,
                    )
                },
    {
        let secret: Result<String, String> = fetcher.fetch_latest_secret(
            store.config.secret_path.as_str(),
            store.config.stage.as_str(),
        );
        self.step(store, ExecuteEvent::Refresh(RefreshEvent::Secret(secret)), now_ms)
    }
}

/// What the use of a connection came to, given what the task that made use of it
/// came to.
pub fn task_result<T>(ran: Result<Result<T, String>, String>) -> (result: Result<T, String>)
    ensures
        match ran {
            Ok(outcome) => result == outcome,
            Err(e) => result matches Err(text) && text@ == "Task execution failed: "@ + e@,
        },
{
    match ran {
        Ok(outcome) => outcome,
        Err(e) => Err(joined_text("Task execution failed: ", e.as_str())),
    }
}

// --------------------------------------------------------------------- laws

/// After a refresh that succeeded, no other one starts before the cooldown is
/// over, and the store stays as it is.
pub proof fn no_refresh_within_the_cooldown(
    store: StoreView,
    params: OracleConnectParamsView,
    refreshed_at: u64,
    now_ms: u64,
)
    requires
        now_ms < refreshed_at + REFRESH_COOLDOWN_MS,
    ensures
        ({
            let (_, refreshed) = refresh_next(
                RefreshView::BuildPool(params),
                store,
                RefreshEventView::PoolBuilt(Ok(())),
                refreshed_at,
            );
            refresh_start(refreshed, now_ms) == (RefreshView::Finished(Ok(())), refreshed)
        }),
{
}

/// While a refresh is in progress no other one starts, and the store stays as it
/// is.
pub proof fn one_refresh_at_a_time(store: StoreView, now_ms: u64)
    requires
        store.refresh_in_progress,
    ensures
        refresh_start(store, now_ms) == (RefreshView::Finished(Ok(())), store),
{
}

/// A refresh is in progress from its start to its end, whichever way it ends.
pub proof fn refresh_is_in_progress_until_it_ends(
    run: RefreshView,
    store: StoreView,
    event: RefreshEventView,
    now_ms: u64,
)
    requires
        store.refresh_in_progress,
        refresh_awaits(run, event),
    ensures
        refresh_next(run, store, event, now_ms).1.refresh_in_progress == !(refresh_next(
            run,
            store,
            event,
            now_ms,
        ).0 is Finished),
{
}

/// A refresh that fails leaves the pool and the time of the last refresh as they
/// were: the next one need not wait.
pub proof fn failed_refresh_changes_nothing(
    run: RefreshView,
    store: StoreView,
    event: RefreshEventView,
    now_ms: u64,
    later_ms: u64,
)
    requires
        refresh_due(store, later_ms),
        refresh_awaits(run, event),
        refresh_next(run, store, event, now_ms).0 matches RefreshView::Finished(Err(_)),
    ensures
        refresh_next(run, store, event, now_ms).1 == with_refresh(store, false),
        refresh_start(refresh_next(run, store, event, now_ms).1, later_ms)
            == (RefreshView::FetchSecret, with_refresh(store, true)),
{
}

/// Whether connections are opened as the configuration says.
pub open spec fn follows_config(
    params: OracleConnectParamsView,
    config: OciOracleConfigView,
) -> bool {
    params == config::params_with(config, params.password)
}

/// Whether what is to be built follows the configuration.
pub open spec fn builds_by_config(run: ExecuteView, config: OciOracleConfigView) -> bool {
    run matches ExecuteView::Refresh(RefreshView::BuildPool(params)) ==> follows_config(
        params,
        config,
    )
}

/// Whatever happens, the configuration and what the first pool was built with
/// stay; the pool in use differs from it in nothing but the password.
pub proof fn only_the_password_changes(
    run: ExecuteView,
    store: StoreView,
    event: ExecuteEventView,
    now_ms: u64,
)
    requires
        builds_by_config(run, store.config),
        follows_config(store.pool_params, store.config),
    ensures
        ({
            let (next, after) = execute_next(run, store, event, now_ms);
            &&& after.config == store.config
            &&& after.manager_params == store.manager_params
            &&& follows_config(after.pool_params, after.config)
            &&& builds_by_config(next, after.config)
        }),
{
}

/// How often a connection may still be asked for.
pub open spec fn acquisitions_left(run: ExecuteView) -> nat {
    match run {
        ExecuteView::Acquire => 2,
        ExecuteView::Refresh(_) => 1,
        ExecuteView::AcquireAgain => 1,
        ExecuteView::Use => 0,
        ExecuteView::Failed(_) => 0,
    }
}

/// How many events may still come.
pub open spec fn events_left(run: ExecuteView) -> nat {
    match run {
        ExecuteView::Acquire => 4,
        ExecuteView::Refresh(RefreshView::FetchSecret) => 3,
        ExecuteView::Refresh(_) => 2,
        ExecuteView::AcquireAgain => 1,
        ExecuteView::Use => 0,
        ExecuteView::Failed(_) => 0,
    }
}

/// A connection is asked for at most twice, with at most one refresh between, and
/// then it is there or the attempt has failed.
pub proof fn connection_is_asked_for_at_most_twice(
    run: ExecuteView,
    store: StoreView,
    event: ExecuteEventView,
    now_ms: u64,
)
    requires
        execute_awaits(run, event),
    ensures
        ({
            let (next, _) = execute_next(run, store, event, now_ms);
            &&& events_left(next) < events_left(run)
            &&& acquisitions_left(next) <= acquisitions_left(run)
            &&& event is Acquired ==> acquisitions_left(next) < acquisitions_left(run)
            &&& next == ExecuteView::Refresh(RefreshView::FetchSecret) ==> run is Acquire
            &&& events_left(next) == 0 ==> next is Use || next is Failed
        }),
{
}

/// A connection that cannot be had is asked for once more, whatever the refresh
/// in between comes to; only if it is refused again is there none.
pub proof fn refused_connection_is_asked_for_again(
    store: StoreView,
    run: RefreshView,
    event: RefreshEventView,
    now_ms: u64,
    refused: Seq<char>,
)
    requires
        refresh_awaits(run, event),
    ensures
        refresh_start(store, now_ms).0 is Finished ==> execute_next(
            ExecuteView::Acquire,
            store,
            ExecuteEventView::Acquired(Err(refused)),
            now_ms,
        ).0 == ExecuteView::AcquireAgain,
        refresh_next(run, store, event, now_ms).0 is Finished ==> execute_next(
            ExecuteView::Refresh(run),
            store,
            ExecuteEventView::Refresh(event),
            now_ms,
        ).0 == ExecuteView::AcquireAgain,
        execute_request(ExecuteView::AcquireAgain, store) == ExecuteRequestView::Acquire,
        execute_next(
            ExecuteView::AcquireAgain,
            store,
            ExecuteEventView::Acquired(Ok(())),
            now_ms,
        ) == (ExecuteView::Use, store),
        execute_next(
            ExecuteView::AcquireAgain,
            store,
            ExecuteEventView::Acquired(Err(refused)),
            now_ms,
        ) == (
            ExecuteView::Failed("Failed to get Oracle connection after refresh: "@ + refused),
            store,
        ),
{
}

/// There is no connection only if it was refused twice.
pub proof fn only_a_second_refusal_is_final(
    run: ExecuteView,
    store: StoreView,
    event: ExecuteEventView,
    now_ms: u64,
)
    requires
        execute_awaits(run, event),
        execute_next(run, store, event, now_ms).0 is Failed,
    ensures
        run is AcquireAgain,
        event matches ExecuteEventView::Acquired(Err(_)),
{
}

/// Whether at most one of the runs that share a store refreshes its password: the
/// one, if any, for which the store shows a refresh in progress.
pub open spec fn at_most_one_refreshes(runs: Seq<ExecuteView>, store: StoreView) -> bool {
    &&& forall|i: int|
        0 <= i < runs.len() ==> ((#[trigger] runs[i]) matches ExecuteView::Refresh(refresh)
            ==> !(refresh is Finished))
    &&& forall|i: int, j: int|
        0 <= i < runs.len() && 0 <= j < runs.len() && (#[trigger] runs[i]) is Refresh && (
        #[trigger] runs[j]) is Refresh ==> i == j
    &&& store.refresh_in_progress == exists|i: int|
        0 <= i < runs.len() && (#[trigger] runs[i]) is Refresh
}

/// However the runs that share a store take turns, at most one of them refreshes
/// the password at any time, and the store knows whether one does.
pub proof fn runs_never_refresh_together(
    runs: Seq<ExecuteView>,
    store: StoreView,
    turn: int,
    event: ExecuteEventView,
    now_ms: u64,
)
    requires
        at_most_one_refreshes(runs, store),
        0 <= turn < runs.len(),
        execute_awaits(runs[turn], event),
    ensures
        at_most_one_refreshes(
            runs.update(turn, execute_next(runs[turn], store, event, now_ms).0),
            execute_next(runs[turn], store, event, now_ms).1,
        ),
{
    let (next, after) = execute_next(runs[turn], store, event, now_ms);
    let moved = runs.update(turn, next);
    assert(moved[turn] == next);
    assert forall|i: int| 0 <= i < moved.len() && i != turn implies #[trigger] moved[i]
        == runs[i] by {}
    if runs[turn] is Refresh {
        assert(store.refresh_in_progress);
        assert forall|i: int| 0 <= i < moved.len() && (#[trigger] moved[i]) is Refresh implies i
            == turn by {
            if i != turn {
                assert(runs[i] is Refresh);
            }
        }
    } else if next is Refresh {
        assert(!store.refresh_in_progress);
        assert forall|i: int| 0 <= i < moved.len() && (#[trigger] moved[i]) is Refresh implies i
            == turn by {
            if i != turn {
                assert(runs[i] is Refresh);
            }
        }
    } else {
        assert(after == store);
        if store.refresh_in_progress {
            let i = choose|i: int| 0 <= i < runs.len() && (#[trigger] runs[i]) is Refresh;
            assert(moved[i] is Refresh);
        }
    }
}

/// A refresh starts only when the last one that succeeded lies far enough back,
/// and the time of the last one moves only when one succeeds.
pub proof fn refreshes_keep_their_distance(
    run: ExecuteView,
    store: StoreView,
    event: ExecuteEventView,
    now_ms: u64,
)
    requires
        execute_awaits(run, event),
    ensures
        ({
            let (next, after) = execute_next(run, store, event, now_ms);
            &&& next == ExecuteView::Refresh(RefreshView::FetchSecret) ==> refresh_due(store, now_ms)
                && after.last_refresh_ts_ms == store.last_refresh_ts_ms
            &&& after.last_refresh_ts_ms == store.last_refresh_ts_ms || (run matches
            ExecuteView::Refresh(RefreshView::BuildPool(_)) && event matches
            ExecuteEventView::Refresh(RefreshEventView::PoolBuilt(Ok(_)))
                && after.last_refresh_ts_ms == now_ms)
        }),
{
}

/// After a change of the password a connection that cannot be had any more is had
/// again: the secret is fetched, a pool is built with it, and the second attempt
/// succeeds.
pub proof fn changed_password_is_picked_up(
    store: StoreView,
    refused: Seq<char>,
    password: Seq<char>,
    now_ms: u64,
    built_ms: u64,
)
    requires
        refresh_due(store, now_ms),
        !store.refresh_in_progress,
    ensures
        ({
            let (fetching, s1) = execute_next(
                ExecuteView::Acquire,
                store,
                ExecuteEventView::Acquired(Err(refused)),
                now_ms,
            );
            let (building, s2) = execute_next(
                fetching,
                s1,
                ExecuteEventView::Refresh(RefreshEventView::Secret(Ok(password))),
                now_ms,
            );
            let (again, s3) = execute_next(
                building,
                s2,
                ExecuteEventView::Refresh(RefreshEventView::PoolBuilt(Ok(()))),
                built_ms,
            );
            let (done, s4) = execute_next(
                again,
                s3,
                ExecuteEventView::Acquired(Ok(())),
                built_ms,
            );
            &&& execute_request(fetching, s1) == ExecuteRequestView::FetchSecret(
                store.config.secret_path,
                store.config.stage,
            )
            &&& execute_request(building, s2) == ExecuteRequestView::BuildPool(
                config::params_with(store.config, password),
                config::pool_settings(store.config),
            )
            &&& execute_request(again, s3) == ExecuteRequestView::Acquire
            &&& done == ExecuteView::Use
            &&& s4 == (StoreView {
                pool_params: config::params_with(store.config, password),
                last_refresh_ts_ms: built_ms,
                ..store
            })
        }),
{
}

} // verus!
