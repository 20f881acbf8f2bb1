//! How a store is set up: the wallet, the password, a first connection for the
//! schema, and the pool.

use vstd::pervasive::unreached;
use vstd::prelude::*;

use crate::clock;
use crate::config;
use crate::config::{
    configure_oracle_client, OciOracleConfig, OciOracleConfigView, PoolSettings, WalletFiles,
};
use crate::db;
use crate::db::{
    map_oracle_error, OracleConnectParams, OracleConnectParamsView, OracleError, OracleErrorView,
    Timestamp,
};
use crate::protocol;
use crate::protocol::{answers, Reply, ReplyView, Request, RequestView};
use crate::script;
use crate::script::{SchemaScript, ScriptView};
use crate::secret::SecretFetcher;
use crate::sql_text;
use crate::sql_text::Placeholders;
use crate::store;
use crate::store::{outcome_view, OciOracleStore};
use crate::text;
use crate::text::joined_text;

verus! {

// ----------------------------------------------------------------- protocol

/// What the embedding program has to do next.
pub enum SetupRequest<'a, P> {
    /// Look at the wallet at this path.
    InspectWallet(&'a str),
    /// Set the variable `TNS_ADMIN` to this path.
    SetTnsAdmin(&'a str),
    /// Fetch the secret at this path for this stage.
    FetchSecret(&'a str, &'a str),
    /// Open a connection for the schema.
    Connect(&'a OracleConnectParams),
    /// Set up the schema by a function of the embedding program.
    InitSchema,
    /// Do this over the connection for the schema.
    Script(Request<'a, P>),
    /// Close the connection for the schema and build the pool.
    BuildPool(&'a OracleConnectParams, PoolSettings),
    /// Nothing: the store is there.
    Ready,
    /// Nothing: it failed, for this reason.
    Failed(&'a str),
}

/// What the embedding program has to do next.
pub ghost enum SetupRequestView<P> {
    InspectWallet(Seq<char>),
    SetTnsAdmin(Seq<char>),
    FetchSecret(Seq<char>, Seq<char>),
    Connect(OracleConnectParamsView),
    InitSchema,
    Script(RequestView<P>),
    BuildPool(OracleConnectParamsView, PoolSettings),
    Ready,
    Failed(Seq<char>),
}

impl<'a, P> View for SetupRequest<'a, P> {
    type V = SetupRequestView<P>;

    open spec fn view(&self) -> SetupRequestView<P> {
        match self {
            SetupRequest::InspectWallet(path) => SetupRequestView::InspectWallet(path@),
            SetupRequest::SetTnsAdmin(path) => SetupRequestView::SetTnsAdmin(path@),
            SetupRequest::FetchSecret(path, stage) => SetupRequestView::FetchSecret(path@, stage@),
            SetupRequest::Connect(params) => SetupRequestView::Connect(params@),
            SetupRequest::InitSchema => SetupRequestView::InitSchema,
            SetupRequest::Script(request) => SetupRequestView::Script(request@),
            SetupRequest::BuildPool(params, settings) => SetupRequestView::BuildPool(
                params@,
                *settings,
            ),
            SetupRequest::Ready => SetupRequestView::Ready,
            SetupRequest::Failed(e) => SetupRequestView::Failed(e@),
        }
    }
}

/// What a request came to.
pub enum SetupReply<P> {
    Wallet(WalletFiles),
    TnsAdminSet,
    Secret(Result<String, String>),
    Connected(Result<(), OracleError>),
    SchemaSet(Result<(), String>),
    Script(Reply<P>),
    PoolBuilt(Result<(), String>),
}

/// What a request came to.
pub ghost enum SetupReplyView<P> {
    Wallet(WalletFiles),
    TnsAdminSet,
    Secret(Result<Seq<char>, Seq<char>>),
    Connected(Result<(), OracleErrorView>),
    SchemaSet(Result<(), Seq<char>>),
    Script(ReplyView<P>),
    PoolBuilt(Result<(), Seq<char>>),
}

impl<P> View for SetupReply<P> {
    type V = SetupReplyView<P>;

    open spec fn view(&self) -> SetupReplyView<P> {
        match self {
            SetupReply::Wallet(files) => SetupReplyView::Wallet(*files),
            SetupReply::TnsAdminSet => SetupReplyView::TnsAdminSet,
            SetupReply::Secret(secret) => SetupReplyView::Secret(text::result_view(*secret)),
            SetupReply::Connected(r) => SetupReplyView::Connected(protocol::db_result_view(*r)),
            SetupReply::SchemaSet(r) => SetupReplyView::SchemaSet(outcome_view(*r)),
            SetupReply::Script(reply) => SetupReplyView::Script(reply@),
            SetupReply::PoolBuilt(r) => SetupReplyView::PoolBuilt(outcome_view(*r)),
        }
    }
}

/// Whether a reply answers a request.
pub open spec fn setup_answers<P>(reply: SetupReplyView<P>, request: SetupRequestView<P>) -> bool {
    match request {
        SetupRequestView::InspectWallet(_) => reply is Wallet,
        SetupRequestView::SetTnsAdmin(_) => reply is TnsAdminSet,
        SetupRequestView::FetchSecret(_, _) => reply is Secret,
        SetupRequestView::Connect(_) => reply is Connected,
        SetupRequestView::InitSchema => reply is SchemaSet,
        SetupRequestView::Script(inner) => reply matches SetupReplyView::Script(r) && answers(
            r,
            inner,
        ),
        SetupRequestView::BuildPool(_, _) => reply is PoolBuilt,
        SetupRequestView::Ready => false,
        SetupRequestView::Failed(_) => false,
    }
}

// -------------------------------------------------------------------- state

/// Who sets up the schema.
pub enum SchemaInit<P> {
    /// A function of the embedding program.
    Caller,
    /// A script.
    Script(SchemaScript<P>),
}

/// Who sets up the schema.
pub ghost enum SchemaInitView<P> {
    Caller,
    Script(ScriptView<P>),
}

impl<P> View for SchemaInit<P> {
    type V = SchemaInitView<P>;

    open spec fn view(&self) -> SchemaInitView<P> {
        match self {
            SchemaInit::Caller => SchemaInitView::Caller,
            SchemaInit::Script(script) => SchemaInitView::Script(script@),
        }
    }
}

enum SetupPhase<P> {
    Wallet(SchemaInit<P>),
    TnsAdmin(SchemaInit<P>),
    Secret(SchemaInit<P>),
    Connect(SchemaInit<P>, OracleConnectParams),
    Caller(OracleConnectParams),
    Script(SchemaScript<P>, OracleConnectParams),
    Pool(OracleConnectParams),
    Ready(OracleConnectParams),
    Failed(String),
}

/// A store that is being set up.
pub struct StoreSetup<P> {
    config: OciOracleConfig,
    phase: SetupPhase<P>,
}

/// How far the setup of a store is.
pub ghost enum SetupPhaseView<P> {
    /// The wallet is looked at.
    Wallet(SchemaInitView<P>),
    /// The client is given the wallet.
    TnsAdmin(SchemaInitView<P>),
    /// The secret is fetched.
    Secret(SchemaInitView<P>),
    /// A connection for the schema is opened.
    Connect(SchemaInitView<P>, OracleConnectParamsView),
    /// The embedding program sets up the schema.
    Caller(OracleConnectParamsView),
    /// A script sets up the schema.
    Script(ScriptView<P>, OracleConnectParamsView),
    /// The pool is built.
    Pool(OracleConnectParamsView),
    /// The store is there.
    Ready(OracleConnectParamsView),
    /// It failed.
    Failed(Seq<char>),
}

/// A store that is being set up.
pub ghost struct SetupView<P> {
    pub config: OciOracleConfigView,
    pub phase: SetupPhaseView<P>,
}

impl<P> SetupPhase<P> {
    spec fn view(&self) -> SetupPhaseView<P> {
        match self {
            SetupPhase::Wallet(init) => SetupPhaseView::Wallet(init@),
            SetupPhase::TnsAdmin(init) => SetupPhaseView::TnsAdmin(init@),
            SetupPhase::Secret(init) => SetupPhaseView::Secret(init@),
            SetupPhase::Connect(init, params) => SetupPhaseView::Connect(init@, params@),
            SetupPhase::Caller(params) => SetupPhaseView::Caller(params@),
            SetupPhase::Script(script, params) => SetupPhaseView::Script(script@, params@),
            SetupPhase::Pool(params) => SetupPhaseView::Pool(params@),
            SetupPhase::Ready(params) => SetupPhaseView::Ready(params@),
            SetupPhase::Failed(e) => SetupPhaseView::Failed(e@),
        }
    }
}

impl<P> View for StoreSetup<P> {
    type V = SetupView<P>;

    closed spec fn view(&self) -> SetupView<P> {
        SetupView { config: self.config@, phase: self.phase@ }
    }
}

/// How a setup starts: with the wallet, where one is configured.
pub open spec fn setup_start<P>(
    config: OciOracleConfigView,
    init: SchemaInitView<P>,
) -> SetupView<P> {
    SetupView {
        config,
        phase: if config.wallet_path is Some {
            SetupPhaseView::Wallet(init)
        } else {
            SetupPhaseView::Secret(init)
        },
    }
}

/// The setup with a script: it goes on to the pool once the script is done.
pub open spec fn scripted<P>(
    script: ScriptView<P>,
    params: OracleConnectParamsView,
) -> SetupPhaseView<P> {
    match script::script_request(script) {
        RequestView::Done => SetupPhaseView::Pool(params),
        RequestView::Failed(e) => SetupPhaseView::Failed(e),
        _ => SetupPhaseView::Script(script, params),
    }
}

/// What a setup asks for.
pub open spec fn setup_request<P>(setup: SetupView<P>) -> SetupRequestView<P> {
    match setup.phase {
        SetupPhaseView::Wallet(_) => SetupRequestView::InspectWallet(setup.config.wallet_path->0),
        SetupPhaseView::TnsAdmin(_) => SetupRequestView::SetTnsAdmin(setup.config.wallet_path->0),
        SetupPhaseView::Secret(_) => SetupRequestView::FetchSecret(
            setup.config.secret_path,
            setup.config.stage,
        ),
        SetupPhaseView::Connect(_, params) => SetupRequestView::Connect(params),
        SetupPhaseView::Caller(_) => SetupRequestView::InitSchema,
        SetupPhaseView::Script(script, _) => SetupRequestView::Script(
            script::script_request(script),
        ),
        SetupPhaseView::Pool(params) => SetupRequestView::BuildPool(
            params,
            config::pool_settings(setup.config),
        ),
        SetupPhaseView::Ready(_) => SetupRequestView::Ready,
        SetupPhaseView::Failed(e) => SetupRequestView::Failed(e),
    }
}

/// The phase of a setup after a reply, the time being `now`.
pub open spec fn setup_phase_next<P>(
    setup: SetupView<P>,
    reply: SetupReplyView<P>,
    now: Timestamp,
) -> SetupPhaseView<P> {
    match (setup.phase, reply) {
        (SetupPhaseView::Wallet(init), SetupReplyView::Wallet(files)) => match config::wallet_fault(
            setup.config.wallet_path->0,
            files,
        ) {
            Some(fault) => SetupPhaseView::Failed(fault),
            None => SetupPhaseView::TnsAdmin(init),
        },
        (SetupPhaseView::TnsAdmin(init), SetupReplyView::TnsAdminSet) => SetupPhaseView::Secret(
            init,
        ),
        (SetupPhaseView::Secret(init), SetupReplyView::Secret(Ok(password))) =>
            SetupPhaseView::Connect(init, config::params_with(setup.config, password)),
        (SetupPhaseView::Secret(_), SetupReplyView::Secret(Err(e))) => SetupPhaseView::Failed(e),
        (SetupPhaseView::Connect(init, params), SetupReplyView::Connected(Ok(_))) => match init {
            SchemaInitView::Caller => SetupPhaseView::Caller(params),
            SchemaInitView::Script(script) => scripted(script, params),
        },
        (SetupPhaseView::Connect(_, _), SetupReplyView::Connected(Err(e))) =>
            SetupPhaseView::Failed(db::oracle_error_text(e)),
        (SetupPhaseView::Caller(params), SetupReplyView::SchemaSet(Ok(_))) => SetupPhaseView::Pool(
            params,
        ),
        (SetupPhaseView::Caller(_), SetupReplyView::SchemaSet(Err(e))) => SetupPhaseView::Failed(e),
        (SetupPhaseView::Script(script, params), SetupReplyView::Script(r)) => scripted(
            script::script_next(script, r, now),
            params,
        ),
        (SetupPhaseView::Pool(params), SetupReplyView::PoolBuilt(Ok(_))) => SetupPhaseView::Ready(
            params,
        ),
        (SetupPhaseView::Pool(_), SetupReplyView::PoolBuilt(Err(e))) => SetupPhaseView::Failed(
            "Failed to build Oracle pool: "@ + e,
        ),
        _ => setup.phase,
    }
}

/// A setup after a reply, the time being `now`.
pub open spec fn setup_next<P>(
    setup: SetupView<P>,
    reply: SetupReplyView<P>,
    now: Timestamp,
) -> SetupView<P> {
    SetupView { config: setup.config, phase: setup_phase_next(setup, reply, now) }
}

// ------------------------------------------------------------- constructors

impl OciOracleStore {
    /// Sets up a store whose schema the embedding program sets up itself, over a
    /// connection of its own.
    pub fn new_with_schema<P>(config: OciOracleConfig) -> (setup: StoreSetup<P>)
        ensures
            setup@ == setup_start::<P>(config@, SchemaInitView::Caller),
    {
        StoreSetup::start(config, SchemaInit::Caller)
    }

    /// Sets up a store and no schema.
    pub fn new<P>(config: OciOracleConfig) -> (setup: StoreSetup<P>)
        ensures
            setup@ == setup_start::<P>(config@, SchemaInitView::Script(ScriptView::Nothing)),
    {
        StoreSetup::start(config, SchemaInit::Script(SchemaScript::nothing()))
    }

    /// Sets up a store and the agent runtime's schema.
    pub fn new_with_agent_runtime_schema<P>(config: OciOracleConfig) -> (setup: StoreSetup<P>)
        ensures
            setup@ == setup_start::<P>(
                config@,
                SchemaInitView::Script(script::agent_runtime_script()),
            ),
    {
        StoreSetup::start(config, SchemaInit::Script(SchemaScript::agent_runtime()))
    }

    /// Sets up a store and applies the migrations in a directory.
    pub fn new_with_filesystem_migrations<P>(
        config: OciOracleConfig,
        migrations_dir: String,
        placeholders: Option<Placeholders>,
    ) -> (setup: StoreSetup<P>)
        ensures
            setup@ == setup_start::<P>(
                config@,
                SchemaInitView::Script(
                    script::filesystem_script(
                        migrations_dir@,
                        sql_text::placeholders_view(placeholders),
                    ),
                ),
            ),
    {
        StoreSetup::start(
            config,
            SchemaInit::Script(SchemaScript::filesystem(migrations_dir, placeholders)),
        )
    }
}

fn scripted_phase<P>(script: SchemaScript<P>, params: OracleConnectParams) -> (phase: SetupPhase<P>)
    ensures
        phase@ == scripted(script@, params@),
{
    let failed: Option<String> = match script.request() {
        Request::Failed(e) => Some(e.to_owned()),
        Request::Done => {
            return SetupPhase::Pool(params);
        },
        _ => None,
    };
    match failed {
        Some(e) => SetupPhase::Failed(e),
        None => SetupPhase::Script(script, params),
    }
}

impl<P> StoreSetup<P> {
    #[verifier::type_invariant]
    spec fn wallet_is_configured(self) -> bool {
        self.phase is Wallet || self.phase is TnsAdmin ==> self.config.wallet_path is Some
    }

    fn start(config: OciOracleConfig, init: SchemaInit<P>) -> (setup: StoreSetup<P>)
        ensures
            setup@ == setup_start(config@, init@),
    {
        if config.wallet_path.is_some() {
            StoreSetup { config, phase: SetupPhase::Wallet(init) }
        } else {
            StoreSetup { config, phase: SetupPhase::Secret(init) }
        }
    }

    /// What the setup asks for.
    pub fn request(&self) -> (request: SetupRequest<'_, P>)
        ensures
            request@ == setup_request(self@),
    {
        proof {
            use_type_invariant(self);
        }
        match &self.phase {
            SetupPhase::Wallet(_) => match &self.config.wallet_path {
                Some(path) => SetupRequest::InspectWallet(path.as_str()),
                None => unreached(),
            },
            SetupPhase::TnsAdmin(_) => match &self.config.wallet_path {
                Some(path) => SetupRequest::SetTnsAdmin(path.as_str()),
                None => unreached(),
            },
            SetupPhase::Secret(_) => SetupRequest::FetchSecret(
                self.config.secret_path.as_str(),
                self.config.stage.as_str(),
            ),
            SetupPhase::Connect(_, params) => SetupRequest::Connect(params),
            SetupPhase::Caller(_) => SetupRequest::InitSchema,
            SetupPhase::Script(script, _) => SetupRequest::Script(script.request()),
            SetupPhase::Pool(params) => SetupRequest::BuildPool(
                params,
                self.config.pool_settings(),
            ),
            SetupPhase::Ready(_) => SetupRequest::Ready,
            SetupPhase::Failed(e) => SetupRequest::Failed(e.as_str()),
        }
    }

    fn step_with(self, reply: SetupReply<P>, clock: Option<Timestamp>) -> (after: StoreSetup<P>)
        requires
            setup_answers(reply@, setup_request(self@)),
        ensures
            clock matches Some(now) ==> after@ == setup_next(self@, reply@, now),
            clock is None ==> exists|now: Timestamp|
                clock::is_moment(now) && after@ == #[trigger] setup_next(self@, reply@, now),
    {
        proof {
            use_type_invariant(&self);
        }
        let ghost any = Timestamp { secs: 0, nanos: 0 };
        let ghost before = self@;
        let ghost answer = reply@;
        let StoreSetup { config, phase } = self;
        let after: StoreSetup<P> = match (phase, reply) {
            (SetupPhase::Wallet(init), SetupReply::Wallet(files)) => {
                let usable: Result<(), String> = match &config.wallet_path {
                    Some(path) => configure_oracle_client(path.as_str(), files),
                    None => unreached(),
                };
                match usable {
                    Ok(_) => StoreSetup { config, phase: SetupPhase::TnsAdmin(init) },
                    Err(e) => StoreSetup { config, phase: SetupPhase::Failed(e) },
                }
            },
            (SetupPhase::TnsAdmin(init), SetupReply::TnsAdminSet) => {
                StoreSetup { config, phase: SetupPhase::Secret(init) }
            },
            (SetupPhase::Secret(init), SetupReply::Secret(Ok(password))) => {
                let params: OracleConnectParams = config.connect_params(password);
                StoreSetup { config, phase: SetupPhase::Connect(init, params) }
            },
            (SetupPhase::Secret(_), SetupReply::Secret(Err(e))) => {
                StoreSetup { config, phase: SetupPhase::Failed(e) }
            },
            (SetupPhase::Connect(init, params), SetupReply::Connected(Ok(_))) => match init {
                SchemaInit::Caller => StoreSetup { config, phase: SetupPhase::Caller(params) },
                SchemaInit::Script(script) => {
                    StoreSetup { config, phase: scripted_phase(script, params) }
                },
            },
            (SetupPhase::Connect(_, _), SetupReply::Connected(Err(e))) => {
                StoreSetup { config, phase: SetupPhase::Failed(map_oracle_error(e)) }
            },
            (SetupPhase::Caller(params), SetupReply::SchemaSet(Ok(_))) => {
                StoreSetup { config, phase: SetupPhase::Pool(params) }
            },
            (SetupPhase::Caller(_), SetupReply::SchemaSet(Err(e))) => {
                StoreSetup { config, phase: SetupPhase::Failed(e) }
            },
            (SetupPhase::Script(script, params), SetupReply::Script(r)) => {
                let ghost inner = script@;
                let ghost inner_reply = r@;
                let next: SchemaScript<P> = match clock {
                    Some(now) => script.step_at(r, now),
                    None => script.step(r),
                };
                let phase: SetupPhase<P> = scripted_phase(next, params);
                proof {
                    if clock is None {
                        let now = choose|now: Timestamp|
                            clock::is_moment(now) && next@ == #[trigger] script::script_next(
                                inner,
                                inner_reply,
                                now,
                            );
                        assert(setup_next(before, answer, now).phase == scripted(next@, params@));
                    }
                }
                StoreSetup { config, phase }
            },
            (SetupPhase::Pool(params), SetupReply::PoolBuilt(Ok(_))) => {
                StoreSetup { config, phase: SetupPhase::Ready(params) }
            },
            (SetupPhase::Pool(_), SetupReply::PoolBuilt(Err(e))) => {
                let reason: String = joined_text("Failed to build Oracle pool: ", e.as_str());
                StoreSetup { config, phase: SetupPhase::Failed(reason) }
            },
            (phase, _) => StoreSetup { config, phase },
        };
        proof {
            assert(clock::is_moment(any));
            assert(before.phase is Script || after@ == setup_next(before, answer, any));
        }
        after
    }

    /// The setup after a reply to what it asked for, the time being `now`.
    pub fn step_at(self, reply: SetupReply<P>, now: Timestamp) -> (after: StoreSetup<P>)
        requires
            setup_answers(reply@, setup_request(self@)),
        ensures
            after@ == setup_next(self@, reply@, now),
    {
        self.step_with(reply, Some(now))
    }

    /// The setup after a reply to what it asked for. The clock is read where a
    /// migration has to be recorded.
    pub fn step(self, reply: SetupReply<P>) -> (after: StoreSetup<P>)
        requires
            setup_answers(reply@, setup_request(self@)),
        ensures
            exists|now: Timestamp|
                clock::is_moment(now) && after@ == #[trigger] setup_next(self@, reply@, now),
    {
        self.step_with(reply, None)
    }

    /// Fetches the secret that the setup asks for.
    pub fn fetch_secret<F: SecretFetcher + ?Sized>(self, fetcher: &F) -> (after: StoreSetup<P>)
        requires
            self@.phase is Secret,
        ensures
            exists|path: &str, stage: &str, secret: Result<String, String>, now: Timestamp|
                {
                    &&& path@ == self@.config.secret_path
                    &&& stage@ == self@.config.stage
                    &&& #[trigger] call_ensures(
                        F::fetch_latest_secret,
                        (fetcher, path, stage),
                        secret,
                    )
                    &&& after@ == #[trigger] setup_next(
                        self@,
                        SetupReplyView::Secret(text::result_view(secret)),
                        now,
                    )
                },
    {
        let secret: Result<String, String> = fetcher.fetch_latest_secret(
            self.config.secret_path.as_str(),
            self.config.stage.as_str(),
        );
        self.step_with(SetupReply::Secret(secret), None)
    }

    /// The store, where it is there.
    pub fn into_store(self) -> (store: Option<OciOracleStore>)
        ensures
            match self@.phase {
                SetupPhaseView::Ready(params) => store matches Some(s) && s@ == store::new_store(
                    self@.config,
                    params,
                ),
                _ => store is None,
            },
    {
        let StoreSetup { config, phase } = self;
        match phase {
            SetupPhase::Ready(params) => Some(OciOracleStore::set_up(config, params)),
            _ => None,
        }
    }
}

// --------------------------------------------------------------------- laws

/// Whether what connections are opened with follows the configuration.
pub open spec fn setup_follows_config<P>(setup: SetupView<P>) -> bool {
    match setup.phase {
        SetupPhaseView::Connect(_, params) => store::follows_config(params, setup.config),
        SetupPhaseView::Caller(params) => store::follows_config(params, setup.config),
        SetupPhaseView::Script(_, params) => store::follows_config(params, setup.config),
        SetupPhaseView::Pool(params) => store::follows_config(params, setup.config),
        SetupPhaseView::Ready(params) => store::follows_config(params, setup.config),
        _ => true,
    }
}

/// A setup keeps to its configuration from its start to its end: it never changes
/// it, and opens no connection but with the user name and the descriptor in it.
pub proof fn setup_keeps_to_its_configuration<P>(
    config: OciOracleConfigView,
    init: SchemaInitView<P>,
    setup: SetupView<P>,
    reply: SetupReplyView<P>,
    now: Timestamp,
)
    requires
        setup_follows_config(setup),
    ensures
        setup_follows_config(setup_start(config, init)),
        setup_start(config, init).config == config,
        setup_next(setup, reply, now).config == setup.config,
        setup_follows_config(setup_next(setup, reply, now)),
{
}

/// A wallet that cannot be used ends the setup before anything else is tried.
pub proof fn unusable_wallet_ends_the_setup<P>(
    config: OciOracleConfigView,
    init: SchemaInitView<P>,
    files: WalletFiles,
    now: Timestamp,
)
    requires
        config.wallet_path is Some,
    ensures
        setup_request(setup_start(config, init)) == SetupRequestView::<P>::InspectWallet(
            config.wallet_path->0,
        ),
        match config::wallet_fault(config.wallet_path->0, files) {
            Some(fault) => setup_request(
                setup_next(setup_start(config, init), SetupReplyView::Wallet(files), now),
            ) == SetupRequestView::<P>::Failed(fault),
            None => setup_request(
                setup_next(setup_start(config, init), SetupReplyView::Wallet(files), now),
            ) == SetupRequestView::<P>::SetTnsAdmin(config.wallet_path->0),
        },
{
}

/// The pool is built only once the schema is set up.
pub proof fn pool_is_built_only_after_the_schema<P>(
    setup: SetupView<P>,
    reply: SetupReplyView<P>,
    now: Timestamp,
)
    requires
        setup_answers(reply, setup_request(setup)),
        setup_next(setup, reply, now).phase is Pool,
    ensures
        match setup.phase {
            SetupPhaseView::Caller(_) => reply matches SetupReplyView::SchemaSet(Ok(_)),
            SetupPhaseView::Script(script, _) => reply matches SetupReplyView::Script(r)
                && script::script_request(script::script_next(script, r, now))
                == RequestView::<P>::Done,
            SetupPhaseView::Connect(SchemaInitView::Script(script), _) => script::script_request(
                script,
            ) == RequestView::<P>::Done,
            _ => false,
        },
{
}

/// A setup after a series of replies, each with the time at which it came.
pub open spec fn setup_after<P>(
    setup: SetupView<P>,
    events: Seq<(SetupReplyView<P>, Timestamp)>,
) -> SetupView<P>
    decreases events.len(),
{
    if events.len() == 0 {
        setup
    } else {
        setup_after(setup_next(setup, events[0].0, events[0].1), events.skip(1))
    }
}

/// Whether each reply answers what a script asked for.
pub open spec fn script_is_answered<P>(
    script: ScriptView<P>,
    events: Seq<(ReplyView<P>, Timestamp)>,
) -> bool
    decreases events.len(),
{
    events.len() == 0 || (answers(events[0].0, script::script_request(script))
        && script_is_answered(
        script::script_next(script, events[0].0, events[0].1),
        events.skip(1),
    ))
}

/// The replies to a script, as the setup gets them.
pub open spec fn script_replies<P>(events: Seq<(ReplyView<P>, Timestamp)>) -> Seq<
    (SetupReplyView<P>, Timestamp),
> {
    events.map_values(|e: (ReplyView<P>, Timestamp)| (SetupReplyView::Script(e.0), e.1))
}

proof fn setup_in_two_parts<P>(
    setup: SetupView<P>,
    first: Seq<(SetupReplyView<P>, Timestamp)>,
    second: Seq<(SetupReplyView<P>, Timestamp)>,
)
    ensures
        setup_after(setup, first + second) == setup_after(setup_after(setup, first), second),
    decreases first.len(),
{
    let all = first + second;
    if first.len() == 0 {
        assert(all =~= second);
    } else {
        setup_in_two_parts(
            setup_next(setup, first[0].0, first[0].1),
            first.skip(1),
            second,
        );
        assert(all.skip(1) =~= first.skip(1) + second);
    }
}

/// A setup has its script run to the end before it goes on.
pub proof fn setup_runs_its_script<P>(
    config: OciOracleConfigView,
    params: OracleConnectParamsView,
    script: ScriptView<P>,
    events: Seq<(ReplyView<P>, Timestamp)>,
)
    requires
        script_is_answered(script, events),
    ensures
        setup_after(SetupView { config, phase: scripted(script, params) }, script_replies(events))
            == (SetupView { config, phase: scripted(script::script_after(script, events), params) }),
    decreases events.len(),
{
    let replies = script_replies(events);
    if events.len() > 0 {
        let next = script::script_next(script, events[0].0, events[0].1);
        let setup = SetupView { config, phase: scripted(script, params) };
        assert(scripted(script, params) == SetupPhaseView::Script(script, params));
        assert(replies[0] == (SetupReplyView::<P>::Script(events[0].0), events[0].1));
        assert(setup_next(setup, replies[0].0, replies[0].1) == (SetupView {
            config,
            phase: scripted(next, params),
        }));
        setup_runs_its_script(config, params, next, events.skip(1));
        assert(replies.skip(1) =~= script_replies(events.skip(1)));
    }
}

/// The replies to a setup in which nothing fails: the wallet, where there is one,
/// can be used; the secret is fetched; the connection is opened; the script is
/// done; the pool is built.
pub open spec fn smooth_events<P>(
    config: OciOracleConfigView,
    files: WalletFiles,
    password: Seq<char>,
    script_events: Seq<(ReplyView<P>, Timestamp)>,
    now: Timestamp,
) -> Seq<(SetupReplyView<P>, Timestamp)> {
    let wallet = if config.wallet_path is Some {
        seq![(SetupReplyView::<P>::Wallet(files), now), (SetupReplyView::<P>::TnsAdminSet, now)]
    } else {
        Seq::empty()
    };
    let connection = seq![
        (SetupReplyView::<P>::Secret(Ok(password)), now),
        (SetupReplyView::<P>::Connected(Ok(())), now),
    ];
    wallet + connection + script_replies(script_events) + seq![
        (SetupReplyView::<P>::PoolBuilt(Ok(())), now),
    ]
}

/// A setup in which nothing fails gives a store: its script is done, and its pool
/// opens connections with the configured user name and descriptor and the secret
/// that was fetched.
pub proof fn smooth_setup_gives_a_store<P>(
    config: OciOracleConfigView,
    files: WalletFiles,
    password: Seq<char>,
    script: ScriptView<P>,
    script_events: Seq<(ReplyView<P>, Timestamp)>,
    now: Timestamp,
)
    requires
        config.wallet_path is Some ==> config::wallet_fault(config.wallet_path->0, files) is None,
        script_is_answered(script, script_events),
        script::script_request(script::script_after(script, script_events)) == RequestView::<
            P,
        >::Done,
    ensures
        setup_after(
            setup_start(config, SchemaInitView::Script(script)),
            smooth_events(config, files, password, script_events, now),
        ) == (SetupView {
            config,
            phase: SetupPhaseView::<P>::Ready(config::params_with(config, password)),
        }),
{
    reveal_with_fuel(setup_after, 3);
    let init = SchemaInitView::Script(script);
    let params = config::params_with(config, password);
    let wallet = if config.wallet_path is Some {
        seq![(SetupReplyView::<P>::Wallet(files), now), (SetupReplyView::<P>::TnsAdminSet, now)]
    } else {
        Seq::empty()
    };
    let connection = seq![
        (SetupReplyView::<P>::Secret(Ok(password)), now),
        (SetupReplyView::<P>::Connected(Ok(())), now),
    ];
    let replies = script_replies(script_events);
    let last = seq![(SetupReplyView::<P>::PoolBuilt(Ok(())), now)];
    let start = setup_start(config, init);
    let secret = SetupView { config, phase: SetupPhaseView::Secret(init) };
    if config.wallet_path is Some {
        let tns = SetupView { config, phase: SetupPhaseView::TnsAdmin(init) };
        assert(setup_next(start, wallet[0].0, now) == tns);
        assert(wallet.skip(1)[0] == (SetupReplyView::<P>::TnsAdminSet, now));
        assert(setup_next(tns, wallet.skip(1)[0].0, now) == secret);
        assert(wallet.skip(1).skip(1).len() == 0);
        assert(setup_after(start, wallet) == secret);
    }
    assert(setup_after(start, wallet) == secret);
    let connecting = SetupView { config, phase: SetupPhaseView::Connect(init, params) };
    let connected = SetupView { config, phase: scripted(script, params) };
    assert(setup_next(secret, connection[0].0, now) == connecting);
    assert(connection.skip(1)[0] == (SetupReplyView::<P>::Connected(Ok(())), now));
    assert(setup_next(connecting, connection.skip(1)[0].0, now) == connected);
    assert(connection.skip(1).skip(1).len() == 0);
    assert(setup_after(secret, connection) == connected);
    setup_runs_its_script(config, params, script, script_events);
    setup_in_two_parts(start, wallet, connection);
    setup_in_two_parts(start, wallet + connection, replies);
    setup_in_two_parts(start, wallet + connection + replies, last);
    let pooling = SetupView { config, phase: SetupPhaseView::<P>::Pool(params) };
    assert(setup_after(connected, replies) == pooling);
    assert(last.skip(1).len() == 0);
    assert(setup_after(pooling, last) == setup_next(pooling, last[0].0, now));
}

} // verus!
