//! Which storages the configuration asks for, and how they are made.

use std::sync::Arc;

use vstd::prelude::*;

use crate::config;
use crate::config::{Environment, OciOracleConfig};
use crate::redact;
use crate::redact::log_db_url;
use crate::script;
use crate::setup;
use crate::setup::{SchemaInitView, StoreSetup};
use crate::storage::{
    OciOracleConversationItemStorage, OciOracleConversationStorage, OciOracleResponseStorage,
};
use crate::store::OciOracleStore;
use crate::text::joined_text;

verus! {

// ------------------------------------------------------------------- choice

/// Where the history of conversations is kept.
#[derive(Clone, Copy, PartialEq, Eq, Structural, Debug)]
pub enum HistoryBackend {
    /// In memory.
    Memory,
    /// Nowhere.
    NoOp,
    /// In an Oracle database.
    Oracle,
    /// In an Oracle database whose password is a secret of the cloud.
    OciOracle,
    /// In a Postgres database.
    Postgres,
}

/// How to reach an Oracle database. `O` is what is handed on unread.
pub struct OracleConfig<O> {
    pub pool_min: usize,
    pub pool_max: usize,
    pub rest: O,
}

/// How to reach a Postgres database. `G` is what is handed on unread.
pub struct PostgresConfig<G> {
    pub db_url: String,
    pub pool_max: usize,
    pub rest: G,
}

/// The configuration of the gateway, as far as it says where history is kept.
pub struct RouterConfig<O, G> {
    pub history_backend: HistoryBackend,
    pub oracle: Option<OracleConfig<O>>,
    pub oci_oracle: Option<OciOracleConfig>,
    pub postgres: Option<PostgresConfig<G>>,
}

/// Which storages are to be made, and out of which configuration.
pub enum StorageChoice<'a, O, G> {
    /// Those in memory.
    Memory,
    /// Those that keep nothing.
    NoOp,
    /// Those in an Oracle database.
    Oracle(&'a OracleConfig<O>),
    /// Those in an Oracle database whose password is a secret of the cloud.
    OciOracle(&'a OciOracleConfig),
    /// Those in a Postgres database, and the URL as it may be logged.
    Postgres(&'a PostgresConfig<G>, String),
}

/// Which storages are to be made, and out of which configuration.
pub ghost enum ChoiceView<O, G> {
    Memory,
    NoOp,
    Oracle(OracleConfig<O>),
    OciOracle(OciOracleConfig),
    Postgres(PostgresConfig<G>, Seq<char>),
}

impl<'a, O, G> View for StorageChoice<'a, O, G> {
    type V = ChoiceView<O, G>;

    open spec fn view(&self) -> ChoiceView<O, G> {
        match self {
            StorageChoice::Memory => ChoiceView::Memory,
            StorageChoice::NoOp => ChoiceView::NoOp,
            StorageChoice::Oracle(cfg) => ChoiceView::Oracle(**cfg),
            StorageChoice::OciOracle(cfg) => ChoiceView::OciOracle(**cfg),
            StorageChoice::Postgres(cfg, log) => ChoiceView::Postgres(**cfg, log@),
        }
    }
}

/// The view of a choice or of the text of an error.
pub open spec fn choice_result_view<'a, O, G>(
    choice: Result<StorageChoice<'a, O, G>, String>,
) -> Result<ChoiceView<O, G>, Seq<char>> {
    match choice {
        Ok(c) => Ok(c@),
        Err(e) => Err(e@),
    }
}

/// Which storages a configuration asks for. A database has to be configured
/// where one is asked for.
pub open spec fn choice_of<O, G>(config: RouterConfig<O, G>) -> Result<
    ChoiceView<O, G>,
    Seq<char>,
> {
    match config.history_backend {
        HistoryBackend::Memory => Ok(ChoiceView::Memory),
        HistoryBackend::NoOp => Ok(ChoiceView::NoOp),
        HistoryBackend::Oracle => match config.oracle {
            Some(oracle) => Ok(ChoiceView::Oracle(oracle)),
            None => Err("oracle configuration is required when history_backend=oracle"@),
        },
        HistoryBackend::OciOracle => match config.oci_oracle {
            Some(oci) => Ok(ChoiceView::OciOracle(oci)),
            None => Err("OCI Oracle configuration is required when history_backend=oci_oracle"@),
        },
        HistoryBackend::Postgres => match config.postgres {
            Some(postgres) => Ok(
                ChoiceView::Postgres(
                    postgres,
                    redact::logged(redact::parsed_url(postgres.db_url@)),
                ),
            ),
            None => Err("Postgres configuration is required when history_backend=postgres"@),
        },
    }
}

/// Which storages are to be made. A database has to be configured where one is
/// asked for. Its URL is logged without the password, and handed on with it.
pub fn create_storage<'a, O, G>(config: &'a RouterConfig<O, G>) -> (choice: Result<
    StorageChoice<'a, O, G>,
    String,
>)
    requires
        config.history_backend == HistoryBackend::Postgres ==> (config.postgres matches Some(p)
            ==> p.db_url@.len() <= redact::URL_LIMIT),
    ensures
        choice_result_view(choice) == choice_of(*config),
{
    match config.history_backend {
        HistoryBackend::Memory => Ok(StorageChoice::Memory),
        HistoryBackend::NoOp => Ok(StorageChoice::NoOp),
        HistoryBackend::Oracle => match &config.oracle {
            Some(oracle) => Ok(StorageChoice::Oracle(oracle)),
            None => Err(
                "oracle configuration is required when history_backend=oracle".to_owned(),
            ),
        },
        HistoryBackend::OciOracle => match &config.oci_oracle {
            Some(oci) => Ok(StorageChoice::OciOracle(oci)),
            None => Err(
                "OCI Oracle configuration is required when history_backend=oci_oracle".to_owned(),
            ),
        },
        HistoryBackend::Postgres => match &config.postgres {
            Some(postgres) => {
                let log: String = log_db_url(postgres.db_url.as_str());
                Ok(StorageChoice::Postgres(postgres, log))
            },
            None => Err(
                "Postgres configuration is required when history_backend=postgres".to_owned(),
            ),
        },
    }
}

/// Whether two configurations agree on the backend and on what is configured of
/// it.
pub open spec fn agree_on_the_backend<O, G>(a: RouterConfig<O, G>, b: RouterConfig<O, G>) -> bool {
    &&& a.history_backend == b.history_backend
    &&& match a.history_backend {
        HistoryBackend::Memory => true,
        HistoryBackend::NoOp => true,
        HistoryBackend::Oracle => a.oracle == b.oracle,
        HistoryBackend::OciOracle => a.oci_oracle == b.oci_oracle,
        HistoryBackend::Postgres => a.postgres == b.postgres,
    }
}

/// What is configured of a backend that is not asked for does not matter.
pub proof fn other_backends_do_not_matter<O, G>(a: RouterConfig<O, G>, b: RouterConfig<O, G>)
    requires
        agree_on_the_backend(a, b),
    ensures
        choice_of(a) == choice_of(b),
{
}

/// A Postgres URL is logged without its password, and handed on as it is: two
/// configurations whose URLs differ in nothing but the password are logged alike.
pub proof fn password_is_handed_on_and_not_logged<O, G>(
    a: RouterConfig<O, G>,
    b: RouterConfig<O, G>,
    before: Seq<char>,
    after: Seq<char>,
    one: Seq<char>,
    other: Seq<char>,
)
    requires
        a.history_backend == HistoryBackend::Postgres,
        b.history_backend == HistoryBackend::Postgres,
        a.postgres is Some,
        b.postgres is Some,
        redact::parsed_url(a.postgres->0.db_url@) == Some(
            (redact::with_password(before, one, after), Some(one), before, after),
        ),
        redact::parsed_url(b.postgres->0.db_url@) == Some(
            (redact::with_password(before, other, after), Some(other), before, after),
        ),
    ensures
        choice_of(a) matches Ok(ChoiceView::Postgres(cfg_a, log_a)) && choice_of(b) matches Ok(
            ChoiceView::Postgres(cfg_b, log_b),
        ) && log_a == log_b && cfg_a == a.postgres->0 && cfg_b == b.postgres->0,
{
    redact::password_makes_no_difference_to_the_log(before, after, one, other);
}

// ------------------------------------------------------------------- making

/// The three storages: of responses, of conversations and of their items.
pub type Storages<A, B, C> = (Arc<A>, Arc<B>, Arc<C>);

/// Makes the storages in an Oracle database, one after the other, each out of the
/// configuration. The first that cannot be made ends it: none is made before those
/// that come earlier were.
pub fn create_oracle_storage<
    K,
    A,
    B,
    C,
    FA: FnOnce(&K) -> Result<A, String>,
    FB: FnOnce(&K) -> Result<B, String>,
    FC: FnOnce(&K) -> Result<C, String>,
>(
    oracle_cfg: &K,
    responses: FA,
    conversations: FB,
    items: FC,
) -> (storages: Result<Storages<A, B, C>, String>)
    requires
        responses.requires((oracle_cfg,)),
        forall|a: A| #[trigger]
            responses.ensures((oracle_cfg,), Ok(a)) ==> conversations.requires((oracle_cfg,)),
        forall|a: A, b: B| #[trigger]
            responses.ensures((oracle_cfg,), Ok(a)) && #[trigger] conversations.ensures(
                (oracle_cfg,),
                Ok(b),
            ) ==> items.requires((oracle_cfg,)),
    ensures
        match storages {
            Ok((a, b, c)) => {
                &&& responses.ensures((oracle_cfg,), Ok(*a))
                &&& conversations.ensures((oracle_cfg,), Ok(*b))
                &&& items.ensures((oracle_cfg,), Ok(*c))
            },
            Err(e) => {
                ||| exists|x: String|
                    #![trigger responses.ensures((oracle_cfg,), Err(x))]
                    responses.ensures((oracle_cfg,), Err(x)) && e@
                        == "failed to initialize Oracle response storage: "@ + x@
                ||| exists|a: A, x: String|
                    #![trigger
                        responses.ensures((oracle_cfg,), Ok(a)),
                        conversations.ensures((oracle_cfg,), Err(x))
                    ]
                    {
                        &&& responses.ensures((oracle_cfg,), Ok(a))
                        &&& conversations.ensures((oracle_cfg,), Err(x))
                        &&& e@ == "failed to initialize Oracle conversation storage: "@ + x@
                    }
                ||| exists|a: A, b: B, x: String|
                    #![trigger
                        responses.ensures((oracle_cfg,), Ok(a)),
                        conversations.ensures((oracle_cfg,), Ok(b)),
                        items.ensures((oracle_cfg,), Err(x))
                    ]
                    {
                        &&& responses.ensures((oracle_cfg,), Ok(a))
                        &&& conversations.ensures((oracle_cfg,), Ok(b))
                        &&& items.ensures((oracle_cfg,), Err(x))
                        &&& e@ == "failed to initialize Oracle conversation item storage: "@ + x@
                    }
            },
        },
{
    let a: A = match responses(oracle_cfg) {
        Ok(a) => a,
        Err(x) => {
            return Err(joined_text("failed to initialize Oracle response storage: ", x.as_str()));
        },
    };
    let b: B = match conversations(oracle_cfg) {
        Ok(b) => b,
        Err(x) => {
            return Err(
                joined_text("failed to initialize Oracle conversation storage: ", x.as_str()),
            );
        },
    };
    let c: C = match items(oracle_cfg) {
        Ok(c) => c,
        Err(x) => {
            return Err(
                joined_text("failed to initialize Oracle conversation item storage: ", x.as_str()),
            );
        },
    };
    Ok((Arc::new(a), Arc::new(b), Arc::new(c)))
}

/// Makes the storages in a Postgres database: first the store out of the
/// configuration, then each storage out of the store. The first that cannot be
/// made ends it: none is made before those that come earlier were.
pub fn create_postgres_storage<
    K,
    S,
    A,
    B,
    C,
    FS: FnOnce(&K) -> Result<S, String>,
    FA: FnOnce(&S) -> Result<A, String>,
    FB: FnOnce(&S) -> Result<B, String>,
    FC: FnOnce(&S) -> Result<C, String>,
>(
    postgres_cfg: &K,
    new_store: FS,
    responses: FA,
    conversations: FB,
    items: FC,
) -> (storages: Result<Storages<A, B, C>, String>)
    requires
        new_store.requires((postgres_cfg,)),
        forall|s: S| #[trigger]
            new_store.ensures((postgres_cfg,), Ok(s)) ==> responses.requires((&s,)),
        forall|s: S, a: A| #[trigger]
            new_store.ensures((postgres_cfg,), Ok(s)) && #[trigger] responses.ensures((&s,), Ok(a))
                ==> conversations.requires((&s,)),
        forall|s: S, a: A, b: B| #[trigger]
            new_store.ensures((postgres_cfg,), Ok(s)) && #[trigger] responses.ensures((&s,), Ok(a))
                && #[trigger] conversations.ensures((&s,), Ok(b)) ==> items.requires((&s,)),
    ensures
        match storages {
            Ok((a, b, c)) => exists|s: S|
                {
                    &&& #[trigger] new_store.ensures((postgres_cfg,), Ok(s))
                    &&& responses.ensures((&s,), Ok(*a))
                    &&& conversations.ensures((&s,), Ok(*b))
                    &&& items.ensures((&s,), Ok(*c))
                },
            Err(e) => {
                ||| new_store.ensures((postgres_cfg,), Err(e))
                ||| exists|s: S, x: String|
                    {
                        &&& #[trigger] new_store.ensures((postgres_cfg,), Ok(s))
                        &&& #[trigger] responses.ensures((&s,), Err(x))
                        &&& e@ == "failed to initialize Postgres response storage: "@ + x@
                    }
                ||| exists|s: S, a: A, x: String|
                    {
                        &&& #[trigger] new_store.ensures((postgres_cfg,), Ok(s))
                        &&& #[trigger] responses.ensures((&s,), Ok(a))
                        &&& #[trigger] conversations.ensures((&s,), Err(x))
                        &&& e@ == "failed to initialize Postgres conversation storage: "@ + x@
                    }
                ||| exists|s: S, a: A, b: B, x: String|
                    {
                        &&& #[trigger] new_store.ensures((postgres_cfg,), Ok(s))
                        &&& #[trigger] responses.ensures((&s,), Ok(a))
                        &&& #[trigger] conversations.ensures((&s,), Ok(b))
                        &&& #[trigger] items.ensures((&s,), Err(x))
                        &&& e@ == "failed to initialize Postgres conversation item storage: "@ + x@
                    }
            },
        },
{
    let store: S = match new_store(postgres_cfg) {
        Ok(store) => store,
        Err(e) => {
            return Err(e);
        },
    };
    let a: A = match responses(&store) {
        Ok(a) => a,
        Err(x) => {
            return Err(joined_text("failed to initialize Postgres response storage: ", x.as_str()));
        },
    };
    let b: B = match conversations(&store) {
        Ok(b) => b,
        Err(x) => {
            return Err(
                joined_text("failed to initialize Postgres conversation storage: ", x.as_str()),
            );
        },
    };
    let c: C = match items(&store) {
        Ok(c) => c,
        Err(x) => {
            return Err(
                joined_text(
                    "failed to initialize Postgres conversation item storage: ",
                    x.as_str(),
                ),
            );
        },
    };
    Ok((Arc::new(a), Arc::new(b), Arc::new(c)))
}

/// The three storages over one store.
pub type OciStorages<S> = Storages<
    OciOracleResponseStorage<S>,
    OciOracleConversationStorage<S>,
    OciOracleConversationItemStorage<S>,
>;

/// Makes the storages in an Oracle database whose password is a secret of the
/// cloud: gaps in the configuration are filled from the environment, and the
/// store is set up with the agent runtime's schema, which `finish_setup` carries
/// out. All three storages are over that store. Where the gaps cannot be filled, no
/// setup is started.
pub fn create_oci_oracle_storage<P, S, F: FnOnce(StoreSetup<P>) -> Result<S, String>>(
    oci_oracle_cfg: &OciOracleConfig,
    env: &Environment,
    finish_setup: F,
) -> (storages: Result<OciStorages<S>, String>)
    requires
        config::env_defaults(oci_oracle_cfg@, env@) matches Ok(filled) ==> forall|
            s: StoreSetup<P>,
        |
            s@ == setup::setup_start::<P>(
                filled,
                SchemaInitView::Script(script::agent_runtime_script()),
            ) ==> #[trigger] finish_setup.requires((s,)),
    ensures
        match config::env_defaults(oci_oracle_cfg@, env@) {
            Err(reason) => storages matches Err(e) && e@
                == "Failed to configure OCI Oracle from environment: "@ + reason,
            Ok(filled) => exists|s: StoreSetup<P>, made: Result<S, String>|
                {
                    &&& s@ == setup::setup_start::<P>(
                        filled,
                        SchemaInitView::Script(script::agent_runtime_script()),
                    )
                    &&& #[trigger] finish_setup.ensures((s,), made)
                    &&& match made {
                        Ok(store) => storages matches Ok((a, b, c)) && *a.over() == store
                            && *b.over() == store && *c.over() == store,
                        Err(reason) => storages matches Err(e) && e@
                            == "Failed to create OCI Oracle store: "@ + reason@,
                    }
                },
        },
{
    let config: OciOracleConfig = match oci_oracle_cfg.clone().with_env_defaults(env) {
        Ok(config) => config,
        Err(e) => {
            return Err(
                joined_text("Failed to configure OCI Oracle from environment: ", e.as_str()),
            );
        },
    };
    let setup: StoreSetup<P> = OciOracleStore::new_with_agent_runtime_schema(config);
    let store: Arc<S> = match finish_setup(setup) {
        Ok(store) => Arc::new(store),
        Err(e) => {
            return Err(joined_text("Failed to create OCI Oracle store: ", e.as_str()));
        },
    };
    Ok(
        (
            Arc::new(OciOracleResponseStorage::new(store.clone())),
            Arc::new(OciOracleConversationStorage::new(store.clone())),
            Arc::new(OciOracleConversationItemStorage::new(store)),
        ),
    )
}

} // verus!
