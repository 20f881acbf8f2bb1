//! Laws of the storages.

use std::sync::Arc;

use vstd::prelude::*;

use crate::config::{lookup, Environment, OciOracleConfig};
use crate::db::Timestamp;
use crate::factory::{
    create_oci_oracle_storage, create_oracle_storage, create_postgres_storage, create_storage,
    HistoryBackend, OciStorages, RouterConfig, StorageChoice, Storages,
};
use crate::redact::{logged, parsed_url};
use crate::setup::StoreSetup;
use crate::storage::{
    created_item, ConversationItem, NewConversationItem, OciOracleConversationItemStorage,
    OciOracleConversationStorage, OciOracleResponseStorage, ResponseChain, StoredResponse,
};

verus! {

// ---------------------------------------------------------------- responses

/// A response that is stored gives its identifier back, and is not found again.
pub proof fn responses_are_not_kept<S, I, B, R>(
    storage: OciOracleResponseStorage<S>,
    response: StoredResponse<I, B>,
    id: I,
    max_depth: Option<usize>,
    identifier: &str,
    limit: Option<usize>,
    stored: Result<I, String>,
    found: Result<Option<StoredResponse<I, B>>, String>,
    deleted: Result<(), String>,
    chain: Result<ResponseChain<R>, String>,
    listed: Result<Vec<R>, String>,
    count: Result<usize, String>,
)
    requires
        call_ensures(
            OciOracleResponseStorage::<S>::store_response::<I, B>,
            (&storage, response),
            stored,
        ),
        call_ensures(OciOracleResponseStorage::<S>::get_response::<I, B>, (&storage, &id), found),
        call_ensures(OciOracleResponseStorage::<S>::delete_response::<I>, (&storage, &id), deleted),
        call_ensures(
            OciOracleResponseStorage::<S>::get_response_chain::<I, R>,
            (&storage, &id, max_depth),
            chain,
        ),
        call_ensures(
            OciOracleResponseStorage::<S>::list_identifier_responses::<R>,
            (&storage, identifier, limit),
            listed,
        ),
        call_ensures(
            OciOracleResponseStorage::<S>::delete_identifier_responses,
            (&storage, identifier),
            count,
        ),
    ensures
        stored == Ok::<I, String>(response.id),
        found matches Ok(None),
        deleted is Ok,
        chain matches Ok(c) && c.responses@.len() == 0,
        listed matches Ok(l) && l@.len() == 0,
        count matches Ok(n) && n == 0,
{
}

// ------------------------------------------------------------ conversations

/// A conversation that is created is handed back, and is not found again.
pub proof fn conversations_are_not_kept<S, N, C, M: FnOnce(N) -> C, I, D>(
    storage: OciOracleConversationStorage<S>,
    input: N,
    make: M,
    id: I,
    metadata: Option<D>,
    created: Result<C, String>,
    found: Result<Option<C>, String>,
    updated: Result<Option<C>, String>,
    deleted: Result<bool, String>,
)
    requires
        call_ensures(
            OciOracleConversationStorage::<S>::create_conversation::<N, C, M>,
            (&storage, input, make),
            created,
        ),
        call_ensures(
            OciOracleConversationStorage::<S>::get_conversation::<I, C>,
            (&storage, &id),
            found,
        ),
        call_ensures(
            OciOracleConversationStorage::<S>::update_conversation::<I, D, C>,
            (&storage, &id, metadata),
            updated,
        ),
        call_ensures(
            OciOracleConversationStorage::<S>::delete_conversation::<I>,
            (&storage, &id),
            deleted,
        ),
    ensures
        created matches Ok(c) && make.ensures((input,), c),
        found matches Ok(None),
        updated matches Ok(None),
        deleted matches Ok(d) && d,
{
}

// -------------------------------------------------------------------- items

/// Items are not found, not listed and not linked, whatever was linked.
pub proof fn items_are_not_kept<S, V, I, L, R>(
    storage: OciOracleConversationItemStorage<S>,
    conversation_id: V,
    item_id: I,
    params: L,
    added_at: Timestamp,
    linked: Result<(), String>,
    listed: Result<Vec<R>, String>,
    found: Result<Option<R>, String>,
    is_linked: Result<bool, String>,
    deleted: Result<(), String>,
)
    requires
        call_ensures(
            OciOracleConversationItemStorage::<S>::link_item::<V, I>,
            (&storage, &conversation_id, &item_id, added_at),
            linked,
        ),
        call_ensures(
            OciOracleConversationItemStorage::<S>::list_items::<V, L, R>,
            (&storage, &conversation_id, params),
            listed,
        ),
        call_ensures(
            OciOracleConversationItemStorage::<S>::get_item::<I, R>,
            (&storage, &item_id),
            found,
        ),
        call_ensures(
            OciOracleConversationItemStorage::<S>::is_item_linked::<V, I>,
            (&storage, &conversation_id, &item_id),
            is_linked,
        ),
        call_ensures(
            OciOracleConversationItemStorage::<S>::delete_item::<V, I>,
            (&storage, &conversation_id, &item_id),
            deleted,
        ),
    ensures
        linked is Ok,
        listed matches Ok(l) && l@.len() == 0,
        found matches Ok(None),
        is_linked matches Ok(b) && !b,
        deleted is Ok,
{
}

/// An item is created with all that was asked for and the time; one that comes
/// without an identifier gets one that was made for its type.
pub proof fn item_is_created_as_asked_for<S, I, C, M: FnOnce(&str) -> I>(
    storage: OciOracleConversationItemStorage<S>,
    item: NewConversationItem<I, C>,
    make_item_id: M,
    now: Timestamp,
    created: Result<ConversationItem<I, C>, String>,
)
    requires
        call_ensures(
            OciOracleConversationItemStorage::<S>::create_item_at::<I, C, M>,
            (&storage, item, make_item_id, now),
            created,
        ),
    ensures
        created matches Ok(c) && {
            &&& c.response_id == item.response_id
            &&& c.item_type == item.item_type
            &&& c.role == item.role
            &&& c.content == item.content
            &&& c.status == item.status
            &&& c.created_at == now
            &&& item.id matches Some(id) ==> c.id == id
            &&& item.id is None ==> exists|item_type: &str|
                item_type@ == item.item_type@ && #[trigger] make_item_id.ensures(
                    (item_type,),
                    c.id,
                )
        },
{
    if let Ok(c) = created {
        if item.id is None {
            let (item_type, id) = choose|item_type: &str, id: I|
                {
                    &&& item_type@ == item.item_type@
                    &&& #[trigger] make_item_id.ensures((item_type,), id)
                    &&& c == created_item(item, id, now)
                };
            assert(make_item_id.ensures((item_type,), c.id));
        }
    }
}

/// An item that is created by the clock differs in nothing but the time, which lies
/// at or after 1970.
pub proof fn item_is_created_by_the_clock<S, I, C, M: FnOnce(&str) -> I>(
    storage: OciOracleConversationItemStorage<S>,
    item: NewConversationItem<I, C>,
    make_item_id: M,
    created: Result<ConversationItem<I, C>, String>,
)
    requires
        call_ensures(
            OciOracleConversationItemStorage::<S>::create_item::<I, C, M>,
            (&storage, item, make_item_id),
            created,
        ),
    ensures
        created matches Ok(c) && {
            &&& c.response_id == item.response_id
            &&& c.item_type == item.item_type
            &&& c.role == item.role
            &&& c.content == item.content
            &&& c.status == item.status
            &&& c.created_at.secs >= 0
            &&& c.created_at.nanos < 1_000_000_000
            &&& item.id matches Some(id) ==> c.id == id
            &&& item.id is None ==> exists|item_type: &str|
                item_type@ == item.item_type@ && #[trigger] make_item_id.ensures(
                    (item_type,),
                    c.id,
                )
        },
{
    if let Ok(c) = created {
        if item.id is None {
            let (item_type, id) = choose|item_type: &str, id: I|
                {
                    &&& item_type@ == item.item_type@
                    &&& #[trigger] make_item_id.ensures((item_type,), id)
                    &&& c == created_item(item, id, c.created_at)
                };
            assert(make_item_id.ensures((item_type,), c.id));
        }
    }
}

/// The three storages are over the store that they were given.
pub proof fn storages_are_over_their_store<'a, S>(
    store: Arc<S>,
    responses: OciOracleResponseStorage<S>,
    conversations: OciOracleConversationStorage<S>,
    items: OciOracleConversationItemStorage<S>,
    a: &'a Arc<S>,
    b: &'a Arc<S>,
    c: &'a Arc<S>,
)
    requires
        call_ensures(OciOracleResponseStorage::<S>::new, (store,), responses),
        call_ensures(OciOracleConversationStorage::<S>::new, (store,), conversations),
        call_ensures(OciOracleConversationItemStorage::<S>::new, (store,), items),
        call_ensures(OciOracleResponseStorage::<S>::store, (&responses,), a),
        call_ensures(OciOracleConversationStorage::<S>::store, (&conversations,), b),
        call_ensures(OciOracleConversationItemStorage::<S>::store, (&items,), c),
    ensures
        *a == store,
        *b == store,
        *c == store,
{
}

// ------------------------------------------------------------------- choice

/// The configured backend is chosen, with its own configuration; a database that is
/// not configured is asked for.
pub proof fn configured_backend_is_chosen<'a, O, G>(
    config: &'a RouterConfig<O, G>,
    choice: Result<StorageChoice<'a, O, G>, String>,
)
    requires
        call_ensures(create_storage::<O, G>, (config,), choice),
    ensures
        match config.history_backend {
            HistoryBackend::Memory => choice matches Ok(StorageChoice::Memory),
            HistoryBackend::NoOp => choice matches Ok(StorageChoice::NoOp),
            HistoryBackend::Oracle => match config.oracle {
                Some(cfg) => choice matches Ok(StorageChoice::Oracle(c)) && *c == cfg,
                None => choice matches Err(e) && e@
                    == "oracle configuration is required when history_backend=oracle"@,
            },
            HistoryBackend::OciOracle => match config.oci_oracle {
                Some(cfg) => choice matches Ok(StorageChoice::OciOracle(c)) && *c == cfg,
                None => choice matches Err(e) && e@
                    == "OCI Oracle configuration is required when history_backend=oci_oracle"@,
            },
            HistoryBackend::Postgres => match config.postgres {
                Some(cfg) => choice matches Ok(StorageChoice::Postgres(c, log)) && *c == cfg && log@
                    == logged(parsed_url(cfg.db_url@)),
                None => choice matches Err(e) && e@
                    == "Postgres configuration is required when history_backend=postgres"@,
            },
        },
{
}

/// Of the storages in an Oracle database the first that cannot be made is reported;
/// where all can be made, there are three.
pub proof fn first_oracle_storage_that_fails_is_reported<
    K,
    A,
    B,
    C,
    FA: FnOnce(&K) -> Result<A, String>,
    FB: FnOnce(&K) -> Result<B, String>,
    FC: FnOnce(&K) -> Result<C, String>,
>(
    cfg: &K,
    responses: FA,
    conversations: FB,
    items: FC,
    error: String,
    storages: Result<Storages<A, B, C>, String>,
)
    requires
        call_ensures(
            create_oracle_storage::<K, A, B, C, FA, FB, FC>,
            (cfg, responses, conversations, items),
            storages,
        ),
    ensures
        ({
            let a_fails = forall|r: Result<A, String>| #[trigger]
                responses.ensures((cfg,), r) ==> r == Err::<A, String>(error);
            let b_fails = forall|r: Result<B, String>| #[trigger]
                conversations.ensures((cfg,), r) ==> r == Err::<B, String>(error);
            let c_fails = forall|r: Result<C, String>| #[trigger]
                items.ensures((cfg,), r) ==> r == Err::<C, String>(error);
            let a_is_made = forall|r: Result<A, String>| #[trigger]
                responses.ensures((cfg,), r) ==> r is Ok;
            let b_is_made = forall|r: Result<B, String>| #[trigger]
                conversations.ensures((cfg,), r) ==> r is Ok;
            let c_is_made = forall|r: Result<C, String>| #[trigger]
                items.ensures((cfg,), r) ==> r is Ok;
            &&& a_fails ==> (storages matches Err(e) && e@
                == "failed to initialize Oracle response storage: "@ + error@)
            &&& a_is_made && b_fails ==> (storages matches Err(e) && e@
                == "failed to initialize Oracle conversation storage: "@ + error@)
            &&& a_is_made && b_is_made && c_fails ==> (storages matches Err(e) && e@
                == "failed to initialize Oracle conversation item storage: "@ + error@)
            &&& a_is_made && b_is_made && c_is_made ==> storages is Ok
        }),
{
}

/// Of the storages in a Postgres database the first that cannot be made is reported,
/// and so is a store that cannot be made, in its own words; where all can be made,
/// there are three.
pub proof fn first_postgres_storage_that_fails_is_reported<
    K,
    S,
    A,
    B,
    C,
    FS: FnOnce(&K) -> Result<S, String>,
    FA: FnOnce(&S) -> Result<A, String>,
    FB: FnOnce(&S) -> Result<B, String>,
    FC: FnOnce(&S) -> Result<C, String>,
>(
    cfg: &K,
    new_store: FS,
    responses: FA,
    conversations: FB,
    items: FC,
    store: S,
    error: String,
    storages: Result<Storages<A, B, C>, String>,
)
    requires
        call_ensures(
            create_postgres_storage::<K, S, A, B, C, FS, FA, FB, FC>,
            (cfg, new_store, responses, conversations, items),
            storages,
        ),
    ensures
        ({
            let no_store = forall|r: Result<S, String>| #[trigger]
                new_store.ensures((cfg,), r) ==> r == Err::<S, String>(error);
            let one_store = forall|r: Result<S, String>| #[trigger]
                new_store.ensures((cfg,), r) ==> r == Ok::<S, String>(store);
            let a_fails = forall|r: Result<A, String>| #[trigger]
                responses.ensures((&store,), r) ==> r == Err::<A, String>(error);
            let b_fails = forall|r: Result<B, String>| #[trigger]
                conversations.ensures((&store,), r) ==> r == Err::<B, String>(error);
            let c_fails = forall|r: Result<C, String>| #[trigger]
                items.ensures((&store,), r) ==> r == Err::<C, String>(error);
            let a_is_made = forall|r: Result<A, String>| #[trigger]
                responses.ensures((&store,), r) ==> r is Ok;
            let b_is_made = forall|r: Result<B, String>| #[trigger]
                conversations.ensures((&store,), r) ==> r is Ok;
            let c_is_made = forall|r: Result<C, String>| #[trigger]
                items.ensures((&store,), r) ==> r is Ok;
            &&& no_store ==> (storages matches Err(e) && e == error)
            &&& one_store && a_fails ==> (storages matches Err(e) && e@
                == "failed to initialize Postgres response storage: "@ + error@)
            &&& one_store && a_is_made && b_fails ==> (storages matches Err(e) && e@
                == "failed to initialize Postgres conversation storage: "@ + error@)
            &&& one_store && a_is_made && b_is_made && c_fails ==> (storages matches Err(e) && e@
                == "failed to initialize Postgres conversation item storage: "@ + error@)
            &&& one_store && a_is_made && b_is_made && c_is_made ==> storages is Ok
        }),
{
}

/// Where the environment does not fill the gaps in the configuration, that is
/// reported; a store that cannot be made is reported too, and with a store the three
/// storages are over it.
pub proof fn oci_storages_are_over_the_store<P, S, F: FnOnce(StoreSetup<P>) -> Result<S, String>>(
    config: &OciOracleConfig,
    env: &Environment,
    finish_setup: F,
    storages: Result<OciStorages<S>, String>,
    store: S,
    error: String,
)
    requires
        call_ensures(
            create_oci_oracle_storage::<P, S, F>,
            (config, env, finish_setup),
            storages,
        ),
    ensures
        ({
            let user = config.username@.len() > 0 || lookup(env@, "OCI_DB_USERNAME"@) is Ok
                || lookup(env@, "DB_USER"@) is Ok;
            let descriptor = config.connect_descriptor@.len() > 0 || lookup(
                env@,
                "OCI_DB_CONNECT_DESCRIPTOR"@,
            ) is Ok || lookup(env@, "DB_CONNECT_STRING"@) is Ok;
            let no_store = forall|s: StoreSetup<P>, r: Result<S, String>| #[trigger]
                finish_setup.ensures((s,), r) ==> r == Err::<S, String>(error);
            let one_store = forall|s: StoreSetup<P>, r: Result<S, String>| #[trigger]
                finish_setup.ensures((s,), r) ==> r == Ok::<S, String>(store);
            &&& !user ==> (storages matches Err(e) && (lookup(
                env@,
                "DB_USER"@,
            ) matches Err(reason) ==> e@ == "Failed to configure OCI Oracle from environment: "@ + (
            "Neither OCI_DB_USERNAME nor DB_USER is set: "@ + reason)))
            &&& user && !descriptor ==> (storages matches Err(e) && (lookup(
                env@,
                "DB_CONNECT_STRING"@,
            ) matches Err(reason) ==> e@ == "Failed to configure OCI Oracle from environment: "@ + (
            "Neither OCI_DB_CONNECT_DESCRIPTOR nor DB_CONNECT_STRING is set: "@ + reason)))
            &&& user && descriptor && no_store ==> (storages matches Err(e) && e@
                == "Failed to create OCI Oracle store: "@ + error@)
            &&& user && descriptor && one_store ==> (storages matches Ok((a, b, c)) && *a.over()
                == store && *b.over() == store && *c.over() == store)
        }),
{
}

} // verus!
