//! The storages over a store. They keep nothing yet: what is created is handed
//! back, and nothing is found again.

use std::sync::Arc;

use vstd::prelude::*;

use crate::clock;
use crate::clock::utc_now;
use crate::db::Timestamp;

verus! {

// ---------------------------------------------------------------- responses

/// A response: its identifier, and all the rest.
pub struct StoredResponse<I, B> {
    pub id: I,
    pub body: B,
}

/// A response and those before it.
pub struct ResponseChain<R> {
    pub responses: Vec<R>,
}

impl<R> ResponseChain<R> {
    /// The empty chain.
    pub fn new() -> (chain: Self)
        ensures
            chain.responses@ == Seq::<R>::empty(),
    {
        ResponseChain { responses: Vec::new() }
    }
}

/// Responses over a store.
pub struct OciOracleResponseStorage<S> {
    store: Arc<S>,
}

impl<S> OciOracleResponseStorage<S> {
    /// The store that it is over.
    pub closed spec fn over(self) -> Arc<S> {
        self.store
    }

    /// Responses over `store`.
    pub fn new(store: Arc<S>) -> (storage: Self)
        ensures
            storage.over() == store,
    {
        OciOracleResponseStorage { store }
    }

    /// The store that it is over.
    pub fn store(&self) -> (store: &Arc<S>)
        ensures
            *store == self.over(),
    {
        &self.store
    }

    /// Takes a response: its identifier comes back.
    pub fn store_response<I, B>(&self, response: StoredResponse<I, B>) -> (id: Result<I, String>)
        ensures
            id == Ok::<I, String>(response.id),
    {
        Ok(response.id)
    }

    /// No response is found.
    pub fn get_response<I, B>(&self, response_id: &I) -> (found: Result<
        Option<StoredResponse<I, B>>,
        String,
    >)
        ensures
            found == Ok::<Option<StoredResponse<I, B>>, String>(None),
    {
        Ok(None)
    }

    /// To delete a response succeeds.
    pub fn delete_response<I>(&self, response_id: &I) -> (deleted: Result<(), String>)
        ensures
            deleted == Ok::<(), String>(()),
    {
        Ok(())
    }

    /// The chain of a response is empty.
    pub fn get_response_chain<I, R>(&self, response_id: &I, max_depth: Option<usize>) -> (chain:
        Result<ResponseChain<R>, String>)
        ensures
            chain matches Ok(c) && c.responses@ == Seq::<R>::empty(),
    {
        Ok(ResponseChain::new())
    }

    /// There are no responses of an identifier.
    pub fn list_identifier_responses<R>(&self, identifier: &str, limit: Option<usize>) -> (found:
        Result<Vec<R>, String>)
        ensures
            found matches Ok(v) && v@ == Seq::<R>::empty(),
    {
        Ok(Vec::new())
    }

    /// No response of an identifier is deleted.
    pub fn delete_identifier_responses(&self, identifier: &str) -> (deleted: Result<usize, String>)
        ensures
            deleted == Ok::<usize, String>(0),
    {
        Ok(0)
    }
}

// ------------------------------------------------------------ conversations

/// Conversations over a store.
pub struct OciOracleConversationStorage<S> {
    store: Arc<S>,
}

impl<S> OciOracleConversationStorage<S> {
    /// The store that it is over.
    pub closed spec fn over(self) -> Arc<S> {
        self.store
    }

    /// Conversations over `store`.
    pub fn new(store: Arc<S>) -> (storage: Self)
        ensures
            storage.over() == store,
    {
        OciOracleConversationStorage { store }
    }

    /// The store that it is over.
    pub fn store(&self) -> (store: &Arc<S>)
        ensures
            *store == self.over(),
    {
        &self.store
    }

    /// Makes a conversation out of `input` and hands it back.
    pub fn create_conversation<N, C, M: FnOnce(N) -> C>(&self, input: N, make: M) -> (created:
        Result<C, String>)
        requires
            make.requires((input,)),
        ensures
            created matches Ok(c) && make.ensures((input,), c),
    {
        Ok(make(input))
    }

    /// No conversation is found.
    pub fn get_conversation<I, C>(&self, id: &I) -> (found: Result<Option<C>, String>)
        ensures
            found == Ok::<Option<C>, String>(None),
    {
        Ok(None)
    }

    /// No conversation is found to update.
    pub fn update_conversation<I, M, C>(&self, id: &I, metadata: Option<M>) -> (updated: Result<
        Option<C>,
        String,
    >)
        ensures
            updated == Ok::<Option<C>, String>(None),
    {
        Ok(None)
    }

    /// To delete a conversation succeeds.
    pub fn delete_conversation<I>(&self, id: &I) -> (deleted: Result<bool, String>)
        ensures
            deleted == Ok::<bool, String>(true),
    {
        Ok(true)
    }
}

// -------------------------------------------------------------------- items

/// An item of a conversation that is to be created. `C` is its content.
pub struct NewConversationItem<I, C> {
    pub id: Option<I>,
    pub response_id: Option<String>,
    pub item_type: String,
    pub role: Option<String>,
    pub content: C,
    pub status: Option<String>,
}

/// An item of a conversation.
pub struct ConversationItem<I, C> {
    pub id: I,
    pub response_id: Option<String>,
    pub item_type: String,
    pub role: Option<String>,
    pub content: C,
    pub status: Option<String>,
    pub created_at: Timestamp,
}

/// The item that is created: it has the identifier that was asked for, or else
/// `id`, and otherwise what was asked for.
pub open spec fn created_item<I, C>(
    item: NewConversationItem<I, C>,
    id: I,
    now: Timestamp,
) -> ConversationItem<I, C> {
    ConversationItem {
        id: match item.id {
            Some(given) => given,
            None => id,
        },
        response_id: item.response_id,
        item_type: item.item_type,
        role: item.role,
        content: item.content,
        status: item.status,
        created_at: now,
    }
}

/// Items of conversations over a store.
pub struct OciOracleConversationItemStorage<S> {
    store: Arc<S>,
}

impl<S> OciOracleConversationItemStorage<S> {
    /// The store that it is over.
    pub closed spec fn over(self) -> Arc<S> {
        self.store
    }

    /// Items over `store`.
    pub fn new(store: Arc<S>) -> (storage: Self)
        ensures
            storage.over() == store,
    {
        OciOracleConversationItemStorage { store }
    }

    /// The store that it is over.
    pub fn store(&self) -> (store: &Arc<S>)
        ensures
            *store == self.over(),
    {
        &self.store
    }

    /// Creates an item, the time being `now`, and hands it back. Where it comes
    /// without an identifier, one is made for its type.
    pub fn create_item_at<I, C, M: FnOnce(&str) -> I>(
        &self,
        item: NewConversationItem<I, C>,
        make_item_id: M,
        now: Timestamp,
    ) -> (created: Result<ConversationItem<I, C>, String>)
        requires
            item.id is None ==> forall|item_type: &str|
                item_type@ == item.item_type@ ==> #[trigger] make_item_id.requires((item_type,)),
        ensures
            created matches Ok(c) && match item.id {
                Some(id) => c == created_item(item, id, now),
                None => exists|item_type: &str, id: I|
                    {
                        &&& item_type@ == item.item_type@
                        &&& #[trigger] make_item_id.ensures((item_type,), id)
                        &&& c == created_item(item, id, now)
                    },
            },
    {
        let id: I = match item.id {
            Some(id) => id,
            None => make_item_id(item.item_type.as_str()),
        };
        Ok(
            ConversationItem {
                id,
                response_id: item.response_id,
                item_type: item.item_type,
                role: item.role,
                content: item.content,
                status: item.status,
                created_at: now,
            },
        )
    }

    /// Creates an item, as of the clock, and hands it back.
    pub fn create_item<I, C, M: FnOnce(&str) -> I>(
        &self,
        item: NewConversationItem<I, C>,
        make_item_id: M,
    ) -> (created: Result<ConversationItem<I, C>, String>)
        requires
            item.id is None ==> forall|item_type: &str|
                item_type@ == item.item_type@ ==> #[trigger] make_item_id.requires((item_type,)),
        ensures
            created matches Ok(c) && clock::is_moment(c.created_at) && match item.id {
                Some(id) => c == created_item(item, id, c.created_at),
                None => exists|item_type: &str, id: I|
                    {
                        &&& item_type@ == item.item_type@
                        &&& #[trigger] make_item_id.ensures((item_type,), id)
                        &&& c == created_item(item, id, c.created_at)
                    },
            },
    {
        let now: Timestamp = utc_now();
        self.create_item_at(item, make_item_id, now)
    }

    /// To link an item succeeds.
    pub fn link_item<V, I>(&self, conversation_id: &V, item_id: &I, added_at: Timestamp) -> (linked:
        Result<(), String>)
        ensures
            linked == Ok::<(), String>(()),
    {
        Ok(())
    }

    /// There are no items.
    pub fn list_items<V, L, R>(&self, conversation_id: &V, params: L) -> (found: Result<
        Vec<R>,
        String,
    >)
        ensures
            found matches Ok(v) && v@ == Seq::<R>::empty(),
    {
        Ok(Vec::new())
    }

    /// No item is found.
    pub fn get_item<I, R>(&self, item_id: &I) -> (found: Result<Option<R>, String>)
        ensures
            found == Ok::<Option<R>, String>(None),
    {
        Ok(None)
    }

    /// No item is linked.
    pub fn is_item_linked<V, I>(&self, conversation_id: &V, item_id: &I) -> (linked: Result<
        bool,
        String,
    >)
        ensures
            linked == Ok::<bool, String>(false),
    {
        Ok(false)
    }

    /// To delete an item succeeds.
    pub fn delete_item<V, I>(&self, conversation_id: &V, item_id: &I) -> (deleted: Result<
        (),
        String,
    >)
        ensures
            deleted == Ok::<(), String>(()),
    {
        Ok(())
    }
}

} // verus!
