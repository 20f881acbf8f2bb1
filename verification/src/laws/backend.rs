//! Laws of the choice of storages and of what is logged of it.

use vstd::prelude::*;

use crate::db::Timestamp;
use crate::factory::{choice_of, ChoiceView, HistoryBackend, RouterConfig};
use crate::redact::{logged, parsed_url, redacted};
use crate::storage::{created_item, NewConversationItem};

verus! {

/// Storages in memory and those that keep nothing need no configuration.
pub proof fn simple_storages_need_no_configuration<O, G>(config: RouterConfig<O, G>)
    ensures
        config.history_backend == HistoryBackend::Memory ==> choice_of(config) == Ok::<
            ChoiceView<O, G>,
            Seq<char>,
        >(ChoiceView::Memory),
        config.history_backend == HistoryBackend::NoOp ==> choice_of(config) == Ok::<
            ChoiceView<O, G>,
            Seq<char>,
        >(ChoiceView::NoOp),
{
}

/// Storages in a database are made out of the configuration of that database, and
/// where that is missing it is asked for.
pub proof fn database_has_to_be_configured<O, G>(config: RouterConfig<O, G>)
    ensures
        config.history_backend == HistoryBackend::Oracle ==> (match config.oracle {
            Some(oracle) => choice_of(config) == Ok::<ChoiceView<O, G>, Seq<char>>(
                ChoiceView::Oracle(oracle),
            ),
            None => choice_of(config) == Err::<ChoiceView<O, G>, Seq<char>>(
                "oracle configuration is required when history_backend=oracle"@,
            ),
        }),
        config.history_backend == HistoryBackend::OciOracle ==> (match config.oci_oracle {
            Some(oci) => choice_of(config) == Ok::<ChoiceView<O, G>, Seq<char>>(
                ChoiceView::OciOracle(oci),
            ),
            None => choice_of(config) == Err::<ChoiceView<O, G>, Seq<char>>(
                "OCI Oracle configuration is required when history_backend=oci_oracle"@,
            ),
        }),
        config.history_backend == HistoryBackend::Postgres ==> (match config.postgres {
            Some(postgres) => choice_of(config) matches Ok(ChoiceView::Postgres(cfg, log)) && cfg
                == postgres && log == logged(parsed_url(postgres.db_url@)),
            None => choice_of(config) == Err::<ChoiceView<O, G>, Seq<char>>(
                "Postgres configuration is required when history_backend=postgres"@,
            ),
        }),
{
}

/// Of a text that is no URL nothing is logged; a URL without password is logged as
/// it is; and four asterisks stand where the password of a URL stood.
pub proof fn asterisks_stand_for_the_password(
    text: Seq<char>,
    password: Seq<char>,
    before: Seq<char>,
    after: Seq<char>,
)
    ensures
        logged(None) == seq!['<', 'r', 'e', 'd', 'a', 'c', 't', 'e', 'd', '>'],
        logged(Some((text, None, before, after))) == text,
        logged(Some((text, Some(password), before, after))) == before + seq![
            ':',
            '*',
            '*',
            '*',
            '*',
            '@',
        ] + after,
{
    reveal_strlit("<redacted>");
    reveal_strlit("****");
    assert(logged(None) =~= seq!['<', 'r', 'e', 'd', 'a', 'c', 't', 'e', 'd', '>']);
    assert(logged(Some((text, Some(password), before, after))) =~= before + seq![
        ':',
        '*',
        '*',
        '*',
        '*',
        '@',
    ] + after);
}

/// The masked text takes the place of a URL's own exactly if the URL has a password
/// and could be given the mask for it.
pub proof fn masked_text_is_logged_in_place_of_a_password(
    url: (Seq<char>, Option<Seq<char>>, Seq<char>, Seq<char>),
    masked: Option<(Seq<char>, Option<Seq<char>>, Seq<char>, Seq<char>)>,
)
    ensures
        redacted(None, masked) == "<redacted>"@,
        url.1 is None ==> redacted(Some(url), masked) == url.0,
        masked is None ==> redacted(Some(url), masked) == url.0,
        url.1 is Some ==> (masked matches Some(m) ==> redacted(Some(url), masked) == m.0),
{
}

/// An item is created with all that was asked for; an identifier that was asked for
/// is kept, and the new one is used where there was none.
pub proof fn created_item_has_what_was_asked_for<I, C>(
    item: NewConversationItem<I, C>,
    id: I,
    now: Timestamp,
)
    ensures
        item.id matches Some(given) ==> created_item(item, id, now).id == given,
        item.id is None ==> created_item(item, id, now).id == id,
        created_item(item, id, now).response_id == item.response_id,
        created_item(item, id, now).item_type == item.item_type,
        created_item(item, id, now).role == item.role,
        created_item(item, id, now).content == item.content,
        created_item(item, id, now).status == item.status,
        created_item(item, id, now).created_at == now,
{
}

} // verus!
