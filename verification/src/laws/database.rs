//! Laws of what is said to the database and of what comes back from it.

use vstd::prelude::*;

use crate::db::{
    has_code, oracle_error_text, plain_call, text_call, Bind, BindView, OracleConnectParams,
    OracleError, OracleErrorView, SqlCall, SqlCallView,
};
use crate::migrations::{read_fault_text, FileFault, MigrationFile, ReadFault};
use crate::numbers::decimal;
use crate::protocol::{
    answers, effects_of, entry_views, executions, DirEntry, Effect, Entry, Listing, ListingView,
    Reply, ReplyView, Request, RequestView,
};

verus! {

// ------------------------------------------------------------------- errors

/// An error of the database is reported by its number and its message; any other
/// error in the client's words.
pub proof fn errors_are_reported_by_number_and_message(
    code: i32,
    message: Seq<char>,
    words: Seq<char>,
)
    ensures
        oracle_error_text(OracleErrorView { db_error: Some((code, message)), text: words })
            == "Oracle error (code "@ + decimal(code as int) + "): "@ + message,
        oracle_error_text(OracleErrorView { db_error: None, text: words }) == words,
{
}

/// An error has one of some numbers exactly if it came from the database and its
/// number is among them.
pub proof fn only_database_errors_have_numbers(err: OracleErrorView, codes: Seq<i32>)
    ensures
        err.db_error is None ==> !has_code(err, codes),
        err.db_error matches Some((code, _)) ==> (has_code(err, codes) <==> exists|i: int|
            0 <= i < codes.len() && #[trigger] codes[i] == code),
{
}

/// The view of an error shows number, message and wording.
pub proof fn error_is_seen_whole(err: OracleError)
    ensures
        err@.text == err.text@,
        err@.db_error is None <==> err.db_error is None,
        err.db_error matches Some(e) ==> err@.db_error == Some((e.code, e.message@)),
{
}

// -------------------------------------------------------------------- calls

/// The view of a statement shows its text and each value bound, in order.
pub proof fn statement_is_seen_whole(call: SqlCall)
    ensures
        call@.sql == call.sql@,
        call@.binds.len() == call.binds@.len(),
        forall|i: int|
            0 <= i < call.binds@.len() ==> #[trigger] call@.binds[i] == (match call.binds@[i] {
                Bind::Text(s) => BindView::Text(s@),
                Bind::Int(n) => BindView::Int(n),
                Bind::Time(t) => BindView::Time(t),
            }),
{
}

/// A statement has the text that it was made of, with nothing bound or one text.
pub proof fn statement_is_made_of_its_text(sql: Seq<char>, text: Seq<char>)
    ensures
        plain_call(sql).sql == sql,
        plain_call(sql).binds.len() == 0,
        text_call(sql, text).sql == sql,
        text_call(sql, text).binds.len() == 1,
        text_call(sql, text).binds[0] == BindView::Text(text),
{
}

/// The view of what a connection is opened with shows each field.
pub proof fn connect_params_are_seen_whole(params: OracleConnectParams)
    ensures
        params@.username == params.username@,
        params@.password == params.password@,
        params@.connect_descriptor == params.connect_descriptor@,
{
}

// ----------------------------------------------------- requests and replies

/// The view of a request says what is asked for, and of what.
pub proof fn request_is_seen_whole<'a, P>(call: &'a SqlCall, text: &'a str, path: &'a P)
    ensures
        Request::<'a, P>::Count(call)@ == RequestView::<P>::Count(call@),
        Request::<'a, P>::FirstColumn(call)@ == RequestView::<P>::FirstColumn(call@),
        Request::<'a, P>::Execute(call)@ == RequestView::<P>::Execute(call@),
        Request::<'a, P>::Commit@ == RequestView::<P>::Commit,
        Request::<'a, P>::ListDir(text)@ == RequestView::<P>::ListDir(text@),
        Request::<'a, P>::ReadBytes(path)@ == RequestView::<P>::ReadBytes(*path),
        Request::<'a, P>::ReadText(path)@ == RequestView::<P>::ReadText(*path),
        Request::<'a, P>::Done@ == RequestView::<P>::Done,
        Request::<'a, P>::Failed(text)@ == RequestView::<P>::Failed(text@),
{
}

/// The view of a reply that succeeded shows what came back.
pub proof fn successful_reply_is_seen_whole<P>(
    n: i64,
    column: Option<Option<i64>>,
    bytes: Vec<u8>,
    text: String,
)
    ensures
        Reply::<P>::Count(Ok(n))@ == ReplyView::<P>::Count(Ok(n)),
        Reply::<P>::FirstColumn(Ok(column))@ == ReplyView::<P>::FirstColumn(Ok(column)),
        Reply::<P>::Executed(Ok(()))@ == ReplyView::<P>::Executed(Ok(())),
        Reply::<P>::Committed(Ok(()))@ == ReplyView::<P>::Committed(Ok(())),
        Reply::<P>::Bytes(Ok(bytes))@ == ReplyView::<P>::Bytes(Ok(bytes@)),
        Reply::<P>::Text(Ok(text))@ == ReplyView::<P>::Text(Ok(text@)),
{
}

/// The view of a reply that failed shows why.
pub proof fn failed_reply_is_seen_whole<P>(err: OracleError, fault: FileFault)
    ensures
        Reply::<P>::Count(Err(err))@ == ReplyView::<P>::Count(Err(err@)),
        Reply::<P>::FirstColumn(Err(err))@ == ReplyView::<P>::FirstColumn(Err(err@)),
        Reply::<P>::Executed(Err(err))@ == ReplyView::<P>::Executed(Err(err@)),
        Reply::<P>::Committed(Err(err))@ == ReplyView::<P>::Committed(Err(err@)),
        Reply::<P>::Text(Err(fault))@ == ReplyView::<P>::Text(
            Err((fault.path@, fault.error@)),
        ),
        Reply::<P>::Bytes(Err(ReadFault::Open(fault)))@ == ReplyView::<P>::Bytes(
            Err("open "@ + fault.path@ + " failed: "@ + fault.error@),
        ),
        Reply::<P>::Bytes(Err(ReadFault::Read(fault)))@ == ReplyView::<P>::Bytes(
            Err("read "@ + fault.path@ + " failed: "@ + fault.error@),
        ),
        read_fault_text(ReadFault::Open(fault)) == "open "@ + fault.path@ + " failed: "@
            + fault.error@,
        read_fault_text(ReadFault::Read(fault)) == "read "@ + fault.path@ + " failed: "@
            + fault.error@,
{
}

/// The view of a directory's listing shows each entry, in order.
pub proof fn listing_is_seen_whole<P>(entries: Vec<Entry<P>>, error: String)
    ensures
        Listing::<P>::NotADirectory@ == ListingView::<P>::NotADirectory,
        Listing::<P>::Failed(error)@ == ListingView::<P>::Failed(error@),
        Listing::<P>::Entries(entries)@ == ListingView::<P>::Entries(entry_views(entries@)),
        entry_views(entries@).len() == entries@.len(),
        forall|i: int|
            0 <= i < entries@.len() ==> (match entries@[i] {
                Ok(entry) => #[trigger] entry_views(entries@)[i] matches Ok(seen) && seen == entry@,
                Err(e) => entry_views(entries@)[i] matches Err(seen) && seen == e@,
            }),
{
}

/// The views of a directory's entry and of a migration show each field.
pub proof fn entry_is_seen_whole<P>(entry: DirEntry<P>, file: MigrationFile<P>)
    ensures
        entry@.is_file == entry.is_file,
        entry@.name == entry.name@,
        entry@.path == entry.path,
        entry@.extension is None <==> entry.extension is None,
        entry.extension matches Some(e) ==> entry@.extension == Some(e@),
        file@.ty == file.ty,
        file@.version == file.version,
        file@.name == file.name@,
        file@.path == file.path,
        file@.checksum == file.checksum,
{
}

/// A reply answers a request exactly if it is of the sort that was asked for, and
/// where all is done or has failed nothing is asked for.
pub proof fn replies_answer_what_was_asked<P>(
    reply: ReplyView<P>,
    call: SqlCallView,
    text: Seq<char>,
    path: P,
)
    ensures
        answers(reply, RequestView::Count(call)) <==> reply is Count,
        answers(reply, RequestView::FirstColumn(call)) <==> reply is FirstColumn,
        answers(reply, RequestView::Execute(call)) <==> reply is Executed,
        answers(reply, RequestView::Commit) <==> reply is Committed,
        answers(reply, RequestView::ListDir(text)) <==> reply is Listing,
        answers(reply, RequestView::ReadBytes(path)) <==> reply is Bytes,
        answers(reply, RequestView::ReadText(path)) <==> reply is Text,
        !answers(reply, RequestView::Done),
        !answers(reply, RequestView::Failed(text)),
{
}

/// Only executing and committing change the database.
pub proof fn only_executing_and_committing_change_the_database<P>(
    request: RequestView<P>,
    call: SqlCallView,
    calls: Seq<SqlCallView>,
)
    ensures
        effects_of(RequestView::<P>::Execute(call)) == seq![Effect::Execute(call)],
        effects_of(RequestView::<P>::Commit) == seq![Effect::Commit],
        !(request is Execute || request is Commit) ==> effects_of(request).len() == 0,
        executions(calls).len() == calls.len(),
        forall|i: int|
            0 <= i < calls.len() ==> #[trigger] executions(calls)[i] == Effect::Execute(calls[i]),
{
}

} // verus!
