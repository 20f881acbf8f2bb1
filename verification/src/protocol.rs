//! What the connector asks of the embedding program, and what comes back.

use vstd::prelude::*;

use crate::db::{OracleError, OracleErrorView, SqlCall, SqlCallView};
use crate::migrations::{read_fault_text, FileFault, ReadFault};
use crate::text;

verus! {

/// An entry of a directory. `P` is what the embedding program calls a file by.
pub struct DirEntry<P> {
    pub is_file: bool,
    /// What follows the last dot of the name, where there is something before it.
    pub extension: Option<String>,
    pub name: String,
    pub path: P,
}

/// An entry of a directory.
pub ghost struct DirEntryView<P> {
    pub is_file: bool,
    pub extension: Option<Seq<char>>,
    pub name: Seq<char>,
    pub path: P,
}

impl<P> View for DirEntry<P> {
    type V = DirEntryView<P>;

    open spec fn view(&self) -> DirEntryView<P> {
        DirEntryView {
            is_file: self.is_file,
            extension: text::option_view(self.extension),
            name: self.name@,
            path: self.path,
        }
    }
}

/// An entry of a directory, or why it could not be had.
pub type Entry<P> = Result<DirEntry<P>, String>;

/// The view of an entry or of the text of an error.
pub open spec fn entry_result_view<P>(
    entry: Result<DirEntry<P>, String>,
) -> Result<DirEntryView<P>, Seq<char>> {
    match entry {
        Ok(e) => Ok(e@),
        Err(e) => Err(e@),
    }
}

/// The views of entries.
pub open spec fn entry_views<P>(entries: Seq<Entry<P>>) -> Seq<Result<DirEntryView<P>, Seq<char>>> {
    entries.map_values(|e: Entry<P>| entry_result_view(e))
}

/// What listing a directory came to.
pub enum Listing<P> {
    NotADirectory,
    Failed(String),
    Entries(Vec<Entry<P>>),
}

/// What listing a directory came to.
pub ghost enum ListingView<P> {
    NotADirectory,
    Failed(Seq<char>),
    Entries(Seq<Result<DirEntryView<P>, Seq<char>>>),
}

impl<P> View for Listing<P> {
    type V = ListingView<P>;

    open spec fn view(&self) -> ListingView<P> {
        match self {
            Listing::NotADirectory => ListingView::NotADirectory,
            Listing::Failed(e) => ListingView::Failed(e@),
            Listing::Entries(entries) => ListingView::Entries(entry_views(entries@)),
        }
    }
}

/// What the embedding program has to do next.
pub enum Request<'a, P> {
    /// Run a query whose one row holds one number.
    Count(&'a SqlCall),
    /// Run a query and take the first column of the first row, if there is one.
    FirstColumn(&'a SqlCall),
    /// Execute a statement.
    Execute(&'a SqlCall),
    /// Commit what was executed.
    Commit,
    /// List a directory.
    ListDir(&'a str),
    /// Read a file as bytes.
    ReadBytes(&'a P),
    /// Read a file as text.
    ReadText(&'a P),
    /// Nothing: all is done.
    Done,
    /// Nothing: it failed, for this reason.
    Failed(&'a str),
}

/// What the embedding program has to do next.
pub ghost enum RequestView<P> {
    Count(SqlCallView),
    FirstColumn(SqlCallView),
    Execute(SqlCallView),
    Commit,
    ListDir(Seq<char>),
    ReadBytes(P),
    ReadText(P),
    Done,
    Failed(Seq<char>),
}

impl<'a, P> View for Request<'a, P> {
    type V = RequestView<P>;

    open spec fn view(&self) -> RequestView<P> {
        match self {
            Request::Count(call) => RequestView::Count(call@),
            Request::FirstColumn(call) => RequestView::FirstColumn(call@),
            Request::Execute(call) => RequestView::Execute(call@),
            Request::Commit => RequestView::Commit,
            Request::ListDir(dir) => RequestView::ListDir(dir@),
            Request::ReadBytes(path) => RequestView::ReadBytes(**path),
            Request::ReadText(path) => RequestView::ReadText(**path),
            Request::Done => RequestView::Done,
            Request::Failed(e) => RequestView::Failed(e@),
        }
    }
}

/// What a request came to.
pub enum Reply<P> {
    Count(Result<i64, OracleError>),
    /// The column of the first row; `None` where there is no row, and a column
    /// that is null is `Some(None)`.
    FirstColumn(Result<Option<Option<i64>>, OracleError>),
    Executed(Result<(), OracleError>),
    Committed(Result<(), OracleError>),
    Listing(Listing<P>),
    Bytes(Result<Vec<u8>, ReadFault>),
    Text(Result<String, FileFault>),
}

/// What a request came to.
pub ghost enum ReplyView<P> {
    Count(Result<i64, OracleErrorView>),
    FirstColumn(Result<Option<Option<i64>>, OracleErrorView>),
    Executed(Result<(), OracleErrorView>),
    Committed(Result<(), OracleErrorView>),
    Listing(ListingView<P>),
    /// The bytes, or how the failure to read them is reported.
    Bytes(Result<Seq<u8>, Seq<char>>),
    /// The text, or the path and the error.
    Text(Result<Seq<char>, (Seq<char>, Seq<char>)>),
}

/// The view of a result whose error comes from the database.
pub open spec fn db_result_view<T>(r: Result<T, OracleError>) -> Result<T, OracleErrorView> {
    match r {
        Ok(t) => Ok(t),
        Err(e) => Err(e@),
    }
}

impl<P> View for Reply<P> {
    type V = ReplyView<P>;

    open spec fn view(&self) -> ReplyView<P> {
        match self {
            Reply::Count(r) => ReplyView::Count(db_result_view(*r)),
            Reply::FirstColumn(r) => ReplyView::FirstColumn(db_result_view(*r)),
            Reply::Executed(r) => ReplyView::Executed(db_result_view(*r)),
            Reply::Committed(r) => ReplyView::Committed(db_result_view(*r)),
            Reply::Listing(l) => ReplyView::Listing(l@),
            Reply::Bytes(Ok(b)) => ReplyView::Bytes(Ok(b@)),
            Reply::Bytes(Err(f)) => ReplyView::Bytes(Err(read_fault_text(*f))),
            Reply::Text(Ok(t)) => ReplyView::Text(Ok(t@)),
            Reply::Text(Err(f)) => ReplyView::Text(Err((f.path@, f.error@))),
        }
    }
}

/// What a request does to the database.
pub ghost enum Effect {
    Execute(SqlCallView),
    Commit,
}

/// What a request does to the database, if anything.
pub open spec fn effects_of<P>(request: RequestView<P>) -> Seq<Effect> {
    match request {
        RequestView::Execute(call) => seq![Effect::Execute(call)],
        RequestView::Commit => seq![Effect::Commit],
        _ => Seq::empty(),
    }
}

/// Statements as what they do to the database.
pub open spec fn executions(calls: Seq<SqlCallView>) -> Seq<Effect> {
    calls.map_values(|c: SqlCallView| Effect::Execute(c))
}

/// Whether a reply answers a request.
pub open spec fn answers<P>(reply: ReplyView<P>, request: RequestView<P>) -> bool {
    match request {
        RequestView::Count(_) => reply is Count,
        RequestView::FirstColumn(_) => reply is FirstColumn,
        RequestView::Execute(_) => reply is Executed,
        RequestView::Commit => reply is Committed,
        RequestView::ListDir(_) => reply is Listing,
        RequestView::ReadBytes(_) => reply is Bytes,
        RequestView::ReadText(_) => reply is Text,
        RequestView::Done => false,
        RequestView::Failed(_) => false,
    }
}

} // verus!
