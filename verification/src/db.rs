//! What the connector says to the database, and what it makes of its errors.

use vstd::prelude::*;

use crate::numbers;
use crate::numbers::decimal_of;
use crate::text::joined_text;

verus! {

// ------------------------------------------------------------------ errors

/// What the database itself says of an error.
pub struct DbError {
    /// The number in `ORA-nnnnn`.
    pub code: i32,
    pub message: String,
}

/// An error of the Oracle client, as far as the connector reads it.
pub struct OracleError {
    /// The database's own error, where the error came from the database.
    pub db_error: Option<DbError>,
    /// The error as the client words it.
    pub text: String,
}

/// An error of the Oracle client: code and message where the database gave
/// them, and the client's wording.
pub ghost struct OracleErrorView {
    pub db_error: Option<(i32, Seq<char>)>,
    pub text: Seq<char>,
}

impl View for OracleError {
    type V = OracleErrorView;

    open spec fn view(&self) -> OracleErrorView {
        OracleErrorView {
            db_error: match self.db_error {
                Some(e) => Some((e.code, e.message@)),
                None => None,
            },
            text: self.text@,
        }
    }
}

/// How an error is reported: with code and message where the database gave them.
pub open spec fn oracle_error_text(err: OracleErrorView) -> Seq<char> {
    match err.db_error {
        Some((code, message)) => "Oracle error (code "@ + numbers::decimal(code as int) + "): "@
            + message,
        None => err.text,
    }
}

/// The text by which an error is reported.
pub fn map_oracle_error(err: OracleError) -> (text: String)
    ensures
        text@ == oracle_error_text(err@),
        err.db_error is None ==> text == err.text,
{
    match err.db_error {
        Some(db_err) => {
            let code: String = decimal_of(db_err.code);
            let head: String = joined_text("Oracle error (code ", code.as_str());
            let front: String = joined_text(head.as_str(), "): ");
            joined_text(front.as_str(), db_err.message.as_str())
        },
        None => err.text,
    }
}

/// Whether the database gave one of these codes.
pub open spec fn has_code(err: OracleErrorView, codes: Seq<i32>) -> bool {
    match err.db_error {
        Some((code, _)) => codes.contains(code),
        None => false,
    }
}

/// `ORA-01017`: invalid username or password.
pub const INVALID_CREDENTIALS: i32 = 1017;

/// `ORA-28001`: the password has expired.
pub const PASSWORD_EXPIRED: i32 = 28001;

/// `ORA-28000`: the account is locked.
pub const ACCOUNT_LOCKED: i32 = 28000;

/// Whether the database refused the credentials.
pub fn is_authentication_error(err: &OracleError) -> (refused: bool)
    ensures
        refused == has_code(err@, seq![INVALID_CREDENTIALS, PASSWORD_EXPIRED, ACCOUNT_LOCKED]),
        refused <==> (err.db_error matches Some(e) && (e.code == 1017 || e.code == 28001 || e.code
            == 28000)),
{
    let ghost codes = seq![INVALID_CREDENTIALS, PASSWORD_EXPIRED, ACCOUNT_LOCKED];
    match &err.db_error {
        Some(db_err) => {
            let code: i32 = db_err.code;
            proof {
                assert(codes[0] == INVALID_CREDENTIALS);
                assert(codes[1] == PASSWORD_EXPIRED);
                assert(codes[2] == ACCOUNT_LOCKED);
            }
            code == INVALID_CREDENTIALS || code == PASSWORD_EXPIRED || code == ACCOUNT_LOCKED
        },
        None => false,
    }
}

// -------------------------------------------------------------- connections

/// What a connection is opened with.
pub struct OracleConnectParams {
    pub username: String,
    pub password: String,
    pub connect_descriptor: String,
}

/// What a connection is opened with.
pub ghost struct OracleConnectParamsView {
    pub username: Seq<char>,
    pub password: Seq<char>,
    pub connect_descriptor: Seq<char>,
}

impl View for OracleConnectParams {
    type V = OracleConnectParamsView;

    open spec fn view(&self) -> OracleConnectParamsView {
        OracleConnectParamsView {
            username: self.username@,
            password: self.password@,
            connect_descriptor: self.connect_descriptor@,
        }
    }
}

impl OracleConnectParams {
    pub fn new(username: String, password: String, connect_descriptor: String) -> (params: Self)
        ensures
            params.username == username,
            params.password == password,
            params.connect_descriptor == connect_descriptor,
    {
        OracleConnectParams { username, password, connect_descriptor }
    }
}

impl Clone for OracleConnectParams {
    fn clone(&self) -> (copy: Self)
        ensures
            copy == *self,
    {
        OracleConnectParams {
            username: self.username.clone(),
            password: self.password.clone(),
            connect_descriptor: self.connect_descriptor.clone(),
        }
    }
}

// ----------------------------------------------------------------- calls

/// A moment: seconds since 1970-01-01 00:00:00 UTC, and nanoseconds on top.
#[derive(Clone, Copy, PartialEq, Eq, Structural, Debug)]
pub struct Timestamp {
    pub secs: i64,
    pub nanos: u32,
}

/// A value bound to a parameter of a statement.
pub enum Bind {
    Text(String),
    Int(i64),
    Time(Timestamp),
}

/// A value bound to a parameter of a statement.
pub ghost enum BindView {
    Text(Seq<char>),
    Int(i64),
    Time(Timestamp),
}

impl View for Bind {
    type V = BindView;

    open spec fn view(&self) -> BindView {
        match self {
            Bind::Text(s) => BindView::Text(s@),
            Bind::Int(n) => BindView::Int(*n),
            Bind::Time(t) => BindView::Time(*t),
        }
    }
}

/// A statement and what is bound to its parameters, in order.
pub struct SqlCall {
    pub sql: String,
    pub binds: Vec<Bind>,
}

/// A statement and what is bound to its parameters, in order.
#[verifier::ext_equal]
pub ghost struct SqlCallView {
    pub sql: Seq<char>,
    pub binds: Seq<BindView>,
}

impl View for SqlCall {
    type V = SqlCallView;

    open spec fn view(&self) -> SqlCallView {
        SqlCallView { sql: self.sql@, binds: self.binds@.map_values(|b: Bind| b@) }
    }
}

/// A statement without parameters.
pub open spec fn plain_call(sql: Seq<char>) -> SqlCallView {
    SqlCallView { sql, binds: Seq::empty() }
}

/// A statement with one text bound.
pub open spec fn text_call(sql: Seq<char>, text: Seq<char>) -> SqlCallView {
    SqlCallView { sql, binds: seq![BindView::Text(text)] }
}

impl SqlCall {
    /// A statement without parameters.
    pub fn plain(sql: &str) -> (call: SqlCall)
        ensures
            call@ == plain_call(sql@),
    {
        let call = SqlCall { sql: sql.to_owned(), binds: Vec::new() };
        proof {
            assert(call@.binds =~= Seq::empty());
        }
        call
    }

    /// A statement with one text bound.
    pub fn with_text(sql: &str, text: String) -> (call: SqlCall)
        ensures
            call@ == text_call(sql@, text@),
    {
        let mut binds: Vec<Bind> = Vec::new();
        binds.push(Bind::Text(text));
        let call = SqlCall { sql: sql.to_owned(), binds };
        proof {
            assert(call@.binds =~= seq![BindView::Text(text@)]);
        }
        call
    }
}

} // verus!
