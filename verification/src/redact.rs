//! Database URLs as they may be logged.

use vstd::prelude::*;

use crate::text;

verus! {

/// What stands for a URL that cannot be parsed.
pub const REDACTED: &'static str = "<redacted>";

/// What stands for a password.
pub const MASK: &'static str = "****";

/// How long a URL may be, in characters, for a password to be put into it. The
/// `url` crate counts in 32 bits and panics beyond that. A character takes up to
/// twelve bytes where it is percent-encoded; in a host name, of which each label of
/// at most a thousand characters is turned into ASCII, it may take more, but fewer
/// than thirty-two.
pub const URL_LIMIT: usize = 0x0800_0000;

/// How long a password may be, in characters, to be put into such a URL.
pub const PASSWORD_LIMIT: usize = 0x1_0000;

/// A URL: its text, the password in it, and the text up to the user name's end
/// and from the host on.
pub struct UrlParts {
    pub text: String,
    pub password: Option<String>,
    pub before: String,
    pub after: String,
}

/// A URL: its text, the password in it, and the text up to the user name's end
/// and from the host on.
pub open spec fn parts_view(parts: Option<UrlParts>) -> Option<
    (Seq<char>, Option<Seq<char>>, Seq<char>, Seq<char>),
> {
    match parts {
        Some(p) => Some((p.text@, text::option_view(p.password), p.before@, p.after@)),
        None => None,
    }
}

/// A URL's text with a password between what is before and what is after it.
pub open spec fn with_password(
    before: Seq<char>,
    password: Seq<char>,
    after: Seq<char>,
) -> Seq<char> {
    before + seq![':'] + password + seq!['@'] + after
}

/// What `url::Url::parse` makes of a text: the URL's own text, its password, and
/// the text up to the user name's end and from the host on; or nothing where the
/// text is no URL.
pub uninterp spec fn parsed_url(s: Seq<char>) -> Option<
    (Seq<char>, Option<Seq<char>>, Seq<char>, Seq<char>),
>;

/// What `url::Url::set_password` makes of the URL that a text stands for, in the
/// same terms; or nothing where the text is no URL or the URL can hold no
/// password.
pub uninterp spec fn url_with_password(
    s: Seq<char>,
    password: Seq<char>,
) -> Option<(Seq<char>, Option<Seq<char>>, Seq<char>, Seq<char>)>;

/// `url::Url::parse`, with `as_str`, `password` and two slices of what it gives.
/// What they return is named, not stated: it is the URL standard's parser. Beyond
/// that: a password stands in the URL's text between a colon, after the user name,
/// and an at sign, before the host.
#[verifier::external_body]
fn parse_url(s: &str) -> (parts: Option<UrlParts>)
    ensures
        parts_view(parts) == parsed_url(s@),
        parts_view(parts) matches Some((text, Some(password), before, after)) ==> text
            == with_password(before, password, after),
{
    let url: url::Url = url::Url::parse(s).ok()?;
    Some(UrlParts {
        text: url.as_str().to_owned(),
        password: url.password().map(str::to_owned),
        before: url[..url::Position::AfterUsername].to_owned(),
        after: url[url::Position::BeforeHost..].to_owned(),
    })
}

/// `url::Url::set_password` on the URL that `s` stands for, with `as_str`,
/// `password` and two slices of what comes of it. The result is named. Beyond
/// that: a URL that has a password can be given another one that is not empty,
/// since it has a host and is no `file:` URL; and a password of nothing but
/// asterisks comes to stand in place of the old one as it is, since an asterisk
/// is not percent-encoded. The crate panics where the URL grows past 32 bits,
/// which the bounds on the lengths rule out.
#[verifier::external_body]
fn set_url_password(s: &str, password: &str) -> (parts: Option<UrlParts>)
    requires
        s@.len() <= URL_LIMIT,
        0 < password@.len() <= PASSWORD_LIMIT,
    ensures
        parts_view(parts) == url_with_password(s@, password@),
        parsed_url(s@) matches Some((_, Some(_), before, after)) ==> {
            &&& parts is Some
            &&& (forall|i: int| 0 <= i < password@.len() ==> password@[i] == '*') ==> parts_view(
                parts,
            ) == Some(
                (
                    with_password(before, password@, after),
                    Some(password@),
                    before,
                    after,
                ),
            )
        },
{
    let mut url: url::Url = url::Url::parse(s).ok()?;
    url.set_password(Some(password)).ok()?;
    Some(UrlParts {
        text: url.as_str().to_owned(),
        password: url.password().map(str::to_owned),
        before: url[..url::Position::AfterUsername].to_owned(),
        after: url[url::Position::BeforeHost..].to_owned(),
    })
}

/// How a URL is logged, given what parsing it and masking its password came to.
pub open spec fn redacted(
    parsed: Option<(Seq<char>, Option<Seq<char>>, Seq<char>, Seq<char>)>,
    masked: Option<(Seq<char>, Option<Seq<char>>, Seq<char>, Seq<char>)>,
) -> Seq<char> {
    match (parsed, masked) {
        (None, _) => REDACTED@,
        (Some((_, Some(_), _, _)), Some((masked_text, _, _, _))) => masked_text,
        (Some((text, _, _, _)), _) => text,
    }
}

/// How a URL is logged, given what parsing it and masking its password came to:
/// a text that is no URL not at all, a URL with a password with the mask in its
/// place, and any other URL as it is.
pub fn redacted_text(parsed: Option<UrlParts>, masked: Option<UrlParts>) -> (log: String)
    ensures
        log@ == redacted(parts_view(parsed), parts_view(masked)),
{
    match parsed {
        Some(url) => match (url.password, masked) {
            (Some(_), Some(m)) => m.text,
            _ => url.text,
        },
        None => REDACTED.to_owned(),
    }
}

/// How a URL is logged: a text that is no URL not at all, a URL with a password
/// with the mask in its place, and any other URL as it is.
pub open spec fn logged(
    parsed: Option<(Seq<char>, Option<Seq<char>>, Seq<char>, Seq<char>)>,
) -> Seq<char> {
    match parsed {
        None => REDACTED@,
        Some((_, Some(_), before, after)) => with_password(before, MASK@, after),
        Some((text, None, _, _)) => text,
    }
}

/// How a database URL is logged. A password in it does not show: the text is
/// then that of the URL with the mask for a password.
pub fn log_db_url(db_url: &str) -> (log: String)
    requires
        db_url@.len() <= URL_LIMIT,
    ensures
        log@ == logged(parsed_url(db_url@)),
        parsed_url(db_url@) matches Some((_, Some(_), before, after)) ==> url_with_password(
            db_url@,
            MASK@,
        ) == Some((log@, Some(MASK@), before, after)),
{
    proof {
        reveal_strlit("****");
    }
    let parsed: Option<UrlParts> = parse_url(db_url);
    let has_password: bool = match &parsed {
        Some(url) => url.password.is_some(),
        None => false,
    };
    let masked: Option<UrlParts> = if has_password {
        set_url_password(db_url, MASK)
    } else {
        None
    };
    redacted_text(parsed, masked)
}

/// URLs that differ in nothing but the password are logged alike.
pub proof fn password_makes_no_difference_to_the_log(
    before: Seq<char>,
    after: Seq<char>,
    one: Seq<char>,
    other: Seq<char>,
)
    ensures
        logged(Some((with_password(before, one, after), Some(one), before, after))) == logged(
            Some((with_password(before, other, after), Some(other), before, after)),
        ),
{
}

} // verus!
