//! Where the database password comes from.

use vstd::prelude::*;

use crate::text;
use crate::text::{
    chars_of, joined_text, part_of, reads_from, result_view, string_of, trimmed,
};

verus! {

/// A source of database passwords, refreshed outside of the connector.
pub trait SecretFetcher: Send + Sync {
    /// The password that is in force now, or why it cannot be had.
    fn fetch_latest_secret(&self, secret_path: &str, stage: &str) -> (secret: Result<
        String,
        String,
    >);
}

/// The fetcher that goes by the secret path alone:
/// - `env://NAME` is the environment variable `NAME`;
/// - `file://path` is what the file holds, without white space at either end;
/// - anything else is the environment variable `OCI_DB_PASSWORD`.
pub struct DefaultSecretFetcher;

/// The variable that is read where the secret path names no source.
pub const FALLBACK_VARIABLE: &'static str = "OCI_DB_PASSWORD";

/// What has to be read for a secret.
pub enum SecretSource {
    /// The environment variable of this name.
    Variable(String),
    /// The file at this path.
    File(String),
    /// The environment variable `OCI_DB_PASSWORD`, since the path names none.
    Fallback,
}

/// What has to be read for a secret.
pub ghost enum SecretSourceView {
    Variable(Seq<char>),
    File(Seq<char>),
    Fallback,
}

impl View for SecretSource {
    type V = SecretSourceView;

    open spec fn view(&self) -> SecretSourceView {
        match self {
            SecretSource::Variable(name) => SecretSourceView::Variable(name@),
            SecretSource::File(path) => SecretSourceView::File(path@),
            SecretSource::Fallback => SecretSourceView::Fallback,
        }
    }
}

/// What a secret path says has to be read.
pub open spec fn secret_source(secret_path: Seq<char>) -> SecretSourceView {
    if text::reads_at(secret_path, 0, "env://"@) {
        SecretSourceView::Variable(secret_path.skip("env://"@.len() as int))
    } else if text::reads_at(secret_path, 0, "file://"@) {
        SecretSourceView::File(secret_path.skip("file://"@.len() as int))
    } else {
        SecretSourceView::Fallback
    }
}

/// The secret, given what reading its source came to.
pub open spec fn secret_from(
    source: SecretSourceView,
    read: Result<Seq<char>, Seq<char>>,
) -> Result<Seq<char>, Seq<char>> {
    match (source, read) {
        (SecretSourceView::File(_), Ok(content)) => Ok(text::trim(content)),
        (_, Ok(value)) => Ok(value),
        (SecretSourceView::Variable(name), Err(e)) => Err("env "@ + name + " not found: "@ + e),
        (SecretSourceView::File(path), Err(e)) => Err(
            "failed reading file secret '"@ + path + "': "@ + e,
        ),
        (SecretSourceView::Fallback, Err(e)) => Err("OCI_DB_PASSWORD not set: "@ + e),
    }
}

/// `s` without `prefix`, where it starts with it.
fn after_prefix(s: &Vec<char>, prefix: &str) -> (rest: Option<String>)
    ensures
        option_is(rest, text::reads_at(s@, 0, prefix@), s@.skip(prefix@.len() as int)),
{
    let pattern: Vec<char> = chars_of(prefix);
    if reads_from(s, 0, &pattern) {
        let rest: Vec<char> = part_of(s, pattern.len(), s.len());
        proof {
            assert(rest@ =~= s@.skip(prefix@.len() as int));
        }
        Some(string_of(&rest))
    } else {
        None
    }
}

spec fn option_is(s: Option<String>, there: bool, text: Seq<char>) -> bool {
    match s {
        Some(t) => there && t@ == text,
        None => !there,
    }
}

impl DefaultSecretFetcher {
    /// What has to be read for the secret at `secret_path`.
    pub fn source(&self, secret_path: &str) -> (source: SecretSource)
        ensures
            source@ == secret_source(secret_path@),
    {
        let path: Vec<char> = chars_of(secret_path);
        match after_prefix(&path, "env://") {
            Some(name) => SecretSource::Variable(name),
            None => match after_prefix(&path, "file://") {
                Some(file) => SecretSource::File(file),
                None => SecretSource::Fallback,
            },
        }
    }

    /// The secret at `secret_path`, where reading what `source` names came to
    /// `read`. The stage makes no difference.
    pub fn fetch_latest_secret(
        &self,
        secret_path: &str,
        stage: &str,
        read: Result<String, String>,
    ) -> (secret: Result<String, String>)
        ensures
            result_view(secret) == secret_from(secret_source(secret_path@), result_view(read)),
    {
        match self.source(secret_path) {
            SecretSource::Variable(name) => match read {
                Ok(value) => Ok(value),
                Err(e) => {
                    let head: String = joined_text("env ", name.as_str());
                    let front: String = joined_text(head.as_str(), " not found: ");
                    Err(joined_text(front.as_str(), e.as_str()))
                },
            },
            SecretSource::File(path) => match read {
                Ok(content) => {
                    let chars: Vec<char> = chars_of(content.as_str());
                    let secret: Vec<char> = trimmed(&chars);
                    Ok(string_of(&secret))
                },
                Err(e) => {
                    let head: String = joined_text("failed reading file secret '", path.as_str());
                    let front: String = joined_text(head.as_str(), "': ");
                    Err(joined_text(front.as_str(), e.as_str()))
                },
            },
            SecretSource::Fallback => match read {
                Ok(value) => Ok(value),
                Err(e) => Err(joined_text("OCI_DB_PASSWORD not set: ", e.as_str())),
            },
        }
    }
}

/// A secret from a file neither starts nor ends with white space, whatever the
/// file holds around it.
pub proof fn secret_from_a_file_has_no_space_around(path: Seq<char>, content: Seq<char>)
    ensures
        secret_from(SecretSourceView::File(path), Ok(content)) matches Ok(secret) && (secret.len()
            > 0 ==> !text::is_white_space(secret[0]) && !text::is_white_space(secret.last())),
{
    text::trimmed_text_has_no_space_around(content);
}

/// A path that names a variable or a file names that one and no other: the source
/// holds all that follows the scheme.
pub proof fn secret_path_names_its_source(name: Seq<char>)
    ensures
        secret_source("env://"@ + name) == SecretSourceView::Variable(name),
        secret_source("file://"@ + name) == SecretSourceView::File(name),
{
    reveal_strlit("env://");
    reveal_strlit("file://");
    let env = "env://"@ + name;
    let file = "file://"@ + name;
    assert(env.subrange(0, 6) =~= "env://"@);
    assert(env.skip(6) =~= name);
    assert(file.subrange(0, 7) =~= "file://"@);
    assert(file.skip(7) =~= name);
    assert(file.subrange(0, 6)[0] != "env://"@[0]);
}

} // verus!
