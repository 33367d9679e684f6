//! Locations and package coordinates as URL text, read and written by the `url` crate.

use vstd::prelude::*;

verus! {

/// The serialization that `url::Url::parse` gives to `text`, where it takes `text` for an
/// absolute URL.
pub uninterp spec fn parsed_url(text: Seq<char>) -> Option<Seq<char>>;

/// The `file:` URL that `url::Url::from_file_path` gives to `path`, where it accepts the path.
pub uninterp spec fn file_url_of(path: Seq<char>) -> Option<Seq<char>>;

/// The path that `url::Url::to_file_path` reads from the URL written as `url`, where `url`
/// is a URL and stands for a local file.
pub uninterp spec fn file_path_of(url: Seq<char>) -> Option<Seq<char>>;

/// The URL written as `url` after `url::Url::query_pairs_mut` and `append_pair` added
/// `key` and `value` to its query, where `url` is a URL.
pub uninterp spec fn with_query_pair(url: Seq<char>, key: Seq<char>, value: Seq<char>) -> Option<Seq<char>>;

/// The longest text, in bytes, that goes into a URL's query here. The `url` crate counts
/// positions inside a URL in 32 bits.
pub const QUERY_TEXT_MAX: usize = 0x0100_0000;

/// Whether a text is short enough to go into a URL's query here: its UTF-8 bytes number at
/// most [`QUERY_TEXT_MAX`].
pub open spec fn fits(text: Seq<char>) -> bool {
    (vstd::utf8::encode_utf8(text).len() as usize) <= QUERY_TEXT_MAX
}

/// Calls `url::Url::parse` and writes the URL out again. `None` where the text is no
/// absolute URL. The contract only names the result.
#[verifier::external_body]
pub(crate) fn parse_url(text: &str) -> (url: Option<String>)
    ensures
        match url {
            Some(written) => parsed_url(text@) == Some(written@),
            None => parsed_url(text@).is_none(),
        },
{
    url::Url::parse(text).ok().map(|url| url.into())
}

/// Calls `url::Url::from_file_path`. `None` where the path is not absolute. The contract
/// only names the result.
#[verifier::external_body]
pub(crate) fn file_url(path: &str) -> (url: Option<String>)
    ensures
        match url {
            Some(written) => file_url_of(path@) == Some(written@),
            None => file_url_of(path@).is_none(),
        },
{
    url::Url::from_file_path(path).ok().map(|url| url.into())
}

/// Calls `url::Url::to_file_path` on the URL written as `url`. `None` where `url` is no URL,
/// where it names another host, or where the path is not text. The contract only names the
/// result.
#[verifier::external_body]
pub(crate) fn file_path(url: &str) -> (path: Option<String>)
    ensures
        match path {
            Some(written) => file_path_of(url@) == Some(written@),
            None => file_path_of(url@).is_none(),
        },
{
    let parsed = url::Url::parse(url).ok()?;
    parsed.to_file_path().ok()?.into_os_string().into_string().ok()
}

/// Calls `url::Url::query_pairs_mut` and `append_pair` on the URL written as `url`, and
/// writes the URL out again. `None` where `url` is no URL. The lengths are bounded because
/// the crate stops on a URL whose positions do not fit 32 bits. The contract only names
/// the result.
#[verifier::external_body]
pub(crate) fn append_query_pair(url: &str, key: &str, value: &str) -> (extended: Option<String>)
    requires
        fits(url@),
        fits(key@),
        fits(value@),
    ensures
        match extended {
            Some(written) => with_query_pair(url@, key@, value@) == Some(written@),
            None => with_query_pair(url@, key@, value@).is_none(),
        },
{
    let mut parsed = url::Url::parse(url).ok()?;
    parsed.query_pairs_mut().append_pair(key, value);
    Some(parsed.into())
}

} // verus!
