//! Download planning: where an episode's audio and a feed's thumbnail
//! live on disk, whether a thumbnail is already present, and which file
//! extension a thumbnail URL suggests.
use crate::errors::CustomError;
use crate::text::{append_chars, append_str_chars, chars_to_string, spec_digits, str_to_chars, u32_to_chars};
use vstd::prelude::*;
use vstd::string::*;

verus! {

/// The path of an episode's audio file: `./episodes/{file_name}`.
pub open spec fn spec_episode_file_path(file_name: Seq<char>) -> Seq<char> {
    "./episodes/"@ + file_name
}

/// The path under the episode store where `file_name` is kept.
pub fn episode_file_path(file_name: &str) -> (r: String)
    ensures
        r@ == spec_episode_file_path(file_name@),
{
    let mut v: Vec<char> = Vec::new();
    append_str_chars(&mut v, "./episodes/");
    append_str_chars(&mut v, file_name);
    chars_to_string(&v)
}

/// The path of a feed's thumbnail: `./thumbnails/{feed_id}.{ext}`.
pub open spec fn spec_thumbnail_path(feed_id: int, ext: Seq<char>) -> Seq<char>
    recommends
        feed_id >= 0,
{
    "./thumbnails/"@ + spec_digits(feed_id) + "."@ + ext
}

/// The path under the thumbnail store for feed `feed_id` with extension
/// `file_extension`.
pub fn thumbnail_path(feed_id: i32, file_extension: &str) -> (r: String)
    requires
        feed_id >= 0,
    ensures
        r@ == spec_thumbnail_path(feed_id as int, file_extension@),
{
    let mut v: Vec<char> = Vec::new();
    append_str_chars(&mut v, "./thumbnails/");
    let digits = u32_to_chars(feed_id as u32);
    append_chars(&mut v, &digits);
    append_str_chars(&mut v, ".");
    append_str_chars(&mut v, file_extension);
    chars_to_string(&v)
}

/// Whether the thumbnail `./thumbnails/{feed_id}.{file_extension}` is
/// among the file paths observed on disk (a present thumbnail is never
/// fetched again).
pub fn check_thumbnail_exists(present: &Vec<String>, feed_id: i32, file_extension: &str) -> (r:
    bool)
    requires
        feed_id >= 0,
    ensures
        r == present.deep_view().contains(
            spec_thumbnail_path(feed_id as int, file_extension@),
        ),
{
    let path = thumbnail_path(feed_id, file_extension);
    let mut i: usize = 0;
    while i < present.len()
        invariant
            path@ == spec_thumbnail_path(feed_id as int, file_extension@),
            i <= present@.len(),
            forall|j: int| 0 <= j < i ==> #[trigger] present@[j]@ != path@,
        decreases present@.len() - i,
    {
        if present[i].eq(&path) {
            proof {
                assert(present.deep_view()[i as int] == path@);
            }
            return true;
        }
        i = i + 1;
    }
    proof {
        assert forall|j: int| 0 <= j < present.deep_view().len() implies #[trigger] present
            .deep_view()[j] != path@ by {
            assert(present.deep_view()[j] == present@[j]@);
        }
    }
    false
}

/// What parsing an absolute URL and keeping everything up to the end of
/// its path returns: `None` when the text is not an absolute URL, else
/// the parsed serialization with any query and fragment left off. The
/// result is a function of the URL text alone.
pub uninterp spec fn spec_url_through_path(url: Seq<char>) -> Option<Seq<char>>;

/// Relies on `url::Url::parse` and on indexing a `Url` with
/// `..Position::AfterPath`: parsing either fails, or yields a
/// serialization whose prefix up to the query (or fragment, or end) is
/// returned; both outcomes depend only on the input text.
#[verifier::external_body]
fn url_through_path(url: &str) -> (r: Option<String>)
    ensures
        r.deep_view() == spec_url_through_path(url@),
{
    match url::Url::parse(url) {
        Ok(parsed) => Some(parsed[..url::Position::AfterPath].to_string()),
        Err(_) => None,
    }
}

/// The last three characters of `path`, or `"jpg"` when `path` is shorter
/// than three characters.
pub open spec fn spec_trailing_extension(path: Seq<char>) -> Seq<char> {
    if path.len() >= 3 {
        path.subrange(path.len() - 3, path.len() as int)
    } else {
        "jpg"@
    }
}

/// The file extension suggested by the trailing characters of a URL path:
/// its last three characters, or `"jpg"` when there are fewer.
pub fn trailing_extension(path: &str) -> (r: String)
    ensures
        r@ == spec_trailing_extension(path@),
{
    let n: usize = path.unicode_len();
    if n >= 3 {
        let tail = path.substring_char(n - 3, n);
        let chars = str_to_chars(tail);
        chars_to_string(&chars)
    } else {
        let chars = str_to_chars("jpg");
        chars_to_string(&chars)
    }
}

/// The thumbnail file extension for an image URL: the last three
/// characters of the URL through its path (query and fragment stripped),
/// or `"jpg"` when that part is shorter than three characters. Fails with
/// `CustomError::ParseError` exactly when the URL does not parse.
pub fn parse_file_extension_from_image_url(url: &str) -> (r: Result<String, CustomError>)
    ensures
        match r {
            Ok(ext) => spec_url_through_path(url@) matches Some(p) && ext@
                == spec_trailing_extension(p),
            Err(e) => spec_url_through_path(url@) is None && e == CustomError::ParseError,
        },
{
    match url_through_path(url) {
        Some(through_path) => Ok(trailing_extension(through_path.as_str())),
        None => Err(CustomError::ParseError),
    }
}

} // verus!
