//! Artifact URIs as the file managers handle them: `file://` paths, `s3://`
//! bucket/key pairs, and the names chosen for local and cached copies.
use vstd::prelude::*;
use vstd::utf8::encode_utf8;

use crate::digest::{hex_of, md5_hex, md5_of};
use crate::text::{
    find_char, find_char_from, has_prefix, replace_all_char, replace_char, starts_with,
    trim_leading, trim_leading_char,
};

verus! {

/// Why a URI cannot name an object store location.
#[derive(Debug, Clone, Copy, PartialEq, Eq, Structural)]
pub enum UriError {
    /// It does not start with `s3://`.
    NotS3,
    /// There is no `/` between the bucket and the key.
    MissingKey,
}

/// What `std::path::Path::extension` gives for `path`, converted lossily to text.
pub uninterp spec fn extension_of(path: Seq<char>) -> Option<Seq<char>>;

/// Relies on `std::path::Path::extension`: the extension of the last
/// component of `path`, if it has one.
#[verifier::external_body]
fn path_extension(path: &str) -> (r: Option<String>)
    ensures
        r.deep_view() == extension_of(path@),
{
    match std::path::Path::new(path).extension() {
        Some(e) => Some(e.to_string_lossy().to_string()),
        None => None,
    }
}

/// The local path a URI names: the URI without its `file://` scheme, if it has one.
pub open spec fn local_path_spec(uri: Seq<char>) -> Seq<char> {
    if starts_with(uri, "file://"@) {
        uri.subrange("file://"@.len() as int, uri.len() as int)
    } else {
        uri
    }
}

/// The bucket and the key of an `s3://bucket/key` URI; the key is all that
/// follows the first `/` after the bucket.
pub open spec fn s3_parts(uri: Seq<char>) -> Result<(Seq<char>, Seq<char>), UriError> {
    if !starts_with(uri, "s3://"@) {
        Err(UriError::NotS3)
    } else {
        let rest = uri.subrange("s3://"@.len() as int, uri.len() as int);
        match find_char_from(rest, '/', 0) {
            None => Err(UriError::MissingKey),
            Some(j) => Ok((rest.subrange(0, j), rest.subrange(j + 1, rest.len() as int))),
        }
    }
}

/// Where an output goes: an `s3://` URI names its bucket and key, anything
/// else is a key in `default_bucket`; leading `/`s of the key are dropped.
pub open spec fn s3_destination_spec(uri: Seq<char>, default_bucket: Seq<char>) -> Result<
    (Seq<char>, Seq<char>),
    UriError,
> {
    let parts = if starts_with(uri, "s3://"@) {
        s3_parts(uri)
    } else {
        Ok((default_bucket, uri))
    };
    match parts {
        Err(e) => Err(e),
        Ok((b, k)) => Ok((b, trim_leading(k, '/'))),
    }
}

/// The name of the cached copy of an object: the hex MD5 of its URI, with the
/// key's extension when it has a non-empty one.
pub open spec fn cache_name_spec(uri: Seq<char>, key: Seq<char>) -> Seq<char> {
    with_extension_spec(hex_of(md5_of(encode_utf8(uri))), extension_of(key))
}

/// The local path named by `uri`.
pub fn local_path(uri: &str) -> (r: &str)
    ensures
        r@ == local_path_spec(uri@),
{
    if has_prefix(uri, "file://") {
        uri.substring_char("file://".unicode_len(), uri.unicode_len())
    } else {
        uri
    }
}

/// Splits an `s3://bucket/key` URI.
pub fn parse_s3_uri(uri: &str) -> (r: Result<(String, String), UriError>)
    ensures
        match r {
            Ok((b, k)) => s3_parts(uri@) == Ok::<(Seq<char>, Seq<char>), UriError>((b@, k@)),
            Err(e) => s3_parts(uri@) == Err::<(Seq<char>, Seq<char>), UriError>(e),
        },
{
    if !has_prefix(uri, "s3://") {
        return Err(UriError::NotS3);
    }
    let rest = uri.substring_char("s3://".unicode_len(), uri.unicode_len());
    match find_char(rest, '/') {
        None => Err(UriError::MissingKey),
        Some(j) => {
            let n = rest.unicode_len();
            proof {
                lemma_find_in_range(rest@, '/', 0);
            }
            Ok((String::from_str(rest.substring_char(0, j)), String::from_str(rest.substring_char(j + 1, n))))
        },
    }
}

proof fn lemma_find_in_range(s: Seq<char>, c: char, i: int)
    requires
        0 <= i,
    ensures
        find_char_from(s, c, i) matches Some(j) ==> i <= j < s.len() && s[j] == c,
    decreases s.len() - i,
{
    if i < s.len() && s[i] != c {
        lemma_find_in_range(s, c, i + 1);
    }
}

/// The bucket and key an output is written to.
pub fn s3_destination(uri: &str, default_bucket: &str) -> (r: Result<(String, String), UriError>)
    ensures
        match r {
            Ok((b, k)) => s3_destination_spec(uri@, default_bucket@) == Ok::<
                (Seq<char>, Seq<char>),
                UriError,
            >((b@, k@)),
            Err(e) => s3_destination_spec(uri@, default_bucket@) == Err::<
                (Seq<char>, Seq<char>),
                UriError,
            >(e),
        },
{
    let (bucket, key) = if has_prefix(uri, "s3://") {
        match parse_s3_uri(uri) {
            Ok(parts) => parts,
            Err(e) => return Err(e),
        }
    } else {
        (String::from_str(default_bucket), String::from_str(uri))
    };
    let clean = String::from_str(trim_leading_char(key.as_str(), '/'));
    Ok((bucket, clean))
}

/// `s3://bucket/key`.
pub fn s3_uri(bucket: &str, key: &str) -> (r: String)
    ensures
        r@ == "s3://"@ + bucket@ + "/"@ + key@,
{
    let mut r = String::from_str("s3://");
    r.append(bucket);
    r.append("/");
    r.append(key);
    r
}

/// `file://path`.
pub fn file_uri(path: &str) -> (r: String)
    ensures
        r@ == "file://"@ + path@,
{
    let mut r = String::from_str("file://");
    r.append(path);
    r
}

/// The key a local output is committed under: the requested one, or `fresh`
/// when none was requested.
pub fn output_key(uri: &str, fresh: String) -> (r: String)
    ensures
        r@ == if uri@.len() == 0 {
            fresh@
        } else {
            uri@
        },
{
    if uri.unicode_len() == 0 {
        fresh
    } else {
        String::from_str(uri)
    }
}

/// The name of a temporary output file: the requested URI with `/` made `_`,
/// or `fresh` when none was requested.
pub fn temp_file_name(uri: &str, fresh: String) -> (r: String)
    ensures
        r@ == if uri@.len() == 0 {
            fresh@
        } else {
            replace_char(uri@, '/', '_')
        },
{
    if uri.unicode_len() == 0 {
        fresh
    } else {
        proof {
            reveal_strlit("_");
        }
        replace_all_char(uri, '/', "_")
    }
}

/// `name` with `.ext` appended when `ext` is present and not empty.
pub open spec fn with_extension_spec(name: Seq<char>, ext: Option<Seq<char>>) -> Seq<char> {
    match ext {
        Some(e) => if e.len() > 0 {
            name + "."@ + e
        } else {
            name
        },
        None => name,
    }
}

/// `name` with the extension `ext`, if there is a non-empty one.
pub fn with_extension(name: String, ext: Option<String>) -> (r: String)
    ensures
        r@ == with_extension_spec(name@, ext.deep_view()),
{
    let mut name = name;
    match ext {
        Some(e) => {
            if e.unicode_len() > 0 {
                name.append(".");
                name.append(e.as_str());
            }
        },
        None => {},
    }
    name
}

/// The name of the cached copy of the object `key` fetched from `uri`.
pub fn cache_file_name(uri: &str, key: &str) -> (r: String)
    ensures
        r@ == cache_name_spec(uri@, key@),
{
    with_extension(md5_hex(uri), path_extension(key))
}

/// The name under which fetched content is committed: `fetch_` and the hex
/// MD5 of the URL.
pub fn fetch_file_name(url: &str) -> (r: String)
    ensures
        r@ == "fetch_"@ + hex_of(md5_of(encode_utf8(url@))),
{
    let mut r = String::from_str("fetch_");
    let h = md5_hex(url);
    r.append(h.as_str());
    r
}

/// The internal key of an object imported from another bucket.
pub fn import_key(bucket: &str, key: &str) -> (r: String)
    ensures
        r@ == "imported/"@ + bucket@ + "/"@ + key@,
{
    let mut r = String::from_str("imported/");
    r.append(bucket);
    r.append("/");
    r.append(key);
    r
}

} // verus!
