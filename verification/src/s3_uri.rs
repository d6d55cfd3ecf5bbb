//! `s3://` object and prefix URIs, destination keys and ETags.
use vstd::prelude::*;
use vstd::string::*;

use crate::error::{Error, ErrorView, Result};
use crate::text::{
    cat2, cat3, cat4, ends_with_char, find_char, find_from, from_chars, lemma_find_char_is,
    skip_leading, skip_trailing, starts_with, starts_with_spec, to_chars, trim_bounds, trim_end,
    trim_leading, trim_start, trim_trailing,
};

verus! {

/// Parsed S3 object URI.
///
/// Use [`S3Object::parse`] to construct an object from an `s3://bucket/key`
/// string.
#[derive(Debug, PartialEq, Eq)]
pub struct S3Object {
    /// S3 bucket name.
    pub bucket: String,
    /// S3 object key.
    pub key: String,
}

/// Parsed S3 destination prefix URI.
///
/// Prefixes may be empty, for example `s3://my-bucket`.
#[derive(Debug, PartialEq, Eq)]
pub struct S3Prefix {
    /// S3 bucket name.
    pub bucket: String,
    /// Destination key prefix, without a leading slash.
    pub prefix: String,
}

/// The bucket and what follows it, or the reason why there are none.
pub open spec fn s3_parts(uri: Seq<char>, require_key: bool) -> core::result::Result<
    (Seq<char>, Seq<char>),
    Seq<char>,
> {
    if !starts_with_spec(uri, "s3://"@) {
        Err("missing s3:// scheme"@)
    } else {
        let rest = uri.skip(5);
        let slash = find_char(rest, '/');
        if slash == rest.len() && require_key {
            Err("missing object key"@)
        } else if slash == 0 {
            Err("missing bucket"@)
        } else if slash == rest.len() {
            Ok((rest, Seq::empty()))
        } else if require_key && slash + 1 == rest.len() {
            Err("missing object key"@)
        } else {
            Ok((rest.take(slash), rest.skip(slash + 1)))
        }
    }
}

/// The bucket and key that an object URI names, or the reason why it names none.
pub open spec fn object_parts(uri: Seq<char>) -> core::result::Result<
    (Seq<char>, Seq<char>),
    Seq<char>,
> {
    match s3_parts(uri, true) {
        Err(reason) => Err(reason),
        Ok((bucket, rest)) => {
            let key = trim_leading(rest, '/');
            if key.len() == 0 {
                Err("missing object key"@)
            } else {
                Ok((bucket, key))
            }
        },
    }
}

/// The bucket and prefix that a prefix URI names, or the reason why it names none.
pub open spec fn prefix_parts(uri: Seq<char>) -> core::result::Result<
    (Seq<char>, Seq<char>),
    Seq<char>,
> {
    match s3_parts(uri, false) {
        Err(reason) => Err(reason),
        Ok((bucket, rest)) => Ok((bucket, trim_leading(rest, '/'))),
    }
}

/// The URI of an object.
pub open spec fn object_uri(bucket: Seq<char>, key: Seq<char>) -> Seq<char> {
    "s3://"@ + bucket + "/"@ + key
}

/// The URI of a prefix.
pub open spec fn prefix_uri(bucket: Seq<char>, prefix: Seq<char>) -> Seq<char> {
    if prefix.len() == 0 {
        "s3://"@ + bucket
    } else {
        "s3://"@ + bucket + "/"@ + prefix
    }
}

/// The destination key of a ZIP path under a prefix.
pub open spec fn destination_key(prefix: Seq<char>, zip_path: Seq<char>) -> Seq<char> {
    if prefix.len() == 0 {
        zip_path
    } else if prefix.last() == '/' {
        prefix + zip_path
    } else {
        prefix + "/"@ + zip_path
    }
}

/// The key prefix that holds every destination key of a prefix.
pub open spec fn list_prefix(prefix: Seq<char>) -> Seq<char> {
    if prefix.len() == 0 || prefix.last() == '/' {
        prefix
    } else {
        prefix + "/"@
    }
}

fn invalid_s3_uri(uri: &str, reason: &str) -> (error: Error)
    ensures
        error@ == (ErrorView::InvalidS3Uri { uri: uri@, reason: reason@ }),
{
    Error::InvalidS3Uri { uri: uri.to_owned(), reason: reason.to_owned() }
}

fn parse_s3_parts(uri: &str, require_key: bool) -> (parts: Result<(String, String)>)
    ensures
        match s3_parts(uri@, require_key) {
            Ok((bucket, rest)) => parts is Ok && parts->Ok_0.0@ == bucket && parts->Ok_0.1@
                == rest,
            Err(reason) => parts is Err && parts->Err_0@ == (ErrorView::InvalidS3Uri {
                uri: uri@,
                reason,
            }),
        },
{
    if !starts_with(uri, "s3://") {
        return Err(invalid_s3_uri(uri, "missing s3:// scheme"));
    }
    proof {
        reveal_strlit("s3://");
    }
    let chars = to_chars(uri);
    let slash: usize = find_from(&chars, 5, '/');
    if slash == chars.len() && require_key {
        return Err(invalid_s3_uri(uri, "missing object key"));
    }
    if slash == 5 {
        return Err(invalid_s3_uri(uri, "missing bucket"));
    }
    let bucket = from_chars(&chars, 5, slash);
    let ghost rest = uri@.skip(5);
    if slash == chars.len() {
        assert(bucket@ =~= rest);
        return Ok((bucket, String::new()));
    }
    if require_key && slash + 1 == chars.len() {
        return Err(invalid_s3_uri(uri, "missing object key"));
    }
    let key = from_chars(&chars, slash + 1, chars.len());
    assert(bucket@ =~= rest.take(slash - 5));
    assert(key@ =~= rest.skip(slash - 5 + 1));
    Ok((bucket, key))
}

fn trim_leading_slashes(s: &str) -> (trimmed: String)
    ensures
        trimmed@ == trim_leading(s@, '/'),
{
    let chars = to_chars(s);
    let at: usize = skip_leading(&chars, 0, chars.len(), '/');
    assert(chars@.subrange(0, chars.len() as int) =~= chars@);
    from_chars(&chars, at, chars.len())
}

impl S3Object {
    /// Parses an object URI such as `s3://my-bucket/path/archive.zip`.
    pub fn parse(uri: &str) -> (object: Result<S3Object>)
        ensures
            match object_parts(uri@) {
                Ok((bucket, key)) => object is Ok && object->Ok_0.bucket@ == bucket
                    && object->Ok_0.key@ == key,
                Err(reason) => object is Err && object->Err_0@ == (ErrorView::InvalidS3Uri {
                    uri: uri@,
                    reason,
                }),
            },
    {
        match parse_s3_parts(uri, true) {
            Err(error) => Err(error),
            Ok((bucket, rest)) => {
                let key = trim_leading_slashes(&rest);
                if key.as_str().is_empty() {
                    return Err(invalid_s3_uri(uri, "missing object key"));
                }
                Ok(S3Object { bucket, key })
            },
        }
    }

    /// Formats this object as an `s3://bucket/key` URI.
    pub fn uri(&self) -> (uri: String)
        ensures
            uri@ == object_uri(self.bucket@, self.key@),
    {
        cat4("s3://", &self.bucket, "/", &self.key)
    }
}

impl Clone for S3Object {
    fn clone(&self) -> (copy: S3Object)
        ensures
            copy == *self,
    {
        S3Object { bucket: self.bucket.clone(), key: self.key.clone() }
    }
}

impl S3Prefix {
    /// Parses a prefix URI such as `s3://my-bucket/site/`.
    pub fn parse(uri: &str) -> (prefix: Result<S3Prefix>)
        ensures
            match prefix_parts(uri@) {
                Ok((bucket, prefix_text)) => prefix is Ok && prefix->Ok_0.bucket@ == bucket
                    && prefix->Ok_0.prefix@ == prefix_text,
                Err(reason) => prefix is Err && prefix->Err_0@ == (ErrorView::InvalidS3Uri {
                    uri: uri@,
                    reason,
                }),
            },
    {
        match parse_s3_parts(uri, false) {
            Err(error) => Err(error),
            Ok((bucket, rest)) => Ok(S3Prefix { bucket, prefix: trim_leading_slashes(&rest) }),
        }
    }

    /// Joins a normalized ZIP path onto this prefix.
    pub fn join_key(&self, zip_path: &str) -> (key: String)
        ensures
            key@ == destination_key(self.prefix@, zip_path@),
    {
        join_destination_key(&self.prefix, zip_path)
    }

    /// Formats this prefix as an `s3://bucket/prefix` URI.
    pub fn uri(&self) -> (uri: String)
        ensures
            uri@ == prefix_uri(self.bucket@, self.prefix@),
    {
        if self.prefix.as_str().is_empty() {
            cat2("s3://", &self.bucket)
        } else {
            cat4("s3://", &self.bucket, "/", &self.prefix)
        }
    }
}

impl Clone for S3Prefix {
    fn clone(&self) -> (copy: S3Prefix)
        ensures
            copy == *self,
    {
        S3Prefix { bucket: self.bucket.clone(), prefix: self.prefix.clone() }
    }
}

/// Joins a normalized ZIP path onto a key prefix.
pub fn join_destination_key(prefix: &str, zip_path: &str) -> (key: String)
    ensures
        key@ == destination_key(prefix@, zip_path@),
{
    if prefix.is_empty() {
        zip_path.to_owned()
    } else if ends_with_char(prefix, '/') {
        cat2(prefix, zip_path)
    } else {
        cat3(prefix, "/", zip_path)
    }
}

/// The prefix to list so that exactly the keys under `prefix` are seen.
pub fn normalized_list_prefix(prefix: &str) -> (listed: String)
    ensures
        listed@ == list_prefix(prefix@),
{
    if prefix.is_empty() || ends_with_char(prefix, '/') {
        prefix.to_owned()
    } else {
        cat2(prefix, "/")
    }
}

/// `c` with an ASCII uppercase letter made lowercase.
pub open spec fn ascii_lower(c: char) -> char {
    if 'A' <= c <= 'Z' {
        ((c as u8) + 32) as u8 as char
    } else {
        c
    }
}

pub open spec fn ascii_lower_seq(s: Seq<char>) -> Seq<char> {
    s.map_values(|c: char| ascii_lower(c))
}

pub open spec fn is_hex_digit(c: char) -> bool {
    ('0' <= c <= '9') || ('a' <= c <= 'f') || ('A' <= c <= 'F')
}

/// Whether `s` has the form of an MD5 digest: 32 hexadecimal digits.
pub open spec fn is_md5_hex(s: Seq<char>) -> bool {
    &&& s.len() == 32
    &&& forall|i: int| 0 <= i < s.len() ==> #[trigger] is_hex_digit(s[i])
}

/// What an ETag holds once white space, quotes and letter case are set aside.
pub open spec fn etag_body(etag: Seq<char>) -> Seq<char> {
    ascii_lower_seq(trim_trailing(trim_leading(trim_end(trim_start(etag)), '"'), '"'))
}

/// The MD5 digest that an ETag holds, if it holds one.
pub open spec fn etag_md5(etag: Seq<char>) -> Option<Seq<char>> {
    if is_md5_hex(etag_body(etag)) {
        Some(etag_body(etag))
    } else {
        None
    }
}

fn to_ascii_lower(c: char) -> (lower: char)
    ensures
        lower == ascii_lower(c),
{
    if 'A' <= c && c <= 'Z' {
        (c as u8 + 32) as char
    } else {
        c
    }
}

/// Reads an ETag as an MD5 digest in lowercase hexadecimal.
///
/// Multipart and other ETags that are not 32 hexadecimal digits give `None`.
pub fn normalize_etag(etag: &str) -> (md5: Option<String>)
    ensures
        match etag_md5(etag@) {
            Some(digest) => md5 is Some && md5->Some_0@ == digest,
            None => md5 is None,
        },
{
    let chars = to_chars(etag);
    let (start, end) = trim_bounds(&chars);
    let from: usize = skip_leading(&chars, start, end, '"');
    let to: usize = skip_trailing(&chars, from, end, '"');
    let ghost quoted = chars@.subrange(from as int, to as int);
    let mut lower = String::new();
    let mut hex: bool = true;
    let mut i: usize = from;
    while i < to
        invariant
            from <= i <= to <= chars.len(),
            quoted == chars@.subrange(from as int, to as int),
            lower@ == ascii_lower_seq(quoted).take(i - from),
            hex == (forall|j: int|
                0 <= j < i - from ==> #[trigger] is_hex_digit(ascii_lower_seq(quoted)[j])),
        decreases to - i,
    {
        let c = to_ascii_lower(chars[i]);
        let ghost k = i - from;
        assert(ascii_lower_seq(quoted)[k] == c);
        assert(ascii_lower_seq(quoted).take(k + 1) =~= ascii_lower_seq(quoted).take(k).push(c));
        let digit: bool = ('0' <= c && c <= '9') || ('a' <= c && c <= 'f') || ('A' <= c && c
            <= 'F');
        assert(digit == is_hex_digit(ascii_lower_seq(quoted)[k]));
        hex = hex && digit;
        lower.push(c);
        i += 1;
    }
    assert(lower@ =~= etag_body(etag@));
    if to - from == 32 && hex {
        Some(lower)
    } else {
        None
    }
}

/// Whether the bucket and key are such as parsing an object URI gives.
pub open spec fn is_object(bucket: Seq<char>, key: Seq<char>) -> bool {
    bucket.len() > 0 && !bucket.contains('/') && key.len() > 0 && key[0] != '/'
}

/// Whether the bucket and prefix are such as parsing a prefix URI gives.
pub open spec fn is_prefix(bucket: Seq<char>, prefix: Seq<char>) -> bool {
    bucket.len() > 0 && !bucket.contains('/') && (prefix.len() > 0 ==> prefix[0] != '/')
}

proof fn lemma_trim_leading(s: Seq<char>, c: char)
    ensures
        trim_leading(s, c).len() > 0 ==> trim_leading(s, c)[0] != c,
    decreases s.len(),
{
    if s.len() > 0 && s[0] == c {
        lemma_trim_leading(s.skip(1), c);
    }
}

proof fn lemma_joined_parts(bucket: Seq<char>, rest: Seq<char>, require_key: bool)
    requires
        bucket.len() > 0,
        !bucket.contains('/'),
        rest.len() > 0,
    ensures
        s3_parts("s3://"@ + bucket + "/"@ + rest, require_key) == core::result::Result::<
            (Seq<char>, Seq<char>),
            Seq<char>,
        >::Ok((bucket, rest)),
{
    reveal_strlit("s3://");
    reveal_strlit("/");
    let uri = "s3://"@ + bucket + "/"@ + rest;
    let tail = uri.skip(5);
    assert(uri.take(5) =~= "s3://"@);
    assert(tail =~= bucket + "/"@ + rest);
    assert forall|i: int| 0 <= i < bucket.len() implies tail[i] != '/' by {
        assert(bucket.contains(bucket[i]));
    }
    assert(tail[bucket.len() as int] == '/');
    lemma_find_char_is(tail, '/', bucket.len() as int);
    assert(tail.take(bucket.len() as int) =~= bucket);
    assert(tail.skip(bucket.len() as int + 1) =~= rest);
}

/// Parsing an object URI gives a bucket without slashes and a key that is
/// neither empty nor starts with a slash.
pub proof fn law_parsed_object_is_valid(uri: Seq<char>)
    ensures
        match object_parts(uri) {
            Ok((bucket, key)) => is_object(bucket, key),
            Err(_) => true,
        },
{
    crate::text::lemma_find_char(uri.skip(5), '/');
    match s3_parts(uri, true) {
        Ok((_, rest)) => lemma_trim_leading(rest, '/'),
        Err(_) => {},
    }
}

/// Parsing the URI of an object gives the object back.
pub proof fn law_object_uri_round_trip(bucket: Seq<char>, key: Seq<char>)
    requires
        is_object(bucket, key),
    ensures
        object_parts(object_uri(bucket, key)) == core::result::Result::<
            (Seq<char>, Seq<char>),
            Seq<char>,
        >::Ok((bucket, key)),
{
    lemma_joined_parts(bucket, key, true);
}

/// Parsing a prefix URI gives a bucket without slashes and a prefix that does
/// not start with a slash.
pub proof fn law_parsed_prefix_is_valid(uri: Seq<char>)
    ensures
        match prefix_parts(uri) {
            Ok((bucket, prefix)) => is_prefix(bucket, prefix),
            Err(_) => true,
        },
{
    crate::text::lemma_find_char(uri.skip(5), '/');
    match s3_parts(uri, false) {
        Ok((_, rest)) => lemma_trim_leading(rest, '/'),
        Err(_) => {},
    }
}

/// Parsing the URI of a prefix gives the prefix back.
pub proof fn law_prefix_uri_round_trip(bucket: Seq<char>, prefix: Seq<char>)
    requires
        is_prefix(bucket, prefix),
    ensures
        prefix_parts(prefix_uri(bucket, prefix)) == core::result::Result::<
            (Seq<char>, Seq<char>),
            Seq<char>,
        >::Ok((bucket, prefix)),
{
    if prefix.len() == 0 {
        reveal_strlit("s3://");
        let uri = prefix_uri(bucket, prefix);
        assert(uri.take(5) =~= "s3://"@);
        assert(uri.skip(5) =~= bucket);
        assert forall|i: int| 0 <= i < bucket.len() implies bucket[i] != '/' by {
            assert(bucket.contains(bucket[i]));
        }
        lemma_find_char_is(bucket, '/', bucket.len() as int);
        assert(prefix =~= Seq::<char>::empty());
    } else {
        lemma_joined_parts(bucket, prefix, false);
    }
}

/// Every destination key lies under the prefix that is listed.
pub proof fn law_destination_key_is_listed(prefix: Seq<char>, zip_path: Seq<char>)
    ensures
        starts_with_spec(destination_key(prefix, zip_path), list_prefix(prefix)),
        destination_key(prefix, zip_path).skip(list_prefix(prefix).len() as int) == zip_path,
{
    reveal_strlit("/");
    let key = destination_key(prefix, zip_path);
    let listed = list_prefix(prefix);
    assert(key =~= listed + zip_path);
    assert(key.take(listed.len() as int) =~= listed);
    assert(key.skip(listed.len() as int) =~= zip_path);
}

/// Distinct ZIP paths have distinct destination keys.
pub proof fn law_destination_keys_are_distinct(
    prefix: Seq<char>,
    first: Seq<char>,
    second: Seq<char>,
)
    ensures
        destination_key(prefix, first) == destination_key(prefix, second) <==> first == second,
{
    law_destination_key_is_listed(prefix, first);
    law_destination_key_is_listed(prefix, second);
}

/// Listing a listed prefix lists the same keys.
pub proof fn law_list_prefix_is_stable(prefix: Seq<char>)
    ensures
        list_prefix(list_prefix(prefix)) == list_prefix(prefix),
{
    reveal_strlit("/");
}

} // verus!
