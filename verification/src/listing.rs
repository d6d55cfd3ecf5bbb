//! Answers of S3 that describe objects: listings and heads.
use vstd::prelude::*;
use vstd::string::*;

use crate::destination::{DestinationListing, DestinationObject, DestinationView};
use crate::error::{Error, ErrorView, Result};
use crate::s3_uri::{list_prefix, normalized_list_prefix, S3Object, S3Prefix};
use crate::text::{cat2, signed_decimal, signed_decimal_spec};
use crate::zip_manifest::opt_view;

verus! {

/// An object as a listing gives it.
#[derive(Debug)]
pub struct ListedObject {
    pub key: Option<String>,
    pub size: Option<i64>,
    pub etag: Option<String>,
}

pub struct ListedView {
    pub key: Option<Seq<char>>,
    pub size: Option<i64>,
    pub etag: Option<Seq<char>>,
}

impl View for ListedObject {
    type V = ListedView;

    open spec fn view(&self) -> ListedView {
        ListedView { key: opt_view(self.key), size: self.size, etag: opt_view(self.etag) }
    }
}

pub open spec fn listed_views(page: Seq<ListedObject>) -> Seq<ListedView> {
    page.map_values(|object: ListedObject| object@)
}

/// The error of a listing.
pub open spec fn list_error(bucket: Seq<char>, key: Seq<char>, message: Seq<char>) -> ErrorView {
    ErrorView::S3 { operation: "ListObjectsV2"@, bucket, key, message }
}

pub(crate) fn listing_failed(bucket: &str, key: &str, message: String) -> (error: Error)
    ensures
        error@ == list_error(bucket@, key@, message@),
{
    Error::S3 {
        operation: "ListObjectsV2",
        bucket: bucket.to_owned(),
        key: key.to_owned(),
        message,
    }
}

/// What follows a page of a listing: the token of the next page, nothing, or
/// an error where the page was cut off without a token.
pub open spec fn page_after(
    source: S3Prefix,
    is_truncated: Option<bool>,
    token: Option<Seq<char>>,
) -> core::result::Result<Option<Seq<char>>, ErrorView> {
    if is_truncated == Some(true) {
        match token {
            Some(token) => Ok(Some(token)),
            None => Err(
                list_error(
                    source.bucket@,
                    list_prefix(source.prefix@),
                    "response was truncated without a continuation token"@,
                ),
            ),
        }
    } else {
        Ok(None)
    }
}

/// Decides what follows a page of a listing.
pub fn next_list_page(source: &S3Prefix, is_truncated: Option<bool>, token: Option<String>) -> (result:
    Result<Option<String>>)
    ensures
        match page_after(*source, is_truncated, opt_view(token)) {
            Ok(next) => result is Ok && opt_view(result->Ok_0) == next,
            Err(error) => result is Err && result->Err_0@ == error,
        },
{
    match is_truncated {
        Some(true) => {},
        _ => return Ok(None),
    }
    match token {
        Some(token) => Ok(Some(token)),
        None => Err(
            listing_failed(
                &source.bucket,
                &normalized_list_prefix(&source.prefix),
                "response was truncated without a continuation token".to_owned(),
            ),
        ),
    }
}

/// A listed size, where it is one.
pub open spec fn natural_size(size: Option<i64>) -> Option<u64> {
    match size {
        Some(size) => if size >= 0 {
            Some(size as u64)
        } else {
            None
        },
        None => None,
    }
}

/// The destination objects by key after the first `n` listed ones. Objects
/// without a key are left out, and later ones win.
pub open spec fn listed_destination(
    before: Map<Seq<char>, DestinationView>,
    page: Seq<ListedView>,
    n: int,
) -> Map<Seq<char>, DestinationView>
    decreases n,
{
    if n <= 0 {
        before
    } else {
        let rest = listed_destination(before, page, n - 1);
        match page[n - 1].key {
            Some(key) => rest.insert(
                key,
                DestinationView { etag: page[n - 1].etag, size: natural_size(page[n - 1].size) },
            ),
            None => rest,
        }
    }
}

/// Takes in a page of the listing of a destination.
pub fn add_destination_page(listing: &mut DestinationListing, page: Vec<ListedObject>)
    requires
        old(listing).wf(),
    ensures
        final(listing).wf(),
        final(listing)@ == listed_destination(
            old(listing)@,
            listed_views(page@),
            page@.len() as int,
        ),
{
    let ghost before = listing@;
    let ghost views = listed_views(page@);
    let ghost objects = page@;
    for object in it: page
        invariant
            it.seq() == objects,
            views == listed_views(objects),
            listing.wf(),
            listing@ == listed_destination(before, views, it.index() as int),
    {
        assert(views[it.index() as int] == object@);
        let size: Option<u64> = match object.size {
            Some(size) => if size >= 0 {
                Some(size as u64)
            } else {
                None
            },
            None => None,
        };
        match object.key {
            Some(key) => listing.insert(key, DestinationObject { etag: object.etag, size }),
            None => {},
        }
    }
}

/// The length and ETag of a source object.
#[derive(Debug)]
pub struct SourceHead {
    pub len: u64,
    pub etag: Option<String>,
}

/// The error of a source's head.
pub open spec fn head_error(bucket: Seq<char>, key: Seq<char>, message: Seq<char>) -> ErrorView {
    ErrorView::S3 { operation: "HeadObject"@, bucket, key, message }
}

fn head_failed(source: &S3Object, message: String) -> (error: Error)
    ensures
        error@ == head_error(source.bucket@, source.key@, message@),
{
    Error::S3 {
        operation: "HeadObject",
        bucket: source.bucket.clone(),
        key: source.key.clone(),
        message,
    }
}

/// Reads the head of a source object: it must have a length, and no negative one.
pub fn source_head(source: &S3Object, content_length: Option<i64>, etag: Option<String>) -> (result:
    Result<SourceHead>)
    ensures
        match content_length {
            None => result is Err && result->Err_0@ == head_error(
                source.bucket@,
                source.key@,
                "missing content length"@,
            ),
            Some(len) => if len < 0 {
                result is Err && result->Err_0@ == head_error(
                    source.bucket@,
                    source.key@,
                    "negative content length "@ + signed_decimal_spec(len as int),
                )
            } else {
                result is Ok && result->Ok_0.len == len && result->Ok_0.etag == etag
            },
        },
{
    match content_length {
        None => Err(head_failed(source, "missing content length".to_owned())),
        Some(len) => if len < 0 {
            Err(head_failed(source, cat2("negative content length ", &signed_decimal(len))))
        } else {
            Ok(SourceHead { len: len as u64, etag })
        },
    }
}

/// Metadata about a source ZIP object stored in S3.
#[derive(Clone, Copy, Debug, PartialEq, Eq, Structural)]
pub struct S3ZipInfo {
    /// Source ZIP object size in bytes.
    pub size: u64,
    /// Number of file entries in the ZIP, excluding directories and the
    /// embedded update catalog.
    pub file_count: usize,
}

} // verus!
