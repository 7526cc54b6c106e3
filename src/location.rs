//! Where a run works: the bucket and key prefix named by an `s3://` URL.
use vstd::prelude::*;
use vstd::string::*;

verus! {

#[verifier::external_type_specification]
#[verifier::external_body]
pub struct ExUrl(url::Url);

#[verifier::external_type_specification]
#[verifier::external_body]
pub struct ExUrlParseError(url::ParseError);

/// The URL that a text parses to, `None` where it is no valid URL.
pub uninterp spec fn parsed_url(text: Seq<char>) -> Option<url::Url>;

/// The scheme of a URL, such as `s3`.
pub uninterp spec fn url_scheme(u: url::Url) -> Seq<char>;

/// The host of a URL, where it has one.
pub uninterp spec fn url_host(u: url::Url) -> Option<Seq<char>>;

/// The path of a URL, without query or fragment.
pub uninterp spec fn url_path(u: url::Url) -> Seq<char>;

/// Relies on `url::Url::parse`: the URL that the text denotes, or an error.
pub assume_specification[ url::Url::parse ](input: &str) -> (r: Result<url::Url, url::ParseError>)
    ensures
        r matches Ok(u) ==> parsed_url(input@) == Some(u),
        r is Err <==> parsed_url(input@) is None,
;

/// Relies on `url::Url::scheme`.
pub assume_specification[ url::Url::scheme ](u: &url::Url) -> (r: &str)
    ensures
        r@ == url_scheme(*u),
;

/// Relies on `url::Url::host_str`: the host's text, nothing where there is no host.
pub assume_specification[ url::Url::host_str ](u: &url::Url) -> (r: Option<&str>)
    ensures
        r is Some <==> url_host(*u) is Some,
        r matches Some(h) ==> url_host(*u) == Some(h@),
;

/// Relies on `url::Url::path`.
pub assume_specification[ url::Url::path ](u: &url::Url) -> (r: &str)
    ensures
        r@ == url_path(*u),
;

/// The bucket and key prefix that a run works under.
pub struct S3Url {
    pub bucket: String,
    pub prefix: String,
}

/// Why a URL names no place in the store.
pub enum UrlError {
    /// The text is no URL.
    Invalid(url::ParseError),
    /// The scheme is not `s3`.
    UnsupportedScheme,
    /// The URL has no host to take as the bucket.
    MissingBucket,
}

/// `s` without its leading slashes.
pub open spec fn trim_slashes(s: Seq<char>) -> Seq<char>
    decreases s.len(),
{
    if s.len() > 0 && s[0] == '/' {
        trim_slashes(s.drop_first())
    } else {
        s
    }
}

/// The scheme that names the object store.
pub open spec fn s3_scheme() -> Seq<char> {
    seq!['s', '3']
}

/// The place that URL parts name: the host is the bucket and the path,
/// without leading slashes, the prefix.
pub open spec fn location_of(
    scheme: Seq<char>,
    host: Option<Seq<char>>,
    path: Seq<char>,
    r: Result<S3Url, UrlError>,
) -> bool {
    if scheme != s3_scheme() {
        r matches Err(UrlError::UnsupportedScheme)
    } else {
        match host {
            None => r matches Err(UrlError::MissingBucket),
            Some(h) => r matches Ok(loc) && loc.bucket@ == h && loc.prefix@ == trim_slashes(path),
        }
    }
}

/// Takes the bucket and prefix from the parts of a URL: its scheme must be
/// `s3`, its host is the bucket, and its path without leading slashes the
/// prefix.
pub fn s3_location(scheme: &str, host: Option<&str>, path: &str) -> (r: Result<S3Url, UrlError>)
    ensures
        location_of(scheme@, match host {
            Some(h) => Some(h@),
            None => None,
        }, path@, r),
{
    let n = scheme.unicode_len();
    if !(n == 2 && scheme.get_char(0) == 's' && scheme.get_char(1) == '3') {
        proof {
            if scheme@.len() == 2 {
                assert(scheme@ != s3_scheme() || !(scheme@[0] == 's' && scheme@[1] == '3'));
            }
        }
        assert(scheme@ != s3_scheme());
        return Err(UrlError::UnsupportedScheme);
    }
    assert(scheme@ =~= s3_scheme());
    match host {
        None => Err(UrlError::MissingBucket),
        Some(h) => {
            let len = path.unicode_len();
            let mut i: usize = 0;
            assert(path@.skip(0) =~= path@);
            while i < len && path.get_char(i) == '/'
                invariant
                    i <= len,
                    len == path@.len(),
                    trim_slashes(path@.skip(i as int)) == trim_slashes(path@),
                decreases len - i,
            {
                assert(path@.skip(i as int).drop_first() =~= path@.skip(i + 1));
                i = i + 1;
            }
            assert(path@.subrange(i as int, len as int) =~= path@.skip(i as int));
            let rest = path.substring_char(i, len);
            Ok(S3Url { bucket: h.to_owned(), prefix: rest.to_owned() })
        },
    }
}

/// Reads the bucket and key prefix from an `s3://bucket/prefix` URL.
pub fn parse_s3_url(text: &str) -> (r: Result<S3Url, UrlError>)
    ensures
        parsed_url(text@) is None <==> r matches Err(UrlError::Invalid(_)),
        parsed_url(text@) matches Some(u) ==> location_of(
            url_scheme(u),
            url_host(u),
            url_path(u),
            r,
        ),
{
    match url::Url::parse(text) {
        Err(e) => Err(UrlError::Invalid(e)),
        Ok(u) => s3_location(u.scheme(), u.host_str(), u.path()),
    }
}

} // verus!
