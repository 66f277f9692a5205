//! Base URLs of the Qubic RPC services, request URLs and the reading of answers.
use crate::rpc::{trim_end_char, trimmed_end_len};
use vstd::prelude::*;

verus! {

pub const LIVE_URL: &'static str = "https://rpc.qubic.org/live/v1";

pub const QUERY_URL: &'static str = "https://rpc.qubic.org/query/v1";

pub const ARCHIVE_URL: &'static str = "https://rpc.qubic.org";

pub const STATS_URL: &'static str = "https://rpc.qubic.org";

/// The base URLs of the four Qubic RPC services.
#[derive(Clone, Debug)]
pub struct QubicClientConfig {
    pub live_url: String,
    pub query_url: String,
    pub archive_url: String,
    pub stats_url: String,
}

impl Default for QubicClientConfig {
    /// The public Qubic endpoints.
    fn default() -> (r: Self)
        ensures
            r.live_url@ == LIVE_URL@,
            r.query_url@ == QUERY_URL@,
            r.archive_url@ == ARCHIVE_URL@,
            r.stats_url@ == STATS_URL@,
    {
        QubicClientConfig {
            live_url: String::from_str(LIVE_URL),
            query_url: String::from_str(QUERY_URL),
            archive_url: String::from_str(ARCHIVE_URL),
            stats_url: String::from_str(STATS_URL),
        }
    }
}

impl QubicClientConfig {
    pub fn live_url(self, value: String) -> (r: Self)
        ensures
            r == (QubicClientConfig { live_url: value, ..self }),
    {
        QubicClientConfig { live_url: value, ..self }
    }

    pub fn query_url(self, value: String) -> (r: Self)
        ensures
            r == (QubicClientConfig { query_url: value, ..self }),
    {
        QubicClientConfig { query_url: value, ..self }
    }

    pub fn archive_url(self, value: String) -> (r: Self)
        ensures
            r == (QubicClientConfig { archive_url: value, ..self }),
    {
        QubicClientConfig { archive_url: value, ..self }
    }

    pub fn stats_url(self, value: String) -> (r: Self)
        ensures
            r == (QubicClientConfig { stats_url: value, ..self }),
    {
        QubicClientConfig { stats_url: value, ..self }
    }
}

/// The URL that `url` 2 gives for `base` with the path `segments` appended, each segment
/// percent-encoded; `None` when `base` does not parse or cannot be a base.
pub uninterp spec fn url_with_segments(base: Seq<char>, segments: Seq<Seq<char>>) -> Option<Seq<char>>;

/// The texts of `segments`.
pub open spec fn segment_texts(segments: Seq<String>) -> Seq<Seq<char>> {
    segments.map_values(|s: String| s@)
}

/// Twelve bytes per character of the segments, at most four in UTF-8 and each percent-encoded
/// in at most three, and one `/` before each segment.
pub open spec fn segments_len_bound(segments: Seq<Seq<char>>) -> nat
    decreases segments.len(),
{
    if segments.len() == 0 {
        0
    } else {
        segments_len_bound(segments.drop_last()) + 12 * segments.last().len() + 1
    }
}

/// A bound on the length in bytes of the URL that `base` and `segments` give: twelve bytes per
/// character of the base, one for a `/` that parsing may add, and the bound of the segments.
pub open spec fn url_len_bound(base: Seq<char>, segments: Seq<Seq<char>>) -> nat {
    12 * base.len() + 1 + segments_len_bound(segments)
}

/// Calls `url::Url::parse(base)`, then `path_segments_mut()` and `extend(segments)`, and hands
/// back the URL's text (`Url::as_str`); `None` when parsing fails or the URL cannot be a base.
/// The result is named `url_with_segments`; the percent-encoding rules are not written out.
/// When the extended path is dropped, `url` converts the URL's length to `u32` and panics if it
/// does not fit; `requires` keeps the URL's length within that.
#[verifier::external_body]
pub(crate) fn url_with_segments_exec(base: &str, segments: &Vec<String>) -> (r: Option<String>)
    requires
        url_len_bound(base@, segment_texts(segments@)) <= u32::MAX,
    ensures
        match r {
            Some(u) => url_with_segments(base@, segment_texts(segments@)) == Some(u@),
            None => url_with_segments(base@, segment_texts(segments@)) is None,
        },
{
    let mut url = url::Url::parse(base).ok()?;
    url.path_segments_mut().ok()?.extend(segments.iter());
    Some(url.as_str().to_string())
}

/// Whether `base` and `segments` stay within the length that `request_url` accepts.
pub fn url_len_fits(base: &str, segments: &Vec<String>) -> (r: bool)
    ensures
        r == (url_len_bound(base@, segment_texts(segments@)) <= u32::MAX),
{
    let limit: u64 = 0xffff_ffff;
    let n = base.unicode_len();
    if n as u64 > limit / 12 {
        return false;
    }
    let mut total: u64 = 12 * (n as u64) + 1;
    let mut i: usize = 0;
    assert(segment_texts(segments@).subrange(0, 0) =~= Seq::<Seq<char>>::empty());
    while i < segments.len()
        invariant
            i <= segments@.len(),
            n == base@.len(),
            limit == u32::MAX,
            total <= limit,
            total == 12 * n + 1 + segments_len_bound(segment_texts(segments@).subrange(0, i as int)),
        decreases segments@.len() - i,
    {
        let ghost ts = segment_texts(segments@);
        assert(ts.subrange(0, i + 1).drop_last() =~= ts.subrange(0, i as int));
        assert(ts.subrange(0, i + 1).last() == segments@[i as int]@);
        let m = segments[i].unicode_len();
        if m as u64 > (limit - total) / 12 {
            assert(total + 12 * m > limit) by (nonlinear_arith)
                requires
                    m > (limit - total) / 12,
                    total <= limit,
            ;
            proof {
                lemma_segments_bound_grows(ts, i as int + 1);
            }
            return false;
        }
        if 12 * (m as u64) + 1 > limit - total {
            proof {
                lemma_segments_bound_grows(ts, i as int + 1);
            }
            return false;
        }
        total = total + 12 * (m as u64) + 1;
        i = i + 1;
    }
    assert(segment_texts(segments@).subrange(0, segments@.len() as int) =~= segment_texts(segments@));
    true
}

/// The bound of a prefix of the segments is at most that of all of them.
proof fn lemma_segments_bound_grows(ts: Seq<Seq<char>>, k: int)
    requires
        0 <= k <= ts.len(),
    ensures
        segments_len_bound(ts.subrange(0, k)) <= segments_len_bound(ts),
    decreases ts.len() - k,
{
    if k < ts.len() {
        lemma_segments_bound_grows(ts, k + 1);
        assert(ts.subrange(0, k + 1).drop_last() =~= ts.subrange(0, k));
    } else {
        assert(ts.subrange(0, k) =~= ts);
    }
}

/// The URL of a request: `base` without its trailing `/`, with the path `segments` appended;
/// `None` when that base is not a URL that can carry a path. The URL must stay within `u32`
/// bytes, as `url` keeps its offsets in `u32`.
pub fn request_url(base: &str, segments: &Vec<String>) -> (r: Option<String>)
    requires
        url_len_bound(base@, segment_texts(segments@)) <= u32::MAX,
    ensures
        match r {
            Some(u) => url_with_segments(trim_end_char(base@, '/'), segment_texts(segments@))
                == Some(u@),
            None => url_with_segments(trim_end_char(base@, '/'), segment_texts(segments@)) is None,
        },
{
    let e = trimmed_end_len(base, '/');
    let trimmed = base.substring_char(0, e);
    url_with_segments_exec(trimmed, segments)
}

/// How an HTTP answer is read.
#[derive(Debug, Clone)]
pub enum ResponseClass {
    /// A status outside 200-299: the request fails with the status and the body.
    HttpError { status: u16, body: String },
    /// A success status: the body is decoded as JSON; a failure to decode reports the body.
    Json { body: String },
}

/// Sorts an answer by its status: 200 to 299 is success, anything else an HTTP error.
pub fn classify_response(status: u16, body: String) -> (r: ResponseClass)
    ensures
        200 <= status < 300 ==> r == (ResponseClass::Json { body }),
        !(200 <= status < 300) ==> r == (ResponseClass::HttpError { status, body }),
{
    if 200 <= status && status < 300 {
        ResponseClass::Json { body }
    } else {
        ResponseClass::HttpError { status, body }
    }
}

} // verus!
