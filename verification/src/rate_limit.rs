//! Who a request comes from, and the fixed-window counters that limit logins and comments.
use vstd::hash_map::StringHashMap;
use vstd::prelude::*;
use vstd::string::*;

use crate::error::AppError;
use crate::text::{before_first, concat, prefix_before, push_char, trim, trim_str};

verus! {

/// The first value of each request header that identifies a client, as raw bytes.
#[derive(Clone, Debug)]
pub struct ClientHeaders {
    pub forwarded_for: Option<Vec<u8>>,
    pub real_ip: Option<Vec<u8>>,
    pub user_agent: Option<Vec<u8>>,
}

/// A header byte that `http::HeaderValue::to_str` accepts: visible ASCII or a tab.
pub open spec fn is_visible_ascii(b: u8) -> bool {
    (32 <= b && b < 127) || b == 9
}

/// The text of a header value: `None` unless every byte is visible ASCII.
pub open spec fn header_text(bytes: Seq<u8>) -> Option<Seq<char>> {
    if forall|i: int| 0 <= i < bytes.len() ==> is_visible_ascii(#[trigger] bytes[i]) {
        Some(Seq::new(bytes.len(), |i: int| bytes[i] as char))
    } else {
        None
    }
}

/// `HeaderValue::to_str`: the header's text, when it is all visible ASCII.
pub fn header_str(bytes: &Vec<u8>) -> (r: Option<String>)
    ensures
        match r {
            Some(s) => header_text(bytes@) == Some(s@),
            None => header_text(bytes@) is None,
        },
{
    let mut out = String::new();
    let mut i: usize = 0;
    while i < bytes.len()
        invariant
            i <= bytes@.len(),
            forall|k: int| 0 <= k < i ==> is_visible_ascii(#[trigger] bytes@[k]),
            out@ == Seq::new(i as nat, |k: int| bytes@[k] as char),
        decreases bytes@.len() - i,
    {
        let b = bytes[i];
        if !((32 <= b && b < 127) || b == 9) {
            return None;
        }
        let ghost before = out@;
        push_char(&mut out, b as char);
        assert(out@ =~= Seq::new((i + 1) as nat, |k: int| bytes@[k] as char));
        i = i + 1;
    }
    Some(out)
}

pub open spec fn bytes_opt(v: Option<Vec<u8>>) -> Option<Seq<u8>> {
    match v {
        Some(b) => Some(b@),
        None => None,
    }
}

/// The header that identifies the client: `x-forwarded-for`, else `x-real-ip`, else
/// `user-agent`.
pub open spec fn identifying_header(h: ClientHeaders) -> Option<Seq<u8>> {
    match h.forwarded_for {
        Some(b) => Some(b@),
        None => match h.real_ip {
            Some(b) => Some(b@),
            None => bytes_opt(h.user_agent),
        },
    }
}

/// The first comma-separated element of a header text, without surrounding whitespace.
pub open spec fn first_element(text: Seq<char>) -> Seq<char> {
    trim(before_first(text, ','))
}

/// The key that identifies a client: the first element of the identifying header, or
/// `unknown` when there is none, it is not visible ASCII, or it is blank.
pub open spec fn client_key_of(h: ClientHeaders) -> Seq<char> {
    match identifying_header(h) {
        Some(bytes) => match header_text(bytes) {
            Some(t) => if first_element(t).len() > 0 {
                first_element(t)
            } else {
                "unknown"@
            },
            None => "unknown"@,
        },
        None => "unknown"@,
    }
}

fn first_element_of(text: &str) -> (out: String)
    ensures
        out@ == first_element(text@),
{
    let head = prefix_before(text, ',');
    trim_str(head.as_str())
}

/// The rate-limit identity of the client that sent `headers`.
pub fn client_key(headers: &ClientHeaders) -> (key: String)
    ensures
        key@ == client_key_of(*headers),
{
    let chosen = match &headers.forwarded_for {
        Some(b) => Some(b),
        None => match &headers.real_ip {
            Some(b) => Some(b),
            None => match &headers.user_agent {
                Some(b) => Some(b),
                None => None,
            },
        },
    };
    let unknown = "unknown";
    proof {
        reveal_strlit("unknown");
    }
    match chosen {
        Some(bytes) => match header_str(bytes) {
            Some(t) => {
                let first = first_element_of(t.as_str());
                if first.as_str().unicode_len() > 0 {
                    first
                } else {
                    unknown.to_owned()
                }
            },
            None => unknown.to_owned(),
        },
        None => unknown.to_owned(),
    }
}

/// The client details stored with a new comment.
#[derive(Clone, Debug)]
pub struct CommentRequestMeta {
    pub client_ip: Option<String>,
    pub user_agent: Option<String>,
}

/// The client address of a comment: the first element of `x-forwarded-for`, else of
/// `x-real-ip`, when that header is visible ASCII and the element is not blank.
pub open spec fn comment_ip_of(h: ClientHeaders) -> Option<Seq<char>> {
    let header = match h.forwarded_for {
        Some(b) => Some(b@),
        None => bytes_opt(h.real_ip),
    };
    match header {
        Some(bytes) => match header_text(bytes) {
            Some(t) => if first_element(t).len() > 0 {
                Some(first_element(t))
            } else {
                None
            },
            None => None,
        },
        None => None,
    }
}

/// The user agent of a comment: the whole `user-agent` header when it is visible ASCII.
pub open spec fn comment_agent_of(h: ClientHeaders) -> Option<Seq<char>> {
    match h.user_agent {
        Some(b) => header_text(b@),
        None => None,
    }
}

pub open spec fn text_opt(s: Option<String>) -> Option<Seq<char>> {
    match s {
        Some(v) => Some(v@),
        None => None,
    }
}

/// The client address and user agent recorded with a comment.
pub fn comment_meta(headers: &ClientHeaders) -> (m: CommentRequestMeta)
    ensures
        text_opt(m.client_ip) == comment_ip_of(*headers),
        text_opt(m.user_agent) == comment_agent_of(*headers),
{
    let ip_header = match &headers.forwarded_for {
        Some(b) => Some(b),
        None => match &headers.real_ip {
            Some(b) => Some(b),
            None => None,
        },
    };
    let client_ip = match ip_header {
        Some(bytes) => match header_str(bytes) {
            Some(t) => {
                let first = first_element_of(t.as_str());
                if first.as_str().unicode_len() > 0 {
                    Some(first)
                } else {
                    None
                }
            },
            None => None,
        },
        None => None,
    };
    let user_agent = match &headers.user_agent {
        Some(bytes) => header_str(bytes),
        None => None,
    };
    CommentRequestMeta { client_ip, user_agent }
}

/// The counter key of a login attempt: `login:{client}`.
pub fn login_key(headers: &ClientHeaders) -> (k: String)
    ensures
        k@ == "login:"@ + client_key_of(*headers),
{
    concat("login:", client_key(headers).as_str())
}

/// The counter key of a comment: `comment:{client}`.
pub fn comment_key(headers: &ClientHeaders) -> (k: String)
    ensures
        k@ == "comment:"@ + client_key_of(*headers),
{
    concat("comment:", client_key(headers).as_str())
}

/// The number of requests a key has made in its current window, and when the window ends
/// (nanoseconds on the limiter's clock).
#[derive(Clone, Copy, Debug)]
pub struct Bucket {
    pub count: u32,
    pub reset_at: u128,
}

/// The bucket stored for `key`, if any.
pub open spec fn stored_bucket(m: Map<Seq<char>, Bucket>, key: Seq<char>) -> Option<Bucket> {
    if m.contains_key(key) {
        Some(m[key])
    } else {
        None
    }
}

/// The bucket a request at `now` finds: the stored one while its window lasts, otherwise an
/// empty bucket whose window ends `window` after `now`.
pub open spec fn live_bucket(stored: Option<Bucket>, now: int, window: int) -> Bucket {
    let fresh = Bucket { count: 0, reset_at: (now + window) as u128 };
    match stored {
        Some(b) => if now >= b.reset_at {
            fresh
        } else {
            b
        },
        None => fresh,
    }
}

/// The bucket stored after a request, and whether the request is allowed: allowed while the
/// window holds fewer than `limit` requests, and then counted.
pub open spec fn after_request(stored: Option<Bucket>, now: int, window: int, limit: u32) -> (Bucket, bool) {
    let b = live_bucket(stored, now, window);
    if b.count >= limit {
        (b, false)
    } else {
        (Bucket { count: (b.count + 1) as u32, reset_at: b.reset_at }, true)
    }
}

/// The largest value `Duration::as_nanos` gives.
pub open spec fn max_duration_nanos() -> int {
    18446744073709551615999999999
}

#[verifier::external_type_specification]
#[verifier::external_body]
pub struct ExInstant(std::time::Instant);

/// `Instant::now()`. Nothing is said of the instant it gives.
#[verifier::external_body]
fn instant_now() -> std::time::Instant {
    std::time::Instant::now()
}

/// `origin.elapsed().as_nanos()`: the nanoseconds since `origin`.
/// The claim: the result is at most what `Duration::as_nanos` can give; nothing is said of
/// which value it is.
#[verifier::external_body]
fn nanos_since(origin: &std::time::Instant) -> (n: u128)
    ensures
        n <= max_duration_nanos(),
{
    origin.elapsed().as_nanos()
}

/// In-memory fixed-window counters, one per key, on a monotonic clock.
pub struct RateLimitTable {
    pub buckets: StringHashMap<Bucket>,
    pub origin: std::time::Instant,
}

impl RateLimitTable {
    /// A table without counters, whose clock starts now.
    pub fn new() -> (t: Self)
        ensures
            t.buckets@ == Map::<Seq<char>, Bucket>::empty(),
    {
        RateLimitTable { buckets: StringHashMap::new(), origin: instant_now() }
    }

    /// Counts a request for `key` at instant `now` (nanoseconds on the table's clock); refused
    /// with `AppError::RateLimited` once the key's window holds `limit` requests.
    pub fn check_at(&mut self, key: String, limit: u32, window: u128, now: u128) -> (r: Result<(), AppError>)
        requires
            now + window <= u128::MAX,
        ensures
            final(self).buckets@ == old(self).buckets@.insert(
                key@,
                after_request(
                    stored_bucket(old(self).buckets@, key@),
                    now as int,
                    window as int,
                    limit,
                ).0,
            ),
            r is Ok <==> after_request(
                stored_bucket(old(self).buckets@, key@),
                now as int,
                window as int,
                limit,
            ).1,
            r matches Err(e) ==> e is RateLimited,
            final(self).origin == old(self).origin,
    {
        let stored = match self.buckets.get(key.as_str()) {
            Some(b) => Some(*b),
            None => None,
        };
        let fresh = Bucket { count: 0, reset_at: now + window };
        let mut bucket = match stored {
            Some(b) => if now >= b.reset_at {
                fresh
            } else {
                b
            },
            None => fresh,
        };
        if bucket.count >= limit {
            self.buckets.insert(key, bucket);
            return Err(AppError::RateLimited);
        }
        bucket.count = bucket.count + 1;
        self.buckets.insert(key, bucket);
        Ok(())
    }

    /// Counts a request for `key` now; the window is `window` nanoseconds long.
    pub fn check(&mut self, key: String, limit: u32, window: u128) -> (r: Result<(), AppError>)
        requires
            window <= max_duration_nanos(),
        ensures
            exists|now: u128|
                #![trigger after_request(stored_bucket(old(self).buckets@, key@), now as int, window as int, limit)]
                final(self).buckets@ == old(self).buckets@.insert(
                    key@,
                    after_request(
                        stored_bucket(old(self).buckets@, key@),
                        now as int,
                        window as int,
                        limit,
                    ).0,
                ) && (r is Ok <==> after_request(
                    stored_bucket(old(self).buckets@, key@),
                    now as int,
                    window as int,
                    limit,
                ).1),
            r matches Err(e) ==> e is RateLimited,
    {
        let now = nanos_since(&self.origin);
        self.check_at(key, limit, window, now)
    }

    /// A request as the limiter front end sees it: a limit of 0 turns limiting off; any other
    /// limit is counted against `key`.
    pub fn check_request(&mut self, key: String, limit: u32, window: u128) -> (r: Result<(), AppError>)
        requires
            window <= max_duration_nanos(),
        ensures
            limit == 0 ==> r is Ok && final(self).buckets@ == old(self).buckets@,
            limit > 0 ==> exists|now: u128|
                #![trigger after_request(stored_bucket(old(self).buckets@, key@), now as int, window as int, limit)]
                final(self).buckets@ == old(self).buckets@.insert(
                    key@,
                    after_request(
                        stored_bucket(old(self).buckets@, key@),
                        now as int,
                        window as int,
                        limit,
                    ).0,
                ) && (r is Ok <==> after_request(
                    stored_bucket(old(self).buckets@, key@),
                    now as int,
                    window as int,
                    limit,
                ).1),
            r matches Err(e) ==> e is RateLimited,
    {
        if limit == 0 {
            return Ok(());
        }
        self.check(key, limit, window)
    }
}

/// What a shared counter store (Redis) answers: after incrementing a key to `count`, whether
/// its expiry must be set (the first request of a window), and whether the request is allowed.
pub fn shared_counter_verdict(count: u32, limit: u32) -> (r: (bool, Result<(), AppError>))
    ensures
        r.0 == (count == 1),
        r.1 is Ok <==> count <= limit,
        r.1 matches Err(e) ==> e is RateLimited,
{
    let set_expiry = count == 1;
    if count > limit {
        (set_expiry, Err(AppError::RateLimited))
    } else {
        (set_expiry, Ok(()))
    }
}

/// The Redis key that holds a counter: `tiphia:rate-limit:{key}`.
pub fn shared_counter_key(key: &str) -> (k: String)
    ensures
        k@ == "tiphia:rate-limit:"@ + key@,
{
    concat("tiphia:rate-limit:", key)
}

} // verus!
