//! Properties that hold across the library's operations.
use vstd::prelude::*;

use crate::config::{config_problem, resolved_from, Config, EnvOverrides, FileConfig};
use crate::entities::{PostResponse, SiteSettings};
use crate::feed::{absolute_link, atom_document, permalink_path, rss_document, sitemap_document, site_url_of, xml_char, xml_escaped};
use crate::json::{
    has_key, key_at, key_differs, key_index, lemma_key_at_unique, lemma_some_key, lookup, merged,
    remove_member, set_member, Json,
};
use crate::plugins::{config_key_of, state_key_of};
use crate::rate_limit::{after_request, client_key_of, Bucket};
use crate::text::{has_prefix, trim_end_with};

verus! {

/// A character that would open or close markup in XML text or attributes.
pub open spec fn is_markup(c: char) -> bool {
    c == '<' || c == '>' || c == '"' || c == '\''
}

/// Escaped text never holds `<`, `>`, `"` or `'`: it can stand in any XML text or attribute.
pub proof fn law_escaped_has_no_markup(s: Seq<char>)
    ensures
        forall|i: int| 0 <= i < xml_escaped(s).len() ==> !is_markup(#[trigger] xml_escaped(s)[i]),
    decreases s.len(),
{
    if s.len() > 0 {
        law_escaped_has_no_markup(s.drop_last());
        let a = xml_escaped(s.drop_last());
        let b = xml_char(s.last());
        assert forall|i: int| 0 <= i < (a + b).len() implies !is_markup(#[trigger] (a + b)[i]) by {
            if i >= a.len() {
                assert((a + b)[i] == b[i - a.len()]);
            }
        }
    }
}

/// Text without any of `& < > " '` is left as it is by escaping.
pub proof fn law_plain_text_unescaped(s: Seq<char>)
    requires
        forall|i: int| 0 <= i < s.len() ==> !is_markup(#[trigger] s[i]) && s[i] != '&',
    ensures
        xml_escaped(s) == s,
    decreases s.len(),
{
    if s.len() > 0 {
        assert forall|i: int| 0 <= i < s.drop_last().len() implies !is_markup(#[trigger] s.drop_last()[i]) && s.drop_last()[i] != '&' by {
            assert(s.drop_last()[i] == s[i]);
        }
        law_plain_text_unescaped(s.drop_last());
        assert(!is_markup(s[s.len() - 1]) && s[s.len() - 1] != '&');
        assert(s.drop_last() + seq![s.last()] == s);
    }
}

proof fn lemma_trim_end_last(s: Seq<char>, c: char)
    ensures
        trim_end_with(s, c).len() > 0 ==> trim_end_with(s, c).last() != c,
        trim_end_with(s, c).len() <= s.len(),
    decreases s.len(),
{
    if s.len() > 0 && s.last() == c {
        lemma_trim_end_last(s.drop_last(), c);
    }
}

/// The site URL never ends with a slash.
pub proof fn law_site_url_has_no_trailing_slash(base_url: Option<Seq<char>>)
    ensures
        site_url_of(base_url).len() > 0 ==> site_url_of(base_url).last() != '/',
{
    match base_url {
        Some(b) => lemma_trim_end_last(b, '/'),
        None => lemma_trim_end_last("/"@, '/'),
    }
}

/// With a base URL configured, a post's link is the site URL followed by the post's path.
pub proof fn law_link_extends_site_url(base: Seq<char>, post_type: crate::entities::PostType, slug: Seq<char>)
    ensures
        absolute_link(Some(base), post_type, slug) == site_url_of(Some(base)) + permalink_path(post_type, slug),
{
}

/// A plugin's state and its configuration live under different option keys.
pub proof fn law_plugin_keys_differ(name: Seq<char>)
    ensures
        state_key_of(name) != config_key_of(name),
{
    reveal_strlit(":state");
    reveal_strlit(":config");
    let p = "plugin:"@ + name;
    let s = state_key_of(name);
    let c = config_key_of(name);
    assert(s.len() == p.len() + 6);
    assert(c.len() == p.len() + 7);
}

/// Two plugins with different names never share an option key.
pub proof fn law_plugin_keys_are_per_plugin(a: Seq<char>, b: Seq<char>)
    requires
        a != b,
    ensures
        state_key_of(a) != state_key_of(b),
        config_key_of(a) != config_key_of(b),
{
    reveal_strlit("plugin:");
    reveal_strlit(":state");
    reveal_strlit(":config");
    if state_key_of(a) == state_key_of(b) {
        assert(state_key_of(a).len() == state_key_of(b).len());
        assert(a.len() == b.len());
        assert forall|i: int| 0 <= i < a.len() implies a[i] == b[i] by {
            assert(state_key_of(a)[7 + i] == a[i]);
            assert(state_key_of(b)[7 + i] == b[i]);
        }
        assert(a =~= b);
    }
    if config_key_of(a) == config_key_of(b) {
        assert(config_key_of(a).len() == config_key_of(b).len());
        assert(a.len() == b.len());
        assert forall|i: int| 0 <= i < a.len() implies a[i] == b[i] by {
            assert(config_key_of(a)[7 + i] == a[i]);
            assert(config_key_of(b)[7 + i] == b[i]);
        }
        assert(a =~= b);
    }
}

/// Reading a member back after setting it gives the value that was set.
pub proof fn law_member_read_after_write(es: Seq<(Seq<char>, Json)>, k: Seq<char>, v: Json)
    ensures
        lookup(set_member(es, k, v), k) == Some(v),
{
    let r = set_member(es, k, v);
    if has_key(es, k) {
        let i = key_index(es, k);
        assert(key_at(r, k, i));
        lemma_key_at_unique(r, k, i, key_index(r, k));
    } else {
        let i = es.len() as int;
        assert forall|j: int| 0 <= j < i implies (#[trigger] r[j]).0 != k by {
            assert(r[j] == es[j]);
            if es[j].0 == k {
                crate::json::lemma_some_key(es, k, j);
            }
        }
        assert(key_at(r, k, i));
        lemma_key_at_unique(r, k, i, key_index(r, k));
    }
}

/// Setting one member leaves every other key's value as it was.
pub proof fn law_member_write_keeps_others(es: Seq<(Seq<char>, Json)>, k: Seq<char>, v: Json, other: Seq<char>)
    requires
        other != k,
    ensures
        lookup(set_member(es, k, v), other) == lookup(es, other),
{
    let r = set_member(es, k, v);
    assert forall|j: int| 0 <= j < r.len() && j < es.len() implies (#[trigger] r[j]).0 == other <==> es[j].0 == other by {
        if has_key(es, k) && j == key_index(es, k) {
        } else {
            assert(r[j] == es[j]);
        }
    }
    if has_key(es, other) {
        let i = key_index(es, other);
        assert(r[i] == es[i]);
        assert(key_at(r, other, i));
        lemma_key_at_unique(r, other, i, key_index(r, other));
    } else {
        if has_key(r, other) {
            let i = key_index(r, other);
            if i < es.len() {
                crate::json::lemma_some_key(es, other, i);
            }
        }
    }
}

/// A patch that is not an object, or a base that is not one, gives the patch itself.
pub proof fn law_merge_replaces_non_objects(base: Json, patch: Json)
    requires
        !(base is Object) || !(patch is Object),
    ensures
        merged(base, patch) == patch,
{
}

/// Merging an empty object changes nothing in an object.
pub proof fn law_merge_empty_patch(es: Seq<(Seq<char>, Json)>)
    ensures
        merged(Json::Object(es), Json::Object(Seq::empty())) == Json::Object(es),
{
}

/// After merging, the value under a patched key is the merge of what was there (or `null`)
/// with the patch's value, as long as that key occurs once in the patch.
pub proof fn law_merge_patched_key(b: Seq<(Seq<char>, Json)>, p: Seq<(Seq<char>, Json)>, i: int)
    requires
        0 <= i < p.len(),
        forall|j: int| 0 <= j < p.len() && j != i ==> (#[trigger] p[j]).0 != p[i].0,
    ensures
        lookup(crate::json::merged_members(b, p), p[i].0) == Some(
            merged(crate::json::member_or_null(crate::json::merged_members(b, p.take(i)), p[i].0), p[i].1),
        ),
    decreases p.len(),
{
    if i == p.len() - 1 {
        assert(p.drop_last() == p.take(i));
        law_member_read_after_write(
            crate::json::merged_members(b, p.drop_last()),
            p[i].0,
            merged(crate::json::member_or_null(crate::json::merged_members(b, p.take(i)), p[i].0), p[i].1),
        );
    } else {
        let q = p.drop_last();
        assert forall|j: int| 0 <= j < q.len() && j != i implies (#[trigger] q[j]).0 != q[i].0 by {
            assert(q[j] == p[j]);
        }
        law_merge_patched_key(b, q, i);
        assert(q.take(i) == p.take(i));
        assert(q[i] == p[i]);
        assert(p.last().0 != p[i].0);
        let acc = crate::json::merged_members(b, q);
        law_member_write_keeps_others(
            acc,
            p.last().0,
            merged(crate::json::member_or_null(acc, p.last().0), p.last().1),
            p[i].0,
        );
    }
}

/// Within a window, a key that has made `limit` requests is refused.
pub proof fn law_limit_reached_refuses(b: Bucket, now: int, window: int, limit: u32)
    requires
        now < b.reset_at,
        b.count >= limit,
    ensures
        !after_request(Some(b), now, window, limit).1,
        after_request(Some(b), now, window, limit).0 == b,
{
}

/// Once its window is over, a key is served again (for any positive limit), and a new window
/// starts with this one request.
pub proof fn law_window_end_resets(b: Bucket, now: int, window: int, limit: u32)
    requires
        now >= b.reset_at,
        limit > 0,
        0 <= now + window <= u128::MAX,
    ensures
        after_request(Some(b), now, window, limit).1,
        after_request(Some(b), now, window, limit).0 == (Bucket { count: 1, reset_at: (now + window) as u128 }),
{
}

/// A key's requests at the instants `times`, in order, from the bucket `stored`: the bucket
/// left behind, and whether each request was allowed.
pub open spec fn replayed(stored: Option<Bucket>, times: Seq<int>, window: int, limit: u32) -> (Option<Bucket>, Seq<bool>)
    decreases times.len(),
{
    if times.len() == 0 {
        (stored, Seq::empty())
    } else {
        let before = replayed(stored, times.drop_last(), window, limit);
        let after = after_request(before.0, times.last(), window, limit);
        (Some(after.0), before.1.push(after.1))
    }
}

/// The instants start a window at `start` and all fall within it.
pub open spec fn within_window(times: Seq<int>, start: int, window: int) -> bool {
    &&& times.len() > 0 ==> times[0] == start
    &&& forall|i: int| 0 <= i < times.len() ==> start <= #[trigger] times[i] < start + window
}

/// A key is served exactly `limit` times within one window: of the requests that a key
/// without a counter makes within one window, the first `limit` are allowed and every later
/// one is refused; the counter then holds the number of allowed requests.
pub proof fn law_limit_requests_per_window(times: Seq<int>, start: int, window: int, limit: u32)
    requires
        window > 0,
        0 <= start,
        start + window <= u128::MAX,
        within_window(times, start, window),
    ensures
        forall|i: int| 0 <= i < times.len() ==> (#[trigger] replayed(None, times, window, limit).1[i]) == (i < limit),
        times.len() > 0 ==> replayed(None, times, window, limit).0 == Some(
            Bucket {
                count: if times.len() < limit { times.len() as u32 } else { limit },
                reset_at: (start + window) as u128,
            },
        ),
    decreases times.len(),
{
    let n = times.len();
    if n > 0 {
        let rest = times.drop_last();
        assert(within_window(rest, start, window)) by {
            assert forall|i: int| 0 <= i < rest.len() implies start <= #[trigger] rest[i] < start + window by {
                assert(rest[i] == times[i]);
            }
            if rest.len() > 0 {
                assert(rest[0] == times[0]);
            }
        }
        law_limit_requests_per_window(rest, start, window, limit);
        let before = replayed(None, rest, window, limit);
        assert(times.last() == times[n - 1]);
        if n == 1 {
            assert(times.last() == start);
        }
        let r = replayed(None, times, window, limit);
        assert(r.1.len() == n) by {
            lemma_replayed_len(None, times, window, limit);
        }
        assert forall|i: int| 0 <= i < n implies (#[trigger] r.1[i]) == (i < limit) by {
            if i < n - 1 {
                assert(r.1[i] == before.1[i]);
            }
        }
    }
}

proof fn lemma_replayed_len(stored: Option<Bucket>, times: Seq<int>, window: int, limit: u32)
    ensures
        replayed(stored, times, window, limit).1.len() == times.len(),
    decreases times.len(),
{
    if times.len() > 0 {
        lemma_replayed_len(stored, times.drop_last(), window, limit);
    }
}

/// The client key is never empty.
pub proof fn law_client_key_not_empty(h: crate::rate_limit::ClientHeaders)
    ensures
        client_key_of(h).len() > 0,
{
    reveal_strlit("unknown");
}

/// No configuration file.
pub open spec fn empty_file() -> FileConfig {
    FileConfig { app: None, http: None, cors: None, database: None, log: None, auth: None, rate_limit: None }
}

/// No environment variable set.
pub open spec fn empty_env() -> EnvOverrides {
    EnvOverrides {
        environment: None,
        bind: None,
        request_timeout_secs: None,
        max_body_bytes: None,
        cors_allowed_origins: None,
        database_url: None,
        db_max_connections: None,
        db_min_connections: None,
        db_connect_timeout_secs: None,
        db_acquire_timeout_secs: None,
        log_level: None,
        log_directory: None,
        log_file_prefix: None,
        log_json: None,
        jwt_secret: None,
        token_ttl_seconds: None,
        redis_url: None,
        login_per_minute: None,
        comments_per_minute: None,
    }
}

/// The built-in defaults pass every check: a server started with no configuration file and no
/// environment overrides starts (its bind address `127.0.0.1:3000` parses).
pub proof fn law_default_config_is_valid(c: Config)
    requires
        resolved_from(c, empty_file(), empty_env()),
    ensures
        config_problem(c, None) is None,
{
    reveal_strlit("sqlite://tiphia.db?mode=rwc");
    reveal_strlit("development");
    reveal_strlit("production");
    assert(!crate::text::is_space(c.database.url@[0]));
    assert(c.app.environment@.len() != "production"@.len());
    assert(c.cors.allowed_origins@.map_values(|x: String| x@).len() == 0);
    assert(c.cors.allowed_origins@.len() == 0);
}

/// The XML declaration of a UTF-8 document.
pub open spec fn xml_declaration() -> Seq<char> {
    "<?xml version=\"1.0\" encoding=\"utf-8\"?>"@
}

/// Every XML document the feeds serve (RSS, Atom, sitemap) opens with the UTF-8 XML
/// declaration.
pub proof fn law_feeds_declare_utf8(
    settings: SiteSettings,
    posts: Seq<PostResponse>,
    pages: Seq<PostResponse>,
    updated: Seq<char>,
)
    ensures
        crate::text::has_prefix(rss_document(settings, posts, updated), xml_declaration()),
        crate::text::has_prefix(atom_document(settings, posts, updated), xml_declaration()),
        crate::text::has_prefix(sitemap_document(settings, posts, pages), xml_declaration()),
{
    let d = xml_declaration();
    reveal_strlit("<?xml version=\"1.0\" encoding=\"utf-8\"?>");
    reveal_strlit("<?xml version=\"1.0\" encoding=\"utf-8\"?><rss version=\"2.0\"><channel><title>");
    reveal_strlit("<?xml version=\"1.0\" encoding=\"utf-8\"?><feed xmlns=\"http://www.w3.org/2005/Atom\"><title>");
    reveal_strlit("<?xml version=\"1.0\" encoding=\"utf-8\"?><urlset xmlns=\"http://www.sitemaps.org/schemas/sitemap/0.9\">");
    let r = rss_document(settings, posts, updated);
    let a = atom_document(settings, posts, updated);
    let m = sitemap_document(settings, posts, pages);
    let rh = "<?xml version=\"1.0\" encoding=\"utf-8\"?><rss version=\"2.0\"><channel><title>"@;
    let ah = "<?xml version=\"1.0\" encoding=\"utf-8\"?><feed xmlns=\"http://www.w3.org/2005/Atom\"><title>"@;
    let mh = "<?xml version=\"1.0\" encoding=\"utf-8\"?><urlset xmlns=\"http://www.sitemaps.org/schemas/sitemap/0.9\">"@;
    assert(rh.take(d.len() as int) =~= d);
    assert(ah.take(d.len() as int) =~= d);
    assert(mh.take(d.len() as int) =~= d);
    assert forall|i: int| 0 <= i < d.len() implies r[i] == d[i] by {
        assert(r[i] == rh[i]);
    }
    assert(r.take(d.len() as int) =~= d);
    assert forall|i: int| 0 <= i < d.len() implies a[i] == d[i] by {
        assert(a[i] == ah[i]);
    }
    assert(a.take(d.len() as int) =~= d);
    assert forall|i: int| 0 <= i < d.len() implies m[i] == d[i] by {
        assert(m[i] == mh[i]);
    }
    assert(m.take(d.len() as int) =~= d);
}

/// Login attempts and comments of one client are counted apart: their counter keys differ.
pub proof fn law_login_and_comment_counters_differ(h: crate::rate_limit::ClientHeaders)
    ensures
        "login:"@ + client_key_of(h) != "comment:"@ + client_key_of(h),
{
    reveal_strlit("login:");
    reveal_strlit("comment:");
    assert(("login:"@ + client_key_of(h))[0] != ("comment:"@ + client_key_of(h))[0]);
}

/// On one path, two different HTTP methods get different operation ids. (Across paths ids can
/// coincide: `/a-b` and `/a/b` both give `get_a_b`.)
pub proof fn law_operation_ids_differ_by_method(m1: Seq<char>, m2: Seq<char>, path: Seq<char>)
    requires
        crate::openapi::is_http_method(m1),
        crate::openapi::is_http_method(m2),
        m1 != m2,
    ensures
        crate::openapi::operation_id(m1, path) != crate::openapi::operation_id(m2, path),
{
    reveal_strlit("get");
    reveal_strlit("post");
    reveal_strlit("put");
    reveal_strlit("patch");
    reveal_strlit("delete");
    reveal_strlit("head");
    reveal_strlit("options");
    reveal_strlit("trace");
    let a = crate::openapi::operation_id(m1, path);
    let b = crate::openapi::operation_id(m2, path);
    assert(m1.len() >= 3 && m2.len() >= 3);
    assert(a[0] == m1[0] && a[1] == m1[1]);
    assert(b[0] == m2[0] && b[1] == m2[1]);
    assert(m1[0] != m2[0] || m1[1] != m2[1]);
}

proof fn lemma_lookup_push(s: Seq<(Seq<char>, Json)>, e: (Seq<char>, Json), o: Seq<char>)
    ensures
        lookup(s.push(e), o) == if has_key(s, o) {
            lookup(s, o)
        } else if e.0 == o {
            Some(e.1)
        } else {
            None
        },
{
    let t = s.push(e);
    if has_key(s, o) {
        let i = key_index(s, o);
        assert forall|j: int| 0 <= j < i implies (#[trigger] t[j]).0 != o by {
            assert(t[j] == s[j]);
        }
        assert(key_at(t, o, i));
        lemma_key_at_unique(t, o, i, key_index(t, o));
    } else if e.0 == o {
        let i = s.len() as int;
        assert forall|j: int| 0 <= j < i implies (#[trigger] t[j]).0 != o by {
            assert(t[j] == s[j]);
            if s[j].0 == o {
                lemma_some_key(s, o, j);
            }
        }
        assert(key_at(t, o, i));
        lemma_key_at_unique(t, o, i, key_index(t, o));
    } else if has_key(t, o) {
        let i = key_index(t, o);
        if i < s.len() {
            assert(t[i] == s[i]);
            lemma_some_key(s, o, i);
        }
    }
}

proof fn lemma_removed_keeps_others(es: Seq<(Seq<char>, Json)>, k: Seq<char>, o: Seq<char>)
    requires
        o != k,
    ensures
        lookup(remove_member(es, k), o) == lookup(es, o),
    decreases es.len(),
{
    if es.len() > 0 {
        let e = es.last();
        let p = es.drop_last();
        lemma_removed_keeps_others(p, k, o);
        assert(es == p.push(e));
        lemma_lookup_push(p, e, o);
        let rp = remove_member(p, k);
        assert(remove_member(es, k) == if key_differs(k)(e) { rp.push(e) } else { rp }) by {
            reveal_with_fuel(Seq::filter, 1);
        }
        if e.0 != k {
            lemma_lookup_push(rp, e, o);
        }
    }
}

/// After a key is removed, an object has no member under it, and every other key reads as
/// before.
pub proof fn law_member_removed(es: Seq<(Seq<char>, Json)>, k: Seq<char>, other: Seq<char>)
    requires
        other != k,
    ensures
        lookup(remove_member(es, k), k) is None,
        lookup(remove_member(es, k), other) == lookup(es, other),
{
    let r = remove_member(es, k);
    if has_key(r, k) {
        let i = key_index(r, k);
        es.lemma_filter_pred(key_differs(k), i);
    }
    lemma_removed_keeps_others(es, k, other);
}

/// `&amp;`
pub open spec fn amp_entity() -> Seq<char> {
    seq!['&', 'a', 'm', 'p', ';']
}

/// `&lt;`
pub open spec fn lt_entity() -> Seq<char> {
    seq!['&', 'l', 't', ';']
}

/// `&gt;`
pub open spec fn gt_entity() -> Seq<char> {
    seq!['&', 'g', 't', ';']
}

/// `&quot;`
pub open spec fn quot_entity() -> Seq<char> {
    seq!['&', 'q', 'u', 'o', 't', ';']
}

/// `&apos;`
pub open spec fn apos_entity() -> Seq<char> {
    seq!['&', 'a', 'p', 'o', 's', ';']
}

/// The length of the entity (`&amp; &lt; &gt; &quot; &apos;`) that `t` starts with; 0 when it
/// starts with none.
pub open spec fn entity_len(t: Seq<char>) -> nat {
    if has_prefix(t, amp_entity()) {
        5
    } else if has_prefix(t, lt_entity()) {
        4
    } else if has_prefix(t, gt_entity()) {
        4
    } else if has_prefix(t, quot_entity()) {
        6
    } else if has_prefix(t, apos_entity()) {
        6
    } else {
        0
    }
}

/// The character that the entity `t` starts with stands for.
pub open spec fn entity_value(t: Seq<char>) -> char {
    if has_prefix(t, amp_entity()) {
        '&'
    } else if has_prefix(t, lt_entity()) {
        '<'
    } else if has_prefix(t, gt_entity()) {
        '>'
    } else if has_prefix(t, quot_entity()) {
        '"'
    } else {
        '\''
    }
}

/// `t` decoded in one pass from left to right: each of the five entities becomes its
/// character, every other character stays.
pub open spec fn xml_unescaped(t: Seq<char>) -> Seq<char>
    decreases t.len(),
{
    if t.len() == 0 {
        t
    } else if entity_len(t) > 0 {
        seq![entity_value(t)] + xml_unescaped(t.skip(entity_len(t) as int))
    } else {
        seq![t[0]] + xml_unescaped(t.skip(1))
    }
}

proof fn lemma_escaped_concat(a: Seq<char>, b: Seq<char>)
    ensures
        xml_escaped(a + b) == xml_escaped(a) + xml_escaped(b),
    decreases b.len(),
{
    if b.len() == 0 {
        assert(a + b =~= a);
        assert(xml_escaped(a) + xml_escaped(b) =~= xml_escaped(a));
    } else {
        lemma_escaped_concat(a, b.drop_last());
        assert((a + b).drop_last() =~= a + b.drop_last());
        assert((a + b).last() == b.last());
        assert(xml_escaped(a) + xml_escaped(b.drop_last()) + xml_char(b.last()) =~= xml_escaped(a) + (
        xml_escaped(b.drop_last()) + xml_char(b.last())));
    }
}

proof fn lemma_escaped_front(s: Seq<char>)
    requires
        s.len() > 0,
    ensures
        xml_escaped(s) == xml_char(s[0]) + xml_escaped(s.drop_first()),
{
    let h = seq![s[0]];
    assert(s =~= h + s.drop_first());
    lemma_escaped_concat(h, s.drop_first());
    assert(h.drop_last() =~= Seq::<char>::empty());
    assert(h.drop_last().len() == 0);
    assert(xml_escaped(h.drop_last()) == Seq::<char>::empty());
    assert(h.last() == s[0]);
    assert(xml_escaped(h) =~= xml_char(s[0]));
}

proof fn lemma_unescape_step(c: char, rest: Seq<char>)
    ensures
        xml_unescaped(xml_char(c) + rest) == seq![c] + xml_unescaped(rest),
{
    let e = xml_char(c);
    let t = e + rest;
    assert(t.skip(e.len() as int) =~= rest);
    assert(t.take(e.len() as int) =~= e);
    if c == '&' {
        assert(has_prefix(t, amp_entity()));
    } else if c == '<' {
        assert(!has_prefix(t, amp_entity())) by {
            if t.len() >= 5 {
                assert(t.take(5)[1] == 'l');
            }
        }
        assert(has_prefix(t, lt_entity()));
    } else if c == '>' {
        assert(!has_prefix(t, amp_entity())) by {
            if t.len() >= 5 {
                assert(t.take(5)[1] == 'g');
            }
        }
        assert(!has_prefix(t, lt_entity())) by {
            assert(t.take(4)[1] == 'g');
        }
        assert(has_prefix(t, gt_entity()));
    } else if c == '"' {
        assert(!has_prefix(t, amp_entity())) by {
            assert(t.take(5)[1] == 'q');
        }
        assert(!has_prefix(t, lt_entity())) by {
            assert(t.take(4)[1] == 'q');
        }
        assert(!has_prefix(t, gt_entity())) by {
            assert(t.take(4)[1] == 'q');
        }
        assert(has_prefix(t, quot_entity()));
    } else if c == '\'' {
        assert(!has_prefix(t, amp_entity())) by {
            assert(t.take(5)[2] == 'p');
        }
        assert(!has_prefix(t, lt_entity())) by {
            assert(t.take(4)[1] == 'a');
        }
        assert(!has_prefix(t, gt_entity())) by {
            assert(t.take(4)[1] == 'a');
        }
        assert(!has_prefix(t, quot_entity())) by {
            assert(t.take(6)[1] == 'a');
        }
        assert(has_prefix(t, apos_entity()));
    } else {
        assert(t[0] == c);
        assert(!has_prefix(t, amp_entity())) by {
            if t.len() >= 5 {
                assert(t.take(5)[0] == c);
            }
        }
        assert(!has_prefix(t, lt_entity())) by {
            if t.len() >= 4 {
                assert(t.take(4)[0] == c);
            }
        }
        assert(!has_prefix(t, gt_entity())) by {
            if t.len() >= 4 {
                assert(t.take(4)[0] == c);
            }
        }
        assert(!has_prefix(t, quot_entity())) by {
            if t.len() >= 6 {
                assert(t.take(6)[0] == c);
            }
        }
        assert(!has_prefix(t, apos_entity())) by {
            if t.len() >= 6 {
                assert(t.take(6)[0] == c);
            }
        }
    }
}

/// Decoding the five entities in one pass from left to right gives back the escaped text.
pub proof fn law_escape_round_trip(s: Seq<char>)
    ensures
        xml_unescaped(xml_escaped(s)) == s,
    decreases s.len(),
{
    if s.len() > 0 {
        lemma_escaped_front(s);
        law_escape_round_trip(s.drop_first());
        lemma_unescape_step(s[0], xml_escaped(s.drop_first()));
        assert(seq![s[0]] + s.drop_first() =~= s);
    }
}

proof fn lemma_prefix_extends(x: Seq<char>, y: Seq<char>, p: Seq<char>)
    requires
        has_prefix(x, p),
    ensures
        has_prefix(x + y, p),
{
    assert((x + y).take(p.len() as int) =~= x.take(p.len() as int));
}

/// In escaped text every `&` starts one of the five entities.
pub proof fn law_escaped_ampersands_start_entities(s: Seq<char>)
    ensures
        forall|i: int|
            0 <= i < xml_escaped(s).len() && #[trigger] xml_escaped(s)[i] == '&' ==> entity_len(
                xml_escaped(s).skip(i),
            ) > 0,
    decreases s.len(),
{
    if s.len() > 0 {
        let a = xml_escaped(s.drop_last());
        let c = s.last();
        let b = xml_char(c);
        law_escaped_ampersands_start_entities(s.drop_last());
        assert forall|i: int| 0 <= i < (a + b).len() && #[trigger] (a + b)[i] == '&' implies entity_len(
            (a + b).skip(i),
        ) > 0 by {
            if i < a.len() {
                assert(a[i] == '&');
                assert((a + b).skip(i) =~= a.skip(i) + b);
                let x = a.skip(i);
                if has_prefix(x, amp_entity()) {
                    lemma_prefix_extends(x, b, amp_entity());
                } else if has_prefix(x, lt_entity()) {
                    lemma_prefix_extends(x, b, lt_entity());
                } else if has_prefix(x, gt_entity()) {
                    lemma_prefix_extends(x, b, gt_entity());
                } else if has_prefix(x, quot_entity()) {
                    lemma_prefix_extends(x, b, quot_entity());
                } else {
                    lemma_prefix_extends(x, b, apos_entity());
                }
            } else {
                assert((a + b)[i] == b[i - a.len()]);
                assert(i == a.len());
                assert((a + b).skip(i) =~= b);
                assert(b.take(b.len() as int) =~= b);
            }
        }
    }
}

/// A request counted against one key leaves every other key's counter as it was.
pub proof fn law_other_keys_untouched(
    m: Map<Seq<char>, Bucket>,
    key: Seq<char>,
    other: Seq<char>,
    now: int,
    window: int,
    limit: u32,
)
    requires
        other != key,
    ensures
        crate::rate_limit::stored_bucket(
            m.insert(key, after_request(crate::rate_limit::stored_bucket(m, key), now, window, limit).0),
            other,
        ) == crate::rate_limit::stored_bucket(m, other),
{
}

/// Every migration whose id is not recorded runs: some pending position, at or before its own,
/// carries the same id (the first position that id has).
pub proof fn law_every_unrecorded_id_runs(ids: Seq<String>, applied: Seq<String>, i: int)
    requires
        0 <= i < ids.len(),
        !crate::migration::in_list(applied, ids[i]@),
    ensures
        exists|j: int| 0 <= j <= i && crate::migration::is_pending(ids, applied, j) && (#[trigger] ids[j])@ == ids[i]@,
    decreases i,
{
    if forall|j: int| 0 <= j < i ==> (#[trigger] ids[j])@ != ids[i]@ {
        assert(crate::migration::is_pending(ids, applied, i));
        assert(ids[i]@ == ids[i]@);
    } else {
        let j = choose|j: int| 0 <= j < i && (#[trigger] ids[j])@ == ids[i]@;
        law_every_unrecorded_id_runs(ids, applied, j);
        let k = choose|k: int| 0 <= k <= j && crate::migration::is_pending(ids, applied, k) && (#[trigger] ids[k])@ == ids[j]@;
        assert(ids[k]@ == ids[i]@);
    }
}

/// Once every id of a list is recorded, nothing of it is pending: a second run applies nothing.
pub proof fn law_recorded_migrations_do_not_rerun(ids: Seq<String>, applied: Seq<String>)
    requires
        forall|i: int| 0 <= i < ids.len() ==> crate::migration::in_list(applied, #[trigger] ids[i]@),
    ensures
        forall|i: int| 0 <= i < ids.len() ==> !crate::migration::is_pending(ids, applied, i),
{
}

proof fn lemma_filter_keeps_all(items: Seq<Json>, pred: spec_fn(Json) -> bool)
    requires
        forall|i: int| 0 <= i < items.len() ==> pred(#[trigger] items[i]),
    ensures
        items.filter(pred) == items,
    decreases items.len(),
{
    reveal_with_fuel(Seq::filter, 1);
    if items.len() > 0 {
        let rest = items.drop_last();
        assert forall|i: int| 0 <= i < rest.len() implies pred(#[trigger] rest[i]) by {
            assert(rest[i] == items[i]);
        }
        lemma_filter_keeps_all(rest, pred);
        assert(pred(items.last()));
        assert(rest.push(items.last()) =~= items);
    }
}

/// A `oneOf` none of whose alternatives is a schema of type `"null"` is kept as it was, and
/// the object's `nullable` member is left as it was.
pub proof fn law_one_of_without_null_is_kept(es: Seq<(Seq<char>, Json)>, items: Seq<Json>)
    requires
        lookup(es, "oneOf"@) == Some(Json::Array(items)),
        forall|i: int|
            0 <= i < items.len() ==> !(#[trigger] items[i] matches Json::Object(m) && lookup(m, "type"@) == Some(
                Json::Str("null"@),
            )),
    ensures
        lookup(crate::openapi::one_of_normalized(es), "oneOf"@) == Some(Json::Array(items)),
        lookup(crate::openapi::one_of_normalized(es), "nullable"@) == lookup(es, "nullable"@),
{
    let pred = crate::openapi::not_null_schema();
    assert forall|i: int| 0 <= i < items.len() implies pred(#[trigger] items[i]) by {
        assert(!crate::openapi::is_null_schema(items[i]));
    }
    lemma_filter_keeps_all(items, pred);
    let removed = remove_member(es, "oneOf"@);
    reveal_strlit("oneOf");
    reveal_strlit("nullable");
    assert("nullable"@ != "oneOf"@) by {
        assert("nullable"@[0] != "oneOf"@[0]);
    }
    law_member_read_after_write(removed, "oneOf"@, Json::Array(items));
    law_member_write_keeps_others(removed, "oneOf"@, Json::Array(items), "nullable"@);
    law_member_removed(es, "oneOf"@, "nullable"@);
}

/// The member `k` of `v`, when `v` is an object that has one.
pub open spec fn member_of(v: Option<Json>, k: Seq<char>) -> Option<Json> {
    match v {
        Some(Json::Object(es)) => lookup(es, k),
        _ => None,
    }
}

/// A path as it stands in an operation id: without its leading slashes, with `/ - { }` as
/// `_`, and without surrounding underscores.
pub open spec fn path_in_id(path: Seq<char>) -> Seq<char> {
    trim_end_with(
        crate::openapi::trim_start_with(
            crate::openapi::trim_start_with(path, '/').map_values(
                |c: char|
                    if c == '/' || c == '-' || c == '{' || c == '}' {
                        '_'
                    } else {
                        c
                    },
            ),
            '_',
        ),
        '_',
    )
}

proof fn lemma_lookup_same_keys(a: Seq<(Seq<char>, Json)>, b: Seq<(Seq<char>, Json)>, k: Seq<char>)
    requires
        a.len() == b.len(),
        forall|i: int| 0 <= i < a.len() ==> (#[trigger] b[i]).0 == a[i].0,
        has_key(a, k),
    ensures
        lookup(b, k) == Some(b[key_index(a, k)].1),
{
    let i = key_index(a, k);
    assert forall|j: int| 0 <= j < i implies (#[trigger] b[j]).0 != k by {
        assert(b[j].0 == a[j].0);
    }
    assert(key_at(b, k, i));
    lemma_key_at_unique(b, k, i, key_index(b, k));
}

/// Every operation filed under one of the eight HTTP methods (`get`, `post`, `put`, `patch`,
/// `delete`, `head`, `options`, `trace`) of a path gets the operation id
/// `{method}_{path}`, the path written as `path_in_id` says.
pub proof fn law_every_http_method_gets_an_operation_id(
    es: Seq<(Seq<char>, Json)>,
    pes: Seq<(Seq<char>, Json)>,
    path: Seq<char>,
    ms: Seq<(Seq<char>, Json)>,
    m: Seq<char>,
    op: Json,
)
    requires
        m == "get"@ || m == "post"@ || m == "put"@ || m == "patch"@ || m == "delete"@ || m == "head"@
            || m == "options"@ || m == "trace"@,
        lookup(es, "paths"@) == Some(Json::Object(pes)),
        lookup(pes, path) == Some(Json::Object(ms)),
        lookup(ms, m) == Some(op),
        op is Object || op is Null,
    ensures
        member_of(
            member_of(
                member_of(Some(Json::Object(crate::openapi::ids_assigned(es))), "paths"@),
                path,
            ),
            m,
        ) is Some,
        member_of(
            member_of(
                member_of(member_of(Some(Json::Object(crate::openapi::ids_assigned(es))), "paths"@), path),
                m,
            ),
            "operationId"@,
        ) == Some(Json::Str(m + "_"@ + path_in_id(path))),
{
    let id = crate::openapi::operation_id(m, path);
    assert(crate::openapi::is_http_method(m));
    let pes2 = crate::openapi::paths_with_ids(pes);
    assert(crate::openapi::ids_assigned(es) == set_member(es, "paths"@, Json::Object(pes2)));
    law_member_read_after_write(es, "paths"@, Json::Object(pes2));
    let i = key_index(pes, path);
    assert(pes[i].1 == Json::Object(ms));
    lemma_lookup_same_keys(pes, pes2, path);
    assert(pes2[i].1 == Json::Object(crate::openapi::methods_with_ids(path, ms)));
    let ms2 = crate::openapi::methods_with_ids(path, ms);
    let j = key_index(ms, m);
    lemma_lookup_same_keys(ms, ms2, m);
    assert(ms2[j].1 == crate::openapi::with_operation_id(op, id));
    match op {
        Json::Object(o) => {
            law_member_read_after_write(o, "operationId"@, Json::Str(id));
        },
        _ => {
            let one = seq![("operationId"@, Json::Str(id))];
            assert(key_at(one, "operationId"@, 0));
            lemma_key_at_unique(one, "operationId"@, 0, key_index(one, "operationId"@));
        },
    }
    assert(id == m + "_"@ + path_in_id(path)) by {
        assert((|c: char| crate::openapi::id_char(c)) =~= (|c: char|
            if c == '/' || c == '-' || c == '{' || c == '}' {
                '_'
            } else {
                c
            }));
    }
}

/// Two lists of items that the sitemap cannot tell apart: the same types, slugs and update
/// times, item by item (publication and creation times, titles and the rest may differ).
pub open spec fn same_for_sitemap(a: Seq<PostResponse>, b: Seq<PostResponse>) -> bool {
    &&& a.len() == b.len()
    &&& forall|i: int|
        0 <= i < a.len() ==> (#[trigger] a[i]).post.post_type == b[i].post.post_type && a[i].post.slug@
            == b[i].post.slug@ && a[i].post.updated_at == b[i].post.updated_at
}

proof fn lemma_sitemap_urls_same(settings: SiteSettings, a: Seq<PostResponse>, b: Seq<PostResponse>)
    requires
        same_for_sitemap(a, b),
    ensures
        crate::feed::sitemap_urls(settings, a) == crate::feed::sitemap_urls(settings, b),
    decreases a.len(),
{
    if a.len() > 0 {
        let a1 = a.drop_last();
        let b1 = b.drop_last();
        assert forall|i: int| 0 <= i < a1.len() implies (#[trigger] a1[i]).post.post_type == b1[i].post.post_type
            && a1[i].post.slug@ == b1[i].post.slug@ && a1[i].post.updated_at == b1[i].post.updated_at by {
            assert(a1[i] == a[i] && b1[i] == b[i]);
        }
        lemma_sitemap_urls_same(settings, a1, b1);
        assert(a.last() == a[a.len() - 1] && b.last() == b[a.len() - 1]);
    }
}

/// Each sitemap entry ends with the RFC 3339 text of its item's update time, and the sitemap
/// does not change when items differ only in what it does not show (publication and creation
/// times among them): a `<lastmod>` is the item's last update, never its publication.
pub proof fn law_sitemap_lastmod_is_the_update_time(
    settings: SiteSettings,
    item: PostResponse,
    posts: Seq<PostResponse>,
    pages: Seq<PostResponse>,
    posts2: Seq<PostResponse>,
    pages2: Seq<PostResponse>,
)
    requires
        same_for_sitemap(posts, posts2),
        same_for_sitemap(pages, pages2),
    ensures
        exists|head: Seq<char>|
            crate::feed::sitemap_url(settings, item) == head + crate::clock::rfc3339_text(
                item.post.updated_at.secs as int,
                item.post.updated_at.nanos as int,
            ) + "</lastmod></url>"@,
        crate::feed::sitemap_document(settings, posts, pages) == crate::feed::sitemap_document(
            settings,
            posts2,
            pages2,
        ),
{
    let head = "<url><loc>"@ + xml_escaped(crate::feed::link_of(settings, item)) + "</loc><lastmod>"@;
    assert(crate::feed::sitemap_url(settings, item) == head + crate::clock::rfc3339_text(
        item.post.updated_at.secs as int,
        item.post.updated_at.nanos as int,
    ) + "</lastmod></url>"@);
    let all = posts + pages;
    let all2 = posts2 + pages2;
    assert forall|i: int| 0 <= i < all.len() implies (#[trigger] all[i]).post.post_type == all2[i].post.post_type
        && all[i].post.slug@ == all2[i].post.slug@ && all[i].post.updated_at == all2[i].post.updated_at by {
        if i < posts.len() {
            assert(all[i] == posts[i] && all2[i] == posts2[i]);
        } else {
            assert(all[i] == pages[i - posts.len()] && all2[i] == pages2[i - posts.len()]);
        }
    }
    lemma_sitemap_urls_same(settings, all, all2);
}

/// `c` with no Redis URL configured.
pub open spec fn without_redis(c: Config) -> Config {
    Config { rate_limit: crate::config::RateLimitConfig { redis_url: None, ..c.rate_limit }, ..c }
}

/// A Redis URL is judged by its scheme alone: one that starts with `redis://` or `rediss://`
/// leaves the outcome of validation what it would be without a Redis URL; any other is
/// refused with its own message once every other rule holds.
pub proof fn law_redis_url_scheme(c: Config, bind_error: Option<Seq<char>>, url: String)
    requires
        c.rate_limit.redis_url == Some(url),
    ensures
        has_prefix(url@, "redis://"@) || has_prefix(url@, "rediss://"@) ==> config_problem(c, bind_error)
            == config_problem(without_redis(c), bind_error),
        !has_prefix(url@, "redis://"@) && !has_prefix(url@, "rediss://"@) && config_problem(
            without_redis(c),
            bind_error,
        ) is None ==> config_problem(c, bind_error) == Some(
            "rate_limit.redis_url must start with redis:// or rediss://"@,
        ),
{
}

/// The address a header gives: the trimmed first comma-separated element of its text, when
/// the header is visible ASCII and that element is not blank.
pub open spec fn address_in(bytes: Seq<u8>) -> Option<Seq<char>> {
    match crate::rate_limit::header_text(bytes) {
        Some(t) => if crate::text::trim(crate::text::before_first(t, ',')).len() > 0 {
            Some(crate::text::trim(crate::text::before_first(t, ',')))
        } else {
            None
        },
        None => None,
    }
}

/// A comment's client address comes from `x-forwarded-for` when that header is present, from
/// `x-real-ip` when only that one is (a request behind a proxy that sets it), and is absent
/// when neither is; its user agent is the whole `user-agent` text when that is visible ASCII.
pub proof fn law_comment_client_address(h: crate::rate_limit::ClientHeaders)
    ensures
        h.forwarded_for matches Some(f) ==> crate::rate_limit::comment_ip_of(h) == address_in(f@),
        h.forwarded_for is None ==> (h.real_ip matches Some(r) ==> crate::rate_limit::comment_ip_of(h)
            == address_in(r@)),
        h.forwarded_for is None && h.real_ip is None ==> crate::rate_limit::comment_ip_of(h) is None,
        h.user_agent matches Some(a) ==> crate::rate_limit::comment_agent_of(h)
            == crate::rate_limit::header_text(a@),
        h.user_agent is None ==> crate::rate_limit::comment_agent_of(h) is None,
{
}

proof fn lemma_filter_drops_failing(items: Seq<Json>, pred: spec_fn(Json) -> bool, i: int)
    requires
        0 <= i < items.len(),
        !pred(items[i]),
    ensures
        items.filter(pred).len() < items.len(),
    decreases items.len(),
{
    reveal_with_fuel(Seq::filter, 1);
    let rest = items.drop_last();
    rest.lemma_filter_len(pred);
    if i < items.len() - 1 {
        assert(rest[i] == items[i]);
        lemma_filter_drops_failing(rest, pred, i);
    }
}

proof fn lemma_with_missing_keeps(es: Seq<(Seq<char>, Json)>, extra: Seq<(Seq<char>, Json)>, k: Seq<char>)
    requires
        has_key(es, k),
    ensures
        lookup(crate::openapi::with_missing(es, extra), k) == lookup(es, k),
        has_key(crate::openapi::with_missing(es, extra), k),
    decreases extra.len(),
{
    if extra.len() > 0 {
        lemma_with_missing_keeps(es, extra.drop_last(), k);
        let acc = crate::openapi::with_missing(es, extra.drop_last());
        if !has_key(acc, extra.last().0) {
            lemma_lookup_push(acc, extra.last(), k);
            let i = key_index(acc, k);
            assert(acc.push(extra.last())[i] == acc[i]);
            assert(key_at(acc.push(extra.last()), k, i));
        }
    }
}

/// A `oneOf` with an alternative of type `"null"` makes the object `"nullable": true`, whatever
/// becomes of the other alternatives.
pub proof fn law_one_of_with_null_is_nullable(es: Seq<(Seq<char>, Json)>, items: Seq<Json>, i: int)
    requires
        lookup(es, "oneOf"@) == Some(Json::Array(items)),
        0 <= i < items.len(),
        items[i] matches Json::Object(m) && lookup(m, "type"@) == Some(Json::Str("null"@)),
    ensures
        lookup(crate::openapi::one_of_normalized(es), "nullable"@) == Some(Json::Bool(true)),
{
    let pred = crate::openapi::not_null_schema();
    assert(!pred(items[i]));
    lemma_filter_drops_failing(items, pred, i);
    let kept = crate::openapi::non_null_alternatives(items);
    let removed = remove_member(es, "oneOf"@);
    let es2 = set_member(removed, "nullable"@, Json::Bool(true));
    reveal_strlit("oneOf");
    reveal_strlit("nullable");
    assert("nullable"@ != "oneOf"@) by {
        assert("nullable"@[0] != "oneOf"@[0]);
    }
    law_member_read_after_write(removed, "nullable"@, Json::Bool(true));
    assert(has_key(es2, "nullable"@));
    if kept.len() == 1 {
        match kept[0] {
            Json::Object(ks) => {
                lemma_with_missing_keeps(es2, ks, "nullable"@);
            },
            _ => {},
        }
    } else if kept.len() > 0 {
        law_member_write_keeps_others(es2, "oneOf"@, Json::Array(kept), "nullable"@);
    }
}

/// The address a header gives, or `unknown`.
pub open spec fn address_or_unknown(bytes: Seq<u8>) -> Seq<char> {
    match address_in(bytes) {
        Some(a) => a,
        None => "unknown"@,
    }
}

/// The client key comes from the first of `x-forwarded-for`, `x-real-ip` and `user-agent`
/// that is present (a later header is not consulted when an earlier one is present but
/// unreadable or blank), and is `unknown` when none is.
pub proof fn law_client_key_sources(h: crate::rate_limit::ClientHeaders)
    ensures
        h.forwarded_for matches Some(f) ==> client_key_of(h) == address_or_unknown(f@),
        h.forwarded_for is None ==> (h.real_ip matches Some(r) ==> client_key_of(h) == address_or_unknown(
            r@,
        )),
        h.forwarded_for is None && h.real_ip is None ==> (h.user_agent matches Some(a) ==> client_key_of(h)
            == address_or_unknown(a@)),
        h.forwarded_for is None && h.real_ip is None && h.user_agent is None ==> client_key_of(h)
            == "unknown"@,
{
}

/// Members of a path item that are not one of the eight HTTP methods are left as they were
/// when operation ids are assigned.
pub proof fn law_other_path_members_untouched(
    es: Seq<(Seq<char>, Json)>,
    pes: Seq<(Seq<char>, Json)>,
    path: Seq<char>,
    ms: Seq<(Seq<char>, Json)>,
    m: Seq<char>,
    v: Json,
)
    requires
        m != "get"@ && m != "post"@ && m != "put"@ && m != "patch"@ && m != "delete"@ && m != "head"@
            && m != "options"@ && m != "trace"@,
        lookup(es, "paths"@) == Some(Json::Object(pes)),
        lookup(pes, path) == Some(Json::Object(ms)),
        lookup(ms, m) == Some(v),
    ensures
        member_of(
            member_of(
                member_of(Some(Json::Object(crate::openapi::ids_assigned(es))), "paths"@),
                path,
            ),
            m,
        ) == Some(v),
{
    assert(!crate::openapi::is_http_method(m));
    let pes2 = crate::openapi::paths_with_ids(pes);
    assert(crate::openapi::ids_assigned(es) == set_member(es, "paths"@, Json::Object(pes2)));
    law_member_read_after_write(es, "paths"@, Json::Object(pes2));
    let i = key_index(pes, path);
    lemma_lookup_same_keys(pes, pes2, path);
    assert(pes2[i].1 == Json::Object(crate::openapi::methods_with_ids(path, ms)));
    let ms2 = crate::openapi::methods_with_ids(path, ms);
    lemma_lookup_same_keys(ms, ms2, m);
}

} // verus!
