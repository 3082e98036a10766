//! RSS, Atom, sitemap and robots.txt documents for the public site.
use vstd::prelude::*;
use vstd::string::*;

use crate::clock::{
    datetime_ok, format_rfc2822, format_rfc3339, in_datetime_range, in_rfc2822_range,
    is_datetime, is_rfc2822_time, now_unix_seconds, rfc2822_ok, rfc2822_text, rfc3339_text,
    Timestamp,
};
use crate::entities::{PostResponse, PostType, SiteSettings};
use crate::text::{push_char, trim_end_char, trim_end_with};

verus! {

/// The XML entity text that stands for `c`, or `c` itself.
pub open spec fn xml_char(c: char) -> Seq<char> {
    if c == '&' {
        seq!['&', 'a', 'm', 'p', ';']
    } else if c == '<' {
        seq!['&', 'l', 't', ';']
    } else if c == '>' {
        seq!['&', 'g', 't', ';']
    } else if c == '"' {
        seq!['&', 'q', 'u', 'o', 't', ';']
    } else if c == '\'' {
        seq!['&', 'a', 'p', 'o', 's', ';']
    } else {
        seq![c]
    }
}

/// `s` with each of `& < > " '` replaced by its XML entity.
pub open spec fn xml_escaped(s: Seq<char>) -> Seq<char>
    decreases s.len(),
{
    if s.len() == 0 {
        Seq::empty()
    } else {
        xml_escaped(s.drop_last()) + xml_char(s.last())
    }
}

/// The configured base URL without trailing slashes; `""` when none is configured.
pub open spec fn site_url_of(base_url: Option<Seq<char>>) -> Seq<char> {
    match base_url {
        Some(b) => trim_end_with(b, '/'),
        None => trim_end_with("/"@, '/'),
    }
}

/// The site-relative path of a post or page.
pub open spec fn permalink_path(post_type: PostType, slug: Seq<char>) -> Seq<char> {
    match post_type {
        PostType::Page => "/pages/"@ + slug,
        PostType::Post => "/posts/"@ + slug,
    }
}

/// The link of a post or page: its path under the base URL when one is configured.
pub open spec fn absolute_link(base_url: Option<Seq<char>>, post_type: PostType, slug: Seq<char>) -> Seq<char> {
    match base_url {
        Some(b) => trim_end_with(b, '/') + permalink_path(post_type, slug),
        None => permalink_path(post_type, slug),
    }
}

pub open spec fn base_of(settings: SiteSettings) -> Option<Seq<char>> {
    match settings.base_url {
        Some(b) => Some(b@),
        None => None,
    }
}

pub open spec fn link_of(settings: SiteSettings, item: PostResponse) -> Seq<char> {
    absolute_link(base_of(settings), item.post.post_type, item.post.slug@)
}

pub open spec fn excerpt_of(item: PostResponse) -> Seq<char> {
    match item.post.excerpt {
        Some(e) => e@,
        None => Seq::empty(),
    }
}

/// The instant an RSS item gives as its publication date.
pub open spec fn pub_date_of(item: PostResponse) -> Timestamp {
    match item.post.published_at {
        Some(t) => t,
        None => item.post.created_at,
    }
}

pub open spec fn rss_item(settings: SiteSettings, item: PostResponse) -> Seq<char> {
    "<item><title>"@ + xml_escaped(item.post.title@) + "</title><link>"@ + xml_escaped(
        link_of(settings, item),
    ) + "</link><guid>"@ + xml_escaped(link_of(settings, item)) + "</guid><pubDate>"@
        + rfc2822_text(pub_date_of(item).secs as int, pub_date_of(item).nanos as int) + "</pubDate><description>"@ + xml_escaped(
        excerpt_of(item),
    ) + "</description></item>"@
}

pub open spec fn rss_items(settings: SiteSettings, items: Seq<PostResponse>) -> Seq<char>
    decreases items.len(),
{
    if items.len() == 0 {
        Seq::empty()
    } else {
        rss_items(settings, items.drop_last()) + rss_item(settings, items.last())
    }
}

/// The RSS 2.0 document for `items`, with `updated` as its build date.
pub open spec fn rss_document(settings: SiteSettings, items: Seq<PostResponse>, updated: Seq<char>) -> Seq<char> {
    "<?xml version=\"1.0\" encoding=\"utf-8\"?><rss version=\"2.0\"><channel><title>"@
        + xml_escaped(settings.title@) + "</title><link>"@ + xml_escaped(
        site_url_of(base_of(settings)),
    ) + "</link><description>"@ + xml_escaped(settings.description@) + "</description><lastBuildDate>"@
        + updated + "</lastBuildDate>"@ + rss_items(settings, items) + "</channel></rss>"@
}

pub open spec fn atom_entry(settings: SiteSettings, item: PostResponse) -> Seq<char> {
    "<entry><title>"@ + xml_escaped(item.post.title@) + "</title><link href=\""@ + xml_escaped(
        link_of(settings, item),
    ) + "\"/><id>"@ + xml_escaped(link_of(settings, item)) + "</id><updated>"@ + rfc3339_text(
        item.post.updated_at.secs as int,
        item.post.updated_at.nanos as int,
    ) + "</updated><summary>"@ + xml_escaped(excerpt_of(item)) + "</summary></entry>"@
}

pub open spec fn atom_entries(settings: SiteSettings, items: Seq<PostResponse>) -> Seq<char>
    decreases items.len(),
{
    if items.len() == 0 {
        Seq::empty()
    } else {
        atom_entries(settings, items.drop_last()) + atom_entry(settings, items.last())
    }
}

/// The Atom document for `items`, with `updated` as its update time.
pub open spec fn atom_document(settings: SiteSettings, items: Seq<PostResponse>, updated: Seq<char>) -> Seq<char> {
    "<?xml version=\"1.0\" encoding=\"utf-8\"?><feed xmlns=\"http://www.w3.org/2005/Atom\"><title>"@
        + xml_escaped(settings.title@) + "</title><link href=\""@ + xml_escaped(
        site_url_of(base_of(settings)),
    ) + "\"/><id>"@ + xml_escaped(site_url_of(base_of(settings))) + "</id><updated>"@ + updated
        + "</updated>"@ + atom_entries(settings, items) + "</feed>"@
}

pub open spec fn sitemap_url(settings: SiteSettings, item: PostResponse) -> Seq<char> {
    "<url><loc>"@ + xml_escaped(link_of(settings, item)) + "</loc><lastmod>"@ + rfc3339_text(
        item.post.updated_at.secs as int,
        item.post.updated_at.nanos as int,
    ) + "</lastmod></url>"@
}

pub open spec fn sitemap_urls(settings: SiteSettings, items: Seq<PostResponse>) -> Seq<char>
    decreases items.len(),
{
    if items.len() == 0 {
        Seq::empty()
    } else {
        sitemap_urls(settings, items.drop_last()) + sitemap_url(settings, items.last())
    }
}

pub open spec fn sitemap_home(settings: SiteSettings) -> Seq<char> {
    if settings.base_url is Some {
        "<url><loc>"@ + xml_escaped(site_url_of(base_of(settings))) + "</loc></url>"@
    } else {
        Seq::empty()
    }
}

/// The sitemap: the site itself when a base URL is configured, then every post, then every page.
pub open spec fn sitemap_document(settings: SiteSettings, posts: Seq<PostResponse>, pages: Seq<PostResponse>) -> Seq<char> {
    "<?xml version=\"1.0\" encoding=\"utf-8\"?><urlset xmlns=\"http://www.sitemaps.org/schemas/sitemap/0.9\">"@
        + (sitemap_home(settings) + sitemap_urls(settings, posts + pages)) + "</urlset>"@
}

/// robots.txt: allow everything, and name the sitemap when a base URL is configured.
pub open spec fn robots_document(settings: SiteSettings) -> Seq<char> {
    "User-agent: *\nAllow: /\n"@ + match settings.base_url {
        Some(b) => "Sitemap: "@ + trim_end_with(b@, '/') + "/sitemap.xml\n"@,
        None => Seq::empty(),
    }
}

/// Every item's publication date is a year from 0 to 9999, as RFC 2822 can write it.
pub open spec fn pub_dates_ok(items: Seq<PostResponse>) -> bool {
    forall|i: int| 0 <= i < items.len() ==> rfc2822_ok(pub_date_of(#[trigger] items[i]))
}

/// The dates an RSS feed writes are years from 0 to 9999: each item's publication date, and
/// the first item's update time (the build date).
pub open spec fn rss_dates_ok(items: Seq<PostResponse>) -> bool {
    &&& pub_dates_ok(items)
    &&& items.len() > 0 ==> rfc2822_ok(items[0].post.updated_at)
}

pub open spec fn datetimes_ok(items: Seq<PostResponse>) -> bool {
    forall|i: int| 0 <= i < items.len() ==> datetime_ok((#[trigger] items[i]).post.updated_at)
}

/// The last second that RFC 2822 can write, for a clock beyond it.
pub open spec fn rfc2822_clamped(secs: int) -> int {
    if secs > 253402300799 {
        253402300799
    } else {
        secs
    }
}

fn append_escaped(out: &mut String, value: &str)
    ensures
        final(out)@ == old(out)@ + xml_escaped(value@),
{
    let ghost start = out@;
    for c in it: value.chars()
        invariant
            it.seq() == value@,
            out@ == start + xml_escaped(it.seq().take(it.index() as int)),
    {
        assert(it.seq().take(it.index() + 1).drop_last() == it.seq().take(it.index() as int));
        let ghost before = out@;
        if c == '&' {
            proof {
                reveal_strlit("&amp;");
            }
            out.append("&amp;");
        } else if c == '<' {
            proof {
                reveal_strlit("&lt;");
            }
            out.append("&lt;");
        } else if c == '>' {
            proof {
                reveal_strlit("&gt;");
            }
            out.append("&gt;");
        } else if c == '"' {
            proof {
                reveal_strlit("&quot;");
            }
            out.append("&quot;");
        } else if c == '\'' {
            proof {
                reveal_strlit("&apos;");
            }
            out.append("&apos;");
        } else {
            push_char(out, c);
        }
        assert(out@ == before + xml_char(c));
    }
    assert(value@.take(value@.len() as int) == value@);
}

/// `value` with `&`, `<`, `>`, `"` and `'` replaced by their XML entities.
pub fn escape_xml(value: &str) -> (out: String)
    ensures
        out@ == xml_escaped(value@),
{
    let mut out = String::new();
    append_escaped(&mut out, value);
    out
}

/// The site's base URL without trailing slashes (`""` when no base URL is configured).
pub fn site_url(settings: &SiteSettings) -> (out: String)
    ensures
        out@ == site_url_of(base_of(*settings)),
{
    match &settings.base_url {
        Some(b) => trim_end_char(b.as_str(), '/'),
        None => trim_end_char("/", '/'),
    }
}

fn permalink(post_type: PostType, slug: &str) -> (out: String)
    ensures
        out@ == permalink_path(post_type, slug@),
{
    let mut out = match post_type {
        PostType::Page => "/pages/".to_owned(),
        PostType::Post => "/posts/".to_owned(),
    };
    out.append(slug);
    out
}

/// The absolute link of a post or page: `/posts/{slug}` or `/pages/{slug}` under the base URL.
pub fn absolute_permalink(settings: &SiteSettings, post: &PostResponse) -> (out: String)
    ensures
        out@ == link_of(*settings, *post),
{
    let path = permalink(post.post.post_type, post.post.slug.as_str());
    match &settings.base_url {
        Some(b) => {
            let mut out = trim_end_char(b.as_str(), '/');
            out.append(path.as_str());
            out
        },
        None => path,
    }
}

fn excerpt_text(item: &PostResponse) -> (out: &str)
    ensures
        out@ == excerpt_of(*item),
{
    match &item.post.excerpt {
        Some(e) => e.as_str(),
        None => {
            proof {
                reveal_strlit("");
            }
            ""
        },
    }
}

fn render_rss_item(settings: &SiteSettings, item: &PostResponse) -> (out: String)
    requires
        rfc2822_ok(pub_date_of(*item)),
    ensures
        out@ == rss_item(*settings, *item),
{
    let link = absolute_permalink(settings, item);
    let date = match item.post.published_at {
        Some(t) => t,
        None => item.post.created_at,
    };
    let mut out = "<item><title>".to_owned();
    append_escaped(&mut out, item.post.title.as_str());
    out.append("</title><link>");
    append_escaped(&mut out, link.as_str());
    out.append("</link><guid>");
    append_escaped(&mut out, link.as_str());
    out.append("</guid><pubDate>");
    out.append(format_rfc2822(date).as_str());
    out.append("</pubDate><description>");
    append_escaped(&mut out, excerpt_text(item));
    out.append("</description></item>");
    out
}

/// The RSS 2.0 document for `posts`, whose build date is the text `updated`.
pub fn render_rss_with_date(settings: &SiteSettings, posts: &[PostResponse], updated: &str) -> (out: String)
    requires
        pub_dates_ok(posts@),
    ensures
        out@ == rss_document(*settings, posts@, updated@),
{
    let mut items = String::new();
    let mut i: usize = 0;
    while i < posts.len()
        invariant
            i <= posts@.len(),
            pub_dates_ok(posts@),
            items@ == rss_items(*settings, posts@.take(i as int)),
        decreases posts@.len() - i,
    {
        assert(posts@.take(i + 1).drop_last() == posts@.take(i as int));
        assert(posts@.take(i + 1).last() == posts@[i as int]);
        let item = render_rss_item(settings, &posts[i]);
        items.append(item.as_str());
        i = i + 1;
    }
    assert(posts@.take(posts@.len() as int) == posts@);
    let link = site_url(settings);
    let mut out = "<?xml version=\"1.0\" encoding=\"utf-8\"?><rss version=\"2.0\"><channel><title>".to_owned();
    append_escaped(&mut out, settings.title.as_str());
    out.append("</title><link>");
    append_escaped(&mut out, link.as_str());
    out.append("</link><description>");
    append_escaped(&mut out, settings.description.as_str());
    out.append("</description><lastBuildDate>");
    out.append(updated);
    out.append("</lastBuildDate>");
    out.append(items.as_str());
    out.append("</channel></rss>");
    out
}

/// Whether the dates an RSS feed of `posts` writes are years from 0 to 9999: every
/// publication date, and the first post's update time.
pub fn rss_dates_in_range(posts: &[PostResponse]) -> (b: bool)
    ensures
        b == rss_dates_ok(posts@),
{
    let mut i: usize = 0;
    while i < posts.len()
        invariant
            i <= posts@.len(),
            forall|j: int| 0 <= j < i ==> rfc2822_ok(pub_date_of(#[trigger] posts@[j])),
        decreases posts@.len() - i,
    {
        let post = &posts[i].post;
        let published = match post.published_at {
            Some(t) => t,
            None => post.created_at,
        };
        if !is_rfc2822_time(published) {
            assert(!rfc2822_ok(pub_date_of(posts@[i as int])));
            return false;
        }
        i = i + 1;
    }
    if posts.len() > 0 {
        if !is_rfc2822_time(posts[0].post.updated_at) {
            return false;
        }
    }
    true
}

/// Whether every update date of `items` is an instant that a calendar date can hold.
pub fn datetimes_in_range(items: &[PostResponse]) -> (b: bool)
    ensures
        b == datetimes_ok(items@),
{
    let mut i: usize = 0;
    while i < items.len()
        invariant
            i <= items@.len(),
            forall|j: int| 0 <= j < i ==> datetime_ok((#[trigger] items@[j]).post.updated_at),
        decreases items@.len() - i,
    {
        if !is_datetime(items[i].post.updated_at) {
            assert(!datetime_ok(items@[i as int].post.updated_at));
            return false;
        }
        i = i + 1;
    }
    true
}

/// The RSS 2.0 feed of `posts`. Its build date is the last update of the first post, or,
/// when there is none, the current second (no later than the end of year 9999; the Unix
/// epoch when the system clock cannot be read as a date).
pub fn render_rss(settings: &SiteSettings, posts: &[PostResponse]) -> (out: String)
    requires
        rss_dates_ok(posts@),
    ensures
        posts@.len() > 0 ==> out@ == rss_document(
            *settings,
            posts@,
            rfc2822_text(posts@[0].post.updated_at.secs as int, posts@[0].post.updated_at.nanos as int),
        ),
        posts@.len() == 0 ==> exists|now: int|
            0 <= now && in_rfc2822_range(now) && out@ == rss_document(
                *settings,
                posts@,
                rfc2822_text(now, 0),
            ),
{
    let ghost mut at: int = 0;
    let updated = if posts.len() > 0 {
        format_rfc2822(posts[0].post.updated_at)
    } else {
        let now = match now_unix_seconds() {
            Some(n) => if n > 253402300799 {
                253402300799
            } else {
                n
            },
            None => 0,
        };
        proof {
            at = now as int;
        }
        format_rfc2822(Timestamp { secs: now, nanos: 0 })
    };
    let out = render_rss_with_date(settings, posts, updated.as_str());
    assert(posts@.len() == 0 ==> 0 <= at && in_rfc2822_range(at) && out@ == rss_document(*settings, posts@, rfc2822_text(at, 0)));
    out
}

fn render_atom_entry(settings: &SiteSettings, item: &PostResponse) -> (out: String)
    requires
        datetime_ok(item.post.updated_at),
    ensures
        out@ == atom_entry(*settings, *item),
{
    let link = absolute_permalink(settings, item);
    let mut out = "<entry><title>".to_owned();
    append_escaped(&mut out, item.post.title.as_str());
    out.append("</title><link href=\"");
    append_escaped(&mut out, link.as_str());
    out.append("\"/><id>");
    append_escaped(&mut out, link.as_str());
    out.append("</id><updated>");
    out.append(format_rfc3339(item.post.updated_at).as_str());
    out.append("</updated><summary>");
    append_escaped(&mut out, excerpt_text(item));
    out.append("</summary></entry>");
    out
}

/// The Atom document for `posts`, whose update time is the text `updated`.
pub fn render_atom_with_date(settings: &SiteSettings, posts: &[PostResponse], updated: &str) -> (out: String)
    requires
        datetimes_ok(posts@),
    ensures
        out@ == atom_document(*settings, posts@, updated@),
{
    let mut entries = String::new();
    let mut i: usize = 0;
    while i < posts.len()
        invariant
            i <= posts@.len(),
            datetimes_ok(posts@),
            entries@ == atom_entries(*settings, posts@.take(i as int)),
        decreases posts@.len() - i,
    {
        assert(posts@.take(i + 1).drop_last() == posts@.take(i as int));
        assert(posts@.take(i + 1).last() == posts@[i as int]);
        let entry = render_atom_entry(settings, &posts[i]);
        entries.append(entry.as_str());
        i = i + 1;
    }
    assert(posts@.take(posts@.len() as int) == posts@);
    let link = site_url(settings);
    let mut out = "<?xml version=\"1.0\" encoding=\"utf-8\"?><feed xmlns=\"http://www.w3.org/2005/Atom\"><title>".to_owned();
    append_escaped(&mut out, settings.title.as_str());
    out.append("</title><link href=\"");
    append_escaped(&mut out, link.as_str());
    out.append("\"/><id>");
    append_escaped(&mut out, link.as_str());
    out.append("</id><updated>");
    out.append(updated);
    out.append("</updated>");
    out.append(entries.as_str());
    out.append("</feed>");
    out
}

/// The Atom feed of `posts`. Its update time is the last update of the first post, or, when
/// there is none, the current second (the Unix epoch when the system clock cannot be read as
/// a date).
pub fn render_atom(settings: &SiteSettings, posts: &[PostResponse]) -> (out: String)
    requires
        datetimes_ok(posts@),
    ensures
        posts@.len() > 0 ==> out@ == atom_document(
            *settings,
            posts@,
            rfc3339_text(posts@[0].post.updated_at.secs as int, posts@[0].post.updated_at.nanos as int),
        ),
        posts@.len() == 0 ==> exists|now: int|
            0 <= now && in_datetime_range(now) && out@ == atom_document(
                *settings,
                posts@,
                rfc3339_text(now, 0),
            ),
{
    let ghost mut at: int = 0;
    let updated = if posts.len() > 0 {
        format_rfc3339(posts[0].post.updated_at)
    } else {
        let now = match now_unix_seconds() {
            Some(n) => n,
            None => 0,
        };
        proof {
            at = now as int;
        }
        format_rfc3339(Timestamp { secs: now, nanos: 0 })
    };
    let out = render_atom_with_date(settings, posts, updated.as_str());
    assert(posts@.len() == 0 ==> 0 <= at && in_datetime_range(at) && out@ == atom_document(*settings, posts@, rfc3339_text(at, 0)));
    out
}

fn append_sitemap_urls(out: &mut String, settings: &SiteSettings, items: &[PostResponse])
    requires
        datetimes_ok(items@),
    ensures
        final(out)@ == old(out)@ + sitemap_urls(*settings, items@),
{
    let ghost start = out@;
    let mut i: usize = 0;
    while i < items.len()
        invariant
            i <= items@.len(),
            datetimes_ok(items@),
            out@ == start + sitemap_urls(*settings, items@.take(i as int)),
        decreases items@.len() - i,
    {
        assert(items@.take(i + 1).drop_last() == items@.take(i as int));
        assert(items@.take(i + 1).last() == items@[i as int]);
        let item = &items[i];
        let mut url = "<url><loc>".to_owned();
        append_escaped(&mut url, absolute_permalink(settings, item).as_str());
        url.append("</loc><lastmod>");
        url.append(format_rfc3339(item.post.updated_at).as_str());
        url.append("</lastmod></url>");
        let ghost before = out@;
        out.append(url.as_str());
        assert(out@ == start + (sitemap_urls(*settings, items@.take(i as int)) + sitemap_url(*settings, items@[i as int])));
        i = i + 1;
    }
    assert(items@.take(items@.len() as int) == items@);
}

proof fn lemma_sitemap_urls_concat(settings: SiteSettings, a: Seq<PostResponse>, b: Seq<PostResponse>)
    ensures
        sitemap_urls(settings, a + b) == sitemap_urls(settings, a) + sitemap_urls(settings, b),
    decreases b.len(),
{
    if b.len() == 0 {
        assert(a + b == a);
    } else {
        lemma_sitemap_urls_concat(settings, a, b.drop_last());
        assert((a + b).drop_last() == a + b.drop_last());
        assert((a + b).last() == b.last());
    }
}

/// The sitemap: the site itself when a base URL is configured, then each post and each page
/// with its last update.
pub fn render_sitemap(settings: &SiteSettings, posts: &[PostResponse], pages: &[PostResponse]) -> (out: String)
    requires
        datetimes_ok(posts@),
        datetimes_ok(pages@),
    ensures
        out@ == sitemap_document(*settings, posts@, pages@),
{
    let mut urls = String::new();
    if settings.base_url.is_some() {
        urls.append("<url><loc>");
        append_escaped(&mut urls, site_url(settings).as_str());
        urls.append("</loc></url>");
    }
    assert(urls@ == sitemap_home(*settings));
    append_sitemap_urls(&mut urls, settings, posts);
    append_sitemap_urls(&mut urls, settings, pages);
    proof {
        lemma_sitemap_urls_concat(*settings, posts@, pages@);
    }
    let mut out = "<?xml version=\"1.0\" encoding=\"utf-8\"?><urlset xmlns=\"http://www.sitemaps.org/schemas/sitemap/0.9\">".to_owned();
    out.append(urls.as_str());
    out.append("</urlset>");
    out
}

/// The robots.txt text: everything allowed, and the sitemap's address when a base URL is set.
pub fn robots_text(settings: &SiteSettings) -> (out: String)
    ensures
        out@ == robots_document(*settings),
{
    let mut out = "User-agent: *\nAllow: /\n".to_owned();
    match &settings.base_url {
        Some(b) => {
            out.append("Sitemap: ");
            out.append(trim_end_char(b.as_str(), '/').as_str());
            out.append("/sitemap.xml\n");
        },
        None => {},
    }
    out
}

} // verus!
