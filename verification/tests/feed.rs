use chrono::{TimeZone, Utc};
use tiphia_core::clock::{is_datetime, is_rfc2822_time, Timestamp};
use tiphia_core::entities::{Post, PostResponse, PostStatus, PostType, SiteSettings};

fn at(secs: i64) -> Timestamp {
    Timestamp { secs, nanos: 0 }
}
use tiphia_core::feed::{
    absolute_permalink, datetimes_in_range, escape_xml, render_atom, render_rss, render_sitemap,
    robots_text, rss_dates_in_range, site_url,
};

fn settings() -> SiteSettings {
    SiteSettings {
        title: "我的博客 & <Tiphia>".to_owned(),
        description: "中文描述 & symbols".to_owned(),
        base_url: Some("https://example.com/".to_owned()),
    }
}

fn post_response() -> PostResponse {
    let created_at = at(Utc.with_ymd_and_hms(2026, 5, 23, 8, 0, 0).unwrap().timestamp());
    PostResponse {
        post: Post {
            id: 1,
            slug: "hello".to_owned(),
            title: "标题 & <测试>".to_owned(),
            markdown: "".to_owned(),
            html: "".to_owned(),
            excerpt: Some("摘要 & <xml>".to_owned()),
            status: PostStatus::Published,
            post_type: PostType::Post,
            author_id: 1,
            published_at: Some(created_at),
            created_at,
            updated_at: created_at,
        },
        permalink: "/legacy/hello".to_owned(),
        view_count: 0,
        comment_count: 0,
    }
}

#[test]
fn rss_escapes_xml_and_keeps_utf8_declaration() {
    let xml = render_rss(&settings(), &[post_response()]);
    assert!(xml.starts_with("<?xml version=\"1.0\" encoding=\"utf-8\"?>"));
    assert!(xml.contains("我的博客 &amp; &lt;Tiphia&gt;"));
    assert!(xml.contains("标题 &amp; &lt;测试&gt;"));
    assert!(xml.contains("摘要 &amp; &lt;xml&gt;"));
    assert!(xml.contains("https://example.com/posts/hello"));
}

#[test]
fn atom_escapes_xml_and_uses_absolute_links() {
    let xml = render_atom(&settings(), &[post_response()]);
    assert!(xml.contains("xmlns=\"http://www.w3.org/2005/Atom\""));
    assert!(xml.contains("标题 &amp; &lt;测试&gt;"));
    assert!(xml.contains("<link href=\"https://example.com/posts/hello\"/>"));
}

#[test]
fn sitemap_includes_site_and_public_items() {
    let item = post_response();
    let xml = render_sitemap(
        &settings(),
        std::slice::from_ref(&item),
        std::slice::from_ref(&item),
    );
    assert!(xml.contains("<loc>https://example.com</loc>"));
    assert_eq!(xml.matches("https://example.com/posts/hello").count(), 2);
}

#[test]
fn escape_xml_covers_quotes_and_apostrophes() {
    assert_eq!(escape_xml("&<>\"'"), "&amp;&lt;&gt;&quot;&apos;");
}

#[test]
fn escape_xml_keeps_plain_text() {
    assert_eq!(escape_xml("plain text é"), "plain text é");
    assert_eq!(escape_xml(""), "");
}

#[test]
fn rss_document_has_exact_shape() {
    let xml = render_rss(&settings(), &[post_response()]);
    assert_eq!(
        xml,
        "<?xml version=\"1.0\" encoding=\"utf-8\"?><rss version=\"2.0\"><channel><title>我的博客 &amp; &lt;Tiphia&gt;</title><link>https://example.com</link><description>中文描述 &amp; symbols</description><lastBuildDate>Sat, 23 May 2026 08:00:00 +0000</lastBuildDate><item><title>标题 &amp; &lt;测试&gt;</title><link>https://example.com/posts/hello</link><guid>https://example.com/posts/hello</guid><pubDate>Sat, 23 May 2026 08:00:00 +0000</pubDate><description>摘要 &amp; &lt;xml&gt;</description></item></channel></rss>"
    );
}

#[test]
fn atom_document_has_exact_shape() {
    let xml = render_atom(&settings(), &[post_response()]);
    assert_eq!(
        xml,
        "<?xml version=\"1.0\" encoding=\"utf-8\"?><feed xmlns=\"http://www.w3.org/2005/Atom\"><title>我的博客 &amp; &lt;Tiphia&gt;</title><link href=\"https://example.com\"/><id>https://example.com</id><updated>2026-05-23T08:00:00Z</updated><entry><title>标题 &amp; &lt;测试&gt;</title><link href=\"https://example.com/posts/hello\"/><id>https://example.com/posts/hello</id><updated>2026-05-23T08:00:00Z</updated><summary>摘要 &amp; &lt;xml&gt;</summary></entry></feed>"
    );
}

#[test]
fn rss_without_posts_uses_a_current_date() {
    let xml = render_rss(&settings(), &[]);
    assert!(xml.contains("<lastBuildDate>"));
    assert!(xml.ends_with("</lastBuildDate></channel></rss>"));
}

#[test]
fn sitemap_without_base_url_has_relative_links_only() {
    let mut s = settings();
    s.base_url = None;
    let mut page = post_response();
    page.post.post_type = PostType::Page;
    let xml = render_sitemap(&s, &[], std::slice::from_ref(&page));
    assert_eq!(
        xml,
        "<?xml version=\"1.0\" encoding=\"utf-8\"?><urlset xmlns=\"http://www.sitemaps.org/schemas/sitemap/0.9\"><url><loc>/pages/hello</loc><lastmod>2026-05-23T08:00:00Z</lastmod></url></urlset>"
    );
}

#[test]
fn site_url_trims_trailing_slashes() {
    let mut s = settings();
    s.base_url = Some("https://example.com///".to_owned());
    assert_eq!(site_url(&s), "https://example.com");
    s.base_url = None;
    assert_eq!(site_url(&s), "");
}

#[test]
fn permalinks_follow_the_content_type() {
    let mut item = post_response();
    assert_eq!(absolute_permalink(&settings(), &item), "https://example.com/posts/hello");
    item.post.post_type = PostType::Page;
    assert_eq!(absolute_permalink(&settings(), &item), "https://example.com/pages/hello");
    let mut s = settings();
    s.base_url = None;
    assert_eq!(absolute_permalink(&s, &item), "/pages/hello");
}

#[test]
fn robots_names_the_sitemap_when_the_site_has_a_base_url() {
    assert_eq!(
        robots_text(&settings()),
        "User-agent: *\nAllow: /\nSitemap: https://example.com/sitemap.xml\n"
    );
    let mut s = settings();
    s.base_url = None;
    assert_eq!(robots_text(&s), "User-agent: *\nAllow: /\n");
}

#[test]
fn rss_item_without_publication_uses_creation_date_and_empty_excerpt() {
    let mut item = post_response();
    item.post.published_at = None;
    item.post.excerpt = None;
    item.post.created_at = at(0);
    let xml = render_rss(&settings(), std::slice::from_ref(&item));
    assert!(xml.contains("<pubDate>Thu, 1 Jan 1970 00:00:00 +0000</pubDate><description></description>"));
}

#[test]
fn datetime_bounds_format() {
    let mut item = post_response();
    item.post.updated_at = at(-8334601228800);
    let first = render_atom(&settings(), std::slice::from_ref(&item));
    assert!(first.contains("<updated>-262143-01-01T00:00:00Z</updated>"));
    assert!(chrono::DateTime::<chrono::Utc>::from_timestamp(-8334601228801, 0).is_none());
    assert!(chrono::DateTime::<chrono::Utc>::from_timestamp(8210266876800, 0).is_none());
    item.post.updated_at = at(8210266876799);
    let last = render_atom(&settings(), std::slice::from_ref(&item));
    assert!(last.contains("262142-12-31T23:59:59Z</updated>"));
}

#[test]
fn date_range_checks() {
    let mut item = post_response();
    assert!(rss_dates_in_range(std::slice::from_ref(&item)));
    assert!(datetimes_in_range(std::slice::from_ref(&item)));
    item.post.updated_at = at(253402300800);
    assert!(!rss_dates_in_range(std::slice::from_ref(&item)));
    let mut second = post_response();
    second.post.updated_at = at(253402300800);
    assert!(rss_dates_in_range(&[post_response(), second.clone()]));
    let xml = render_rss(&settings(), &[post_response(), second]);
    assert_eq!(xml.matches("<item>").count(), 2);
    assert!(datetimes_in_range(std::slice::from_ref(&item)));
    item.post.updated_at = at(8210266876800);
    assert!(!datetimes_in_range(std::slice::from_ref(&item)));
    item.post.updated_at = at(0);
    item.post.published_at = None;
    item.post.created_at = at(-62167219201);
    assert!(!rss_dates_in_range(std::slice::from_ref(&item)));
    assert!(rss_dates_in_range(&[]));
}

#[test]
fn escaped_text_decodes_back() {
    let original = "a & b < c > d \" e ' f &amp; g";
    let escaped = escape_xml(original);
    assert!(!escaped.contains('<') && !escaped.contains('>') && !escaped.contains('"') && !escaped.contains('\''));
    let decoded = escaped
        .replace("&lt;", "<")
        .replace("&gt;", ">")
        .replace("&quot;", "\"")
        .replace("&apos;", "'")
        .replace("&amp;", "&");
    assert_eq!(decoded, original);
}

#[test]
fn leap_seconds_are_written_as_second_60() {
    let leap = Timestamp { secs: 1483228799, nanos: 1_000_000_000 };
    assert!(is_datetime(leap));
    assert!(is_rfc2822_time(leap));
    assert!(!is_datetime(Timestamp { secs: 1483228798, nanos: 1_000_000_000 }));
    assert!(!is_datetime(Timestamp { secs: 0, nanos: 2_000_000_000 }));
    assert!(is_datetime(Timestamp { secs: -1, nanos: 1_500_000_000 }));
    let mut item = post_response();
    item.post.published_at = Some(leap);
    item.post.updated_at = leap;
    let rss = render_rss(&settings(), std::slice::from_ref(&item));
    assert!(rss.contains("<lastBuildDate>Sat, 31 Dec 2016 23:59:60 +0000</lastBuildDate>"));
    assert!(rss.contains("<pubDate>Sat, 31 Dec 2016 23:59:60 +0000</pubDate>"));
    let atom = render_atom(&settings(), std::slice::from_ref(&item));
    assert!(atom.contains("<updated>2016-12-31T23:59:60Z</updated>"));
}
