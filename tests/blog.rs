use floc_blog::config::{Fragments, SiteConfig};
use floc_blog::date::{parse_publish_date, DateError};
use floc_blog::document::assemble_document;
use floc_blog::feed::{format_blog_list, format_rss, format_rss_at, sort_entries};
use floc_blog::markdown::{process_markdown, scan_blocks, Rewrite};
use floc_blog::metadata::{parse_comment, Field, MdBlock};
use floc_blog::pipeline::{build_site, convert_post, PostSource};
use floc_blog::site::{
    check_post_folder, check_root_entry, file_extension, file_stem, route_post_file, validate_post, BlogEntry,
    InputError, PostError, PostFile,
};
use floc_blog::template::format_template;
use floc_blog::text::{trim, xml_escape};
use floc_blog::date::long_date;

fn site() -> SiteConfig {
    SiteConfig {
        language: None,
        favicon: None,
        opengraph_locale: None,
        opengraph_sitename: None,
        blog_base_url: "https://example.com/blog".to_string(),
    }
}

fn bindings(pairs: &[(&str, &str)]) -> Vec<(String, String)> {
    pairs.iter().map(|(k, v)| (k.to_string(), v.to_string())).collect()
}

fn entry(name: &str, date: &str) -> BlogEntry {
    BlogEntry {
        url_name: name.to_string(),
        title: format!("Title {}", name),
        description: format!("About {}", name),
        date: parse_publish_date(date).unwrap(),
    }
}

fn post(name: &str, markdown: &str) -> PostSource {
    PostSource { url_name: name.to_string(), markdown: markdown.to_string() }
}

#[test]
fn trim_strips_unicode_whitespace() {
    assert_eq!(trim(" \t\u{3000}a b\n\u{a0}"), "a b");
    assert_eq!(trim("   "), "");
    assert_eq!(trim(""), "");
}

#[test]
fn comment_with_known_label_sets_field() {
    let (f, v) = parse_comment("  <!--title:   Hello, world  -->\n").unwrap();
    assert_eq!(f, Field::Title);
    assert_eq!(v, "Hello, world");
    let (f, v) = parse_comment("<!--date: 05 Jan 2024 10:00:00 +0000-->").unwrap();
    assert_eq!(f, Field::Date);
    assert_eq!(v, "05 Jan 2024 10:00:00 +0000");
}

#[test]
fn comment_value_keeps_later_colons() {
    let (f, v) = parse_comment("<!--description: a: b-->").unwrap();
    assert_eq!(f, Field::Description);
    assert_eq!(v, "a: b");
}

#[test]
fn comments_that_set_nothing() {
    assert!(parse_comment("<!-- no colon here -->").is_none());
    assert!(parse_comment("<!--Title: capital-->").is_none());
    assert!(parse_comment("<!--summary: other label-->").is_none());
    assert!(parse_comment("<p>title: not a comment</p>").is_none());
    assert!(parse_comment("<!-->").is_none());
    assert!(parse_comment("<!--->").is_none());
}

#[test]
fn last_metadata_comment_wins() {
    let md = "<!--title: First-->\n\nSome text.\n\n<!--title:   Second  -->\n\n<!--author: Ann-->\n";
    let c = process_markdown(&Fragments::shim(), &site(), md);
    assert_eq!(c.metadata.title, "Second");
    assert_eq!(c.metadata.author, "Ann");
    assert_eq!(c.metadata.description, "");
    assert_eq!(c.metadata.date, "");
}

#[test]
fn scan_blocks_rewrites_caption_fences_and_reads_comments() {
    let blocks = vec![
        MdBlock::FenceStart("image_description".to_string()),
        MdBlock::Other,
        MdBlock::FenceEnd("image_description".to_string()),
        MdBlock::FenceStart("rust".to_string()),
        MdBlock::FenceEnd("rust".to_string()),
        MdBlock::Html("<!--date: x-->".to_string()),
        MdBlock::Html("<!--date: y -->".to_string()),
    ];
    let (rewrites, m) = scan_blocks(&blocks);
    assert_eq!(
        rewrites,
        vec![
            Rewrite::OpenCaption,
            Rewrite::Keep,
            Rewrite::CloseCaption,
            Rewrite::Keep,
            Rewrite::Keep,
            Rewrite::Keep,
            Rewrite::Keep,
        ]
    );
    assert_eq!(m.date, "y");
    assert_eq!(m.title, "");
}

#[test]
fn image_description_fence_becomes_caption() {
    let md = "```image_description\ncaption text\n```\n";
    let c = process_markdown(&Fragments::shim(), &site(), md);
    assert!(c.html.contains("<div class=\"ImageDescription\"><p>caption text"));
    assert!(c.html.contains("</p></div>"));
    assert!(!c.html.contains("<pre"));
    assert!(!c.html.contains("<code"));
    assert!(!c.html.contains("```"));
}

#[test]
fn other_fences_stay_code() {
    let c = process_markdown(&Fragments::shim(), &site(), "```rust\nlet x = 1;\n```\n");
    assert!(c.html.contains("<pre><code class=\"language-rust\">"));
}

#[test]
fn tables_are_enabled() {
    let c = process_markdown(&Fragments::shim(), &site(), "| a | b |\n|---|---|\n| 1 | 2 |\n");
    assert!(c.html.contains("<table>"));
}

#[test]
fn bare_document_layout() {
    let md = "<!--title: T-->\n\nHello\n";
    let c = process_markdown(&Fragments::shim(), &site(), md);
    let expected = format!(
        "<!DOCTYPE html>\n\n<head>\n<meta charset=\"UTF-8\">\n<title>T</title>\n</head>\n\n{}",
        c.html
    );
    assert_eq!(c.document, expected);
    assert!(c.html.contains("<p>Hello</p>"));
}

#[test]
fn full_document_layout() {
    let config = SiteConfig {
        language: Some("en".to_string()),
        favicon: Some("/icon.png".to_string()),
        opengraph_locale: Some("en_GB".to_string()),
        opengraph_sitename: Some("Site".to_string()),
        blog_base_url: "https://b".to_string(),
    };
    let fragments = Fragments {
        css: "p{}".to_string(),
        header: "<header>".to_string(),
        footer: "<footer>".to_string(),
        blog_entry: String::new(),
        blog_list: String::new(),
    };
    let doc = assemble_document(&config, &fragments, "T", "D", "A", "<p>x</p>\n");
    let expected = [
        "<!DOCTYPE html>\n",
        "<html lang=\"en\">\n",
        "\n<head>\n<meta charset=\"UTF-8\">\n",
        "<title>T</title>\n",
        "<link rel=\"shortcut icon\" type=\"image/png\" href=\"/icon.png\" />\n",
        "<meta name=\"description\" content=\"D\" />\n",
        "<meta property=\"og:description\" content=\"D\" />\n",
        "<meta name=\"author\" content=\"A\" />\n",
        "<meta property=\"og:locale\" content=\"en_GB\" />\n",
        "<meta property=\"og:site_name\" content=\"Site\" />\n",
        "<style>\np{}</style>\n",
        "</head>\n\n",
        "<header>\n\n",
        "<p>x</p>\n",
        "\n\n<footer>",
    ]
    .concat();
    assert_eq!(doc, expected);
}

#[test]
fn fragments_are_trimmed_or_empty() {
    let loaded = Fragments {
        css: "  a{}\n".to_string(),
        header: "\n<h>\n".to_string(),
        footer: "f".to_string(),
        blog_entry: " e ".to_string(),
        blog_list: "\tl\t".to_string(),
    };
    let f = Fragments::retrive_or_shim(Some(loaded));
    assert_eq!(f.css, "a{}");
    assert_eq!(f.header, "<h>");
    assert_eq!(f.footer, "f");
    assert_eq!(f.blog_entry, "e");
    assert_eq!(f.blog_list, "l");
    let s = Fragments::retrive_or_shim(None);
    assert!(s.css.is_empty() && s.header.is_empty() && s.footer.is_empty());
    assert!(s.blog_entry.is_empty() && s.blog_list.is_empty());
}

#[test]
fn entry_template_round_trip() {
    let t = "<h2>{{TITLE}}</h2><p>{{DESCRIPTION}}</p><i>{{DATE}}</i><a href=\"{{LINK}}\">";
    let b = bindings(&[("TITLE", "T"), ("DESCRIPTION", "D"), ("DATE", "X"), ("LINK", "Y")]);
    let r = format_template(t, &b);
    assert_eq!(r, "<h2>T</h2><p>D</p><i>X</i><a href=\"Y\">");
    assert!(!r.contains("{{"));
}

#[test]
fn template_leaves_unbound_and_does_not_rescan() {
    let b = bindings(&[("A", "{{B}}"), ("B", "b")]);
    assert_eq!(format_template("{{A}}-{{B}}-{{C}}-{A}", &b), "{{B}}-b-{{C}}-{A}");
    assert_eq!(format_template("", &b), "");
    assert_eq!(format_template("{{AB}}{{A}}", &bindings(&[("A", "1"), ("AB", "2")])), "21");
}

#[test]
fn template_first_binding_of_a_name_counts() {
    let b = bindings(&[("X", "first"), ("X", "second")]);
    assert_eq!(format_template("{{X}}", &b), "first");
}

#[test]
fn publish_dates_parse_with_offset() {
    assert_eq!(parse_publish_date("05 Jan 2024 10:00:00 +0000").unwrap(), 1704448800);
    assert_eq!(parse_publish_date("05 Jan 2024 12:00:00 +0200").unwrap(), 1704448800);
    assert!(matches!(parse_publish_date("not-a-date"), Err(DateError::Malformed(_))));
    assert!(matches!(parse_publish_date("2024-01-05"), Err(DateError::Malformed(_))));
}

#[test]
fn publish_date_before_year_zero_is_refused() {
    assert!(matches!(
        parse_publish_date("01 Jan 0000 00:00:00 +0100"),
        Err(DateError::OutOfRange)
    ));
}

#[test]
fn sort_is_newest_first() {
    let mut es = vec![
        entry("a", "01 Jan 2024 00:00:00 +0000"),
        entry("c", "01 Mar 2024 00:00:00 +0000"),
        entry("b", "01 Feb 2024 00:00:00 +0000"),
    ];
    sort_entries(&mut es);
    let names: Vec<&str> = es.iter().map(|e| e.url_name.as_str()).collect();
    assert_eq!(names, vec!["c", "b", "a"]);
}

#[test]
fn sort_keeps_order_of_equal_dates() {
    let mut es = vec![
        entry("x1", "01 Jan 2024 00:00:00 +0000"),
        entry("y", "02 Jan 2024 00:00:00 +0000"),
        entry("x2", "01 Jan 2024 00:00:00 +0000"),
        entry("x3", "01 Jan 2024 01:00:00 +0100"),
    ];
    sort_entries(&mut es);
    let names: Vec<&str> = es.iter().map(|e| e.url_name.as_str()).collect();
    assert_eq!(names, vec!["y", "x1", "x2", "x3"]);
    let mut none: Vec<BlogEntry> = Vec::new();
    sort_entries(&mut none);
    assert!(none.is_empty());
}

#[test]
fn rss_feed_exact() {
    let es = vec![entry("hello", "05 Jan 2024 10:00:00 +0000")];
    let rss = format_rss_at(&site(), &es, "NOW");
    let expected = [
        "<?xml version=\"1.0\"?>\n",
        "<!--RSS generated NOW by floc_blog 0.0.1-->\n",
        "<rss version=\"2.0\">\n",
        "<language>en_US</language>\n",
        "<generator>floc_blog 0.0.1</generator>\n",
        "<channel>\n",
        "\n",
        "<item>\n",
        "\t<description>About hello</description>\n",
        "\t<pubDate>Fri, 5 Jan 2024 10:00:00 +0000</pubDate>\n",
        "\t<link>https://example.com/blog/hello</link>\n",
        "</item>\n",
        "\n</channel>\n",
        "</rss>\n",
    ]
    .concat();
    assert_eq!(rss, expected);
}

#[test]
fn rss_feed_uses_configured_language_and_current_time() {
    let mut config = site();
    config.language = Some("de".to_string());
    let rss = format_rss(&config, &Vec::new());
    assert!(rss.contains("<language>de</language>"));
    assert!(rss.starts_with("<?xml version=\"1.0\"?>\n<!--RSS generated "));
    assert!(!rss.contains("<item>"));
}

#[test]
fn blog_list_fills_templates() {
    let fragments = Fragments {
        css: String::new(),
        header: String::new(),
        footer: String::new(),
        blog_entry: "[{{TITLE}}|{{DESCRIPTION}}|{{DATE}}|{{LINK}}]".to_string(),
        blog_list: "<ul>{{ENTRIES}}</ul>".to_string(),
    };
    let es = vec![
        entry("b", "05 Jan 2024 10:00:00 +0000"),
        entry("a", "21 Mar 2023 08:30:00 -0500"),
    ];
    let page = format_blog_list(&site(), &es, &fragments);
    assert_eq!(
        page,
        "<ul>[Title b|About b|Friday the 5th of January 2024|https://example.com/blog/b]\
         [Title a|About a|Tuesday the 21st of March 2023|https://example.com/blog/a]</ul>"
    );
}

#[test]
fn root_entries() {
    assert_eq!(check_root_entry("my-post", true), Ok(()));
    assert_eq!(check_root_entry("notes.txt", false), Err(InputError::StrayFile));
    assert_eq!(check_root_entry("index.html", false), Err(InputError::ReservedIndex));
    assert_eq!(check_root_entry("index", true), Err(InputError::ReservedIndex));
    assert_eq!(check_root_entry("index.old", true), Err(InputError::ReservedIndex));
    assert_eq!(check_root_entry("indexes", true), Ok(()));
}

#[test]
fn stems_and_extensions() {
    assert_eq!(file_stem("a.tar.gz"), "a.tar");
    assert_eq!(file_extension("a.tar.gz"), Some("gz".to_string()));
    assert_eq!(file_stem(".hidden"), ".hidden");
    assert_eq!(file_extension(".hidden"), None);
    assert_eq!(file_stem("plain"), "plain");
    assert_eq!(file_extension("plain"), None);
    assert_eq!(file_stem("trailing."), "trailing");
    assert_eq!(file_extension("trailing."), Some(String::new()));
    assert_eq!(file_stem(".."), "..");
}

#[test]
fn post_files_are_routed() {
    let r = route_post_file("content.md").unwrap();
    assert_eq!(r.kind, PostFile::Content);
    assert_eq!(r.output_name, "index.html");
    let r = route_post_file("cat.png").unwrap();
    assert_eq!(r.kind, PostFile::Asset);
    assert_eq!(r.output_name, "cat.png");
    assert_eq!(route_post_file("notes.md").unwrap_err(), InputError::MisnamedMarkdown);
    assert_eq!(route_post_file("content.MD").unwrap().kind, PostFile::Asset);
}

const GOOD: &str = "<!--title: Hi-->\n<!--description: A post-->\n<!--date: 05 Jan 2024 10:00:00 +0000-->\n\nBody\n";

#[test]
fn valid_post_converts() {
    let (e, page) = convert_post(&site(), &Fragments::shim(), "hi", GOOD).unwrap();
    assert_eq!(e.url_name, "hi");
    assert_eq!(e.title, "Hi");
    assert_eq!(e.description, "A post");
    assert_eq!(e.date, 1704448800);
    assert!(page.contains("<title>Hi</title>"));
    assert!(page.contains("<p>Body</p>"));
}

#[test]
fn missing_attributes_are_reported() {
    let md = "<!--description: d-->\n<!--date: 05 Jan 2024 10:00:00 +0000-->\n";
    let r = convert_post(&site(), &Fragments::shim(), "p", md);
    assert!(matches!(r, Err(PostError::MissingAttribute(Field::Title))));
    let md = "<!--title: t-->\n<!--date: 05 Jan 2024 10:00:00 +0000-->\n";
    let r = convert_post(&site(), &Fragments::shim(), "p", md);
    assert!(matches!(r, Err(PostError::MissingAttribute(Field::Description))));
}

#[test]
fn missing_date_aborts() {
    let md = "<!--title: t-->\n<!--description: d-->\n";
    let r = convert_post(&site(), &Fragments::shim(), "p", md);
    assert!(matches!(r, Err(PostError::MissingAttribute(Field::Date))));
}

#[test]
fn malformed_date_aborts() {
    let md = "<!--title: t-->\n<!--description: d-->\n<!--date: not-a-date-->\n";
    let r = convert_post(&site(), &Fragments::shim(), "p", md);
    assert!(matches!(r, Err(PostError::BadDate(DateError::Malformed(_)))));
}

#[test]
fn validate_post_checks_in_order() {
    let m = floc_blog::metadata::Metadata {
        title: String::new(),
        description: String::new(),
        author: String::new(),
        date: String::new(),
    };
    assert!(matches!(validate_post("p", &m), Err(PostError::MissingAttribute(Field::Title))));
}

#[test]
fn build_stops_at_first_bad_post() {
    let posts = vec![post("one", GOOD), post("two", "<!--title: t-->\n<!--description: d-->\n"), post("three", GOOD)];
    let r = build_site(&site(), &Fragments::shim(), &posts);
    match r {
        Err((i, PostError::MissingAttribute(Field::Date))) => assert_eq!(i, 1),
        _ => panic!("expected the second post to fail"),
    }
}

#[test]
fn build_produces_one_page_per_post() {
    let later = GOOD.replace("05 Jan 2024", "06 Jan 2024");
    let posts = vec![post("one", GOOD), post("two", &later)];
    let out = build_site(&site(), &Fragments::shim(), &posts).unwrap();
    assert_eq!(out.pages.len(), 2);
    assert_eq!(out.pages[0].url_name, "one");
    assert_eq!(out.pages[1].url_name, "two");
    let names: Vec<&str> = out.entries.iter().map(|e| e.url_name.as_str()).collect();
    assert_eq!(names, vec!["two", "one"]);
    let two = out.feed.find("blog/two").unwrap();
    let one = out.feed.find("blog/one").unwrap();
    assert!(two < one);
    assert_eq!(out.index, "");
}

#[test]
fn xml_escape_replaces_markup_characters() {
    assert_eq!(xml_escape("Tom & Jerry <3 > \"'"), "Tom &amp; Jerry &lt;3 &gt; &quot;&apos;");
    assert_eq!(xml_escape("plain"), "plain");
    assert_eq!(xml_escape(""), "");
}

#[test]
fn rss_feed_escapes_description_link_and_language() {
    let mut config = site();
    config.language = Some("en&<".to_string());
    config.blog_base_url = "https://x.org/?a=1&b=2".to_string();
    let mut e = entry("p", "05 Jan 2024 10:00:00 +0000");
    e.description = "Tom & Jerry <3 <item></item> <language>en_US</language>".to_string();
    let rss = format_rss_at(&config, &vec![e], "NOW");
    assert!(rss.contains(
        "<description>Tom &amp; Jerry &lt;3 &lt;item&gt;&lt;/item&gt; &lt;language&gt;en_US&lt;/language&gt;</description>"
    ));
    assert!(rss.contains("<link>https://x.org/?a=1&amp;b=2/p</link>"));
    assert!(rss.contains("<language>en&amp;&lt;</language>"));
    assert_eq!(rss.matches("<item>").count(), 1);
    assert_eq!(rss.matches("<language>").count(), 1);
}

#[test]
fn long_dates_have_ordinal_suffixes() {
    let t = |s: &str| parse_publish_date(s).unwrap();
    assert_eq!(long_date(t("05 Jan 2024 10:00:00 +0000")), "Friday the 5th of January 2024");
    assert_eq!(long_date(t("01 Feb 2024 10:00:00 +0000")), "Thursday the 1st of February 2024");
    assert_eq!(long_date(t("22 Feb 2024 10:00:00 +0000")), "Thursday the 22nd of February 2024");
    assert_eq!(long_date(t("23 Feb 2024 10:00:00 +0000")), "Friday the 23rd of February 2024");
    assert_eq!(long_date(t("11 Mar 2024 10:00:00 +0000")), "Monday the 11th of March 2024");
    assert_eq!(long_date(t("12 Mar 2024 10:00:00 +0000")), "Tuesday the 12th of March 2024");
    assert_eq!(long_date(t("13 Mar 2024 10:00:00 +0000")), "Wednesday the 13th of March 2024");
    assert_eq!(long_date(t("31 Mar 2024 10:00:00 +0000")), "Sunday the 31st of March 2024");
}

#[test]
fn post_folder_needs_content() {
    let names = vec!["cat.png".to_string(), "content.md".to_string()];
    assert_eq!(check_post_folder(&names), Ok(()));
    let names = vec!["cat.png".to_string()];
    assert_eq!(check_post_folder(&names), Err(InputError::MissingContent));
    assert_eq!(check_post_folder(&Vec::new()), Err(InputError::MissingContent));
}

#[test]
fn caption_rendering_is_exact() {
    let c = process_markdown(&Fragments::shim(), &site(), "```image_description\ncaption text\n```\n");
    assert_eq!(c.html, "<div class=\"ImageDescription\"><p>caption text\n</p></div>");
}

#[test]
fn same_text_converts_the_same() {
    let md = "# Head\n\n<!--title: T-->\n\n```image_description\nx\n```\n\n| a |\n|---|\n| 1 |\n";
    let a = process_markdown(&Fragments::shim(), &site(), md);
    let b = process_markdown(&Fragments::shim(), &site(), md);
    assert_eq!(a.html, b.html);
    assert_eq!(a.document, b.document);
}
