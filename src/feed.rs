use vstd::prelude::*;

use crate::config::{Fragments, SiteConfig};
use crate::date::{long_date, long_date_of, now_rfc2822, rfc2822, rfc2822_of};
use crate::site::BlogEntry;
use crate::text::{xml_escape, xml_escaped};
use crate::template::{
    bindings_view, format_template, lemma_literal_kept, lemma_placeholder_replaced, marker,
    lemma_no_open_brace_no_marker, no_close_brace, no_marker_start, no_open_brace,
    substitute,
};

verus! {

/// The generator's version, written into the feed.
pub const VERSION: &'static str = "0.0.1";

/// Every entry has a date that RFC 2822 can write.
pub open spec fn all_wf(s: Seq<BlogEntry>) -> bool {
    forall|i: int| 0 <= i < s.len() ==> (#[trigger] s[i]).wf()
}

/// Newest first.
pub open spec fn sorted_desc(s: Seq<BlogEntry>) -> bool {
    forall|i: int, j: int| 0 <= i < j < s.len() ==> s[i].date >= s[j].date
}

/// The entries of `s` with date `d`, in their order in `s`.
pub open spec fn dated(s: Seq<BlogEntry>, d: i64) -> Seq<BlogEntry> {
    s.filter(has_date(d))
}

pub open spec fn has_date(d: i64) -> spec_fn(BlogEntry) -> bool {
    |e: BlogEntry| e.date == d
}

proof fn lemma_dated_single(e: BlogEntry, d: i64)
    ensures
        dated(seq![e], d) == if e.date == d {
            seq![e]
        } else {
            Seq::<BlogEntry>::empty()
        },
{
    reveal_with_fuel(Seq::filter, 2);
    assert(seq![e].drop_last() =~= Seq::<BlogEntry>::empty());
}

proof fn lemma_dated_none(s: Seq<BlogEntry>, d: i64)
    requires
        forall|i: int| 0 <= i < s.len() ==> s[i].date != d,
    ensures
        dated(s, d) == Seq::<BlogEntry>::empty(),
{
    let f = dated(s, d);
    if f.len() > 0 {
        s.lemma_filter_contains_rev(has_date(d), f[0]);
        s.filter_lemma(has_date(d));
    }
    assert(f =~= Seq::<BlogEntry>::empty());
}

/// Sequences with the same entries of each date hold the same entries.
proof fn lemma_same_dated_contains(a: Seq<BlogEntry>, b: Seq<BlogEntry>)
    requires
        forall|d: i64| #[trigger] dated(a, d) == dated(b, d),
    ensures
        forall|j: int| 0 <= j < a.len() ==> #[trigger] b.contains(a[j]),
{
    assert forall|j: int| 0 <= j < a.len() implies #[trigger] b.contains(a[j]) by {
        let d = a[j].date;
        a.filter_lemma(has_date(d));
        assert(dated(a, d) == dated(b, d));
        assert(dated(b, d).contains(a[j]));
        b.lemma_filter_contains_rev(has_date(d), a[j]);
    }
}

/// Sorts the entries newest first. The sort is stable: entries of one date
/// keep their order.
pub fn sort_entries(entries: &mut Vec<BlogEntry>)
    ensures
        sorted_desc(final(entries)@),
        forall|d: i64| #[trigger] dated(final(entries)@, d) == dated(old(entries)@, d),
        final(entries).len() == old(entries).len(),
        forall|k: int|
            0 <= k < final(entries).len() ==> #[trigger] old(entries)@.contains(
                final(entries)@[k],
            ),
        forall|j: int|
            0 <= j < old(entries).len() ==> #[trigger] final(entries)@.contains(
                old(entries)@[j],
            ),
        all_wf(old(entries)@) ==> all_wf(final(entries)@),
{
    let mut src: Vec<BlogEntry> = Vec::new();
    std::mem::swap(entries, &mut src);
    let ghost orig = src@;
    let ghost mut n: int = 0;
    while src.len() > 0
        invariant
            0 <= n <= orig.len(),
            src@ == orig.skip(n),
            sorted_desc(entries@),
            entries.len() == n,
            forall|d: i64| #[trigger] dated(entries@, d) == dated(orig.take(n), d),
            all_wf(orig) ==> all_wf(entries@),
            forall|k: int|
                0 <= k < entries.len() ==> exists|j: int|
                    0 <= j < n && #[trigger] entries@[k] == orig[j],
        decreases src.len(),
    {
        let e = src.remove(0);
        assert(e == orig[n]);
        assert(src@ =~= orig.skip(n + 1));
        let mut p: usize = 0;
        while p < entries.len() && entries[p].date >= e.date
            invariant
                p <= entries.len(),
                forall|k: int| 0 <= k < p ==> entries@[k].date >= e.date,
            decreases entries.len() - p,
        {
            p = p + 1;
        }
        let ghost r = entries@;
        let ghost a = r.take(p as int);
        let ghost b = r.skip(p as int);
        assert(forall|k: int| 0 <= k < b.len() ==> b[k].date < e.date) by {
            assert forall|k: int| 0 <= k < b.len() implies b[k].date < e.date by {
                assert(b[k] == r[p + k]);
                if k > 0 {
                    assert(r[p as int].date >= r[p + k].date);
                }
            }
        }
        entries.insert(p, e);
        assert(entries@ =~= a + seq![e] + b);
        assert(r =~= a + b);
        assert(orig.take(n + 1) =~= orig.take(n) + seq![e]);
        assert forall|d: i64| #[trigger] dated(entries@, d) == dated(orig.take(n + 1), d) by {
            Seq::filter_distributes_over_add(a + seq![e], b, has_date(d));
            Seq::filter_distributes_over_add(a, seq![e], has_date(d));
            Seq::filter_distributes_over_add(a, b, has_date(d));
            Seq::filter_distributes_over_add(orig.take(n), seq![e], has_date(d));
            lemma_dated_single(e, d);
            assert(dated(r, d) == dated(orig.take(n), d));
            assert(dated(r, d) == dated(a, d) + dated(b, d));
            assert(dated(entries@, d) == dated(a, d) + dated(seq![e], d) + dated(b, d));
            assert(dated(orig.take(n + 1), d) == dated(orig.take(n), d) + dated(seq![e], d));
            if e.date == d {
                lemma_dated_none(b, d);
                assert(dated(entries@, d) =~= dated(orig.take(n + 1), d));
            } else {
                assert(dated(entries@, d) =~= dated(orig.take(n + 1), d));
            }
        }
        assert forall|i: int, j: int| 0 <= i < j < entries.len() implies entries@[i].date
            >= entries@[j].date by {
            if j < p {
                assert(entries@[i] == r[i] && entries@[j] == r[j]);
            } else if j == p {
                assert(entries@[i] == r[i]);
            } else if i == p {
                assert(entries@[j] == b[j - p - 1]);
            } else if i < p {
                assert(entries@[i] == r[i] && entries@[j] == r[j - 1]);
            } else {
                assert(entries@[i] == r[i - 1] && entries@[j] == r[j - 1]);
            }
        }
        assert forall|k: int| 0 <= k < entries.len() implies exists|j: int|
            0 <= j < n + 1 && #[trigger] entries@[k] == orig[j] by {
            if k < p {
                assert(entries@[k] == r[k]);
            } else if k == p {
                assert(entries@[k] == orig[n]);
            } else {
                assert(entries@[k] == r[k - 1]);
            }
        }
        proof {
            n = n + 1;
        }
    }
    assert(orig.take(n) =~= orig);
    proof {
        assert forall|k: int| 0 <= k < entries.len() implies #[trigger] orig.contains(
            entries@[k],
        ) by {
            let j = choose|j: int| 0 <= j < n && entries@[k] == orig[j];
        }
        lemma_same_dated_contains(orig, entries@);
    }
}


/// The link to a post: the base URL, a `/`, and the post's folder name.
pub open spec fn link_of(base: Seq<char>, e: BlogEntry) -> Seq<char> {
    base + "/"@ + e.url_name@
}

/// One `<item>` of the feed; the description and the link are escaped.
pub open spec fn rss_item(base: Seq<char>, e: BlogEntry) -> Seq<char> {
    "<item>\n\t<description>"@ + xml_escaped(e.description@) + "</description>\n\t<pubDate>"@
        + rfc2822_of(e.date as int) + "</pubDate>\n\t<link>"@ + xml_escaped(link_of(base, e))
        + "</link>\n</item>\n"@
}

/// The items of the feed, one per entry, in order.
pub open spec fn rss_items(base: Seq<char>, s: Seq<BlogEntry>) -> Seq<char>
    decreases s.len(),
{
    if s.len() == 0 {
        Seq::empty()
    } else {
        rss_items(base, s.drop_last()) + rss_item(base, s.last())
    }
}

/// The feed's language: the configured one, escaped, else `en_US`.
pub open spec fn feed_language(site: SiteConfig) -> Seq<char> {
    match site.language {
        Some(l) => xml_escaped(l@),
        None => "en_US"@,
    }
}

/// The RSS 2.0 feed of the entries, built at `build_date`.
pub open spec fn rss_document(site: SiteConfig, s: Seq<BlogEntry>, build_date: Seq<char>) -> Seq<
    char,
> {
    "<?xml version=\"1.0\"?>\n<!--RSS generated "@ + build_date + " by floc_blog "@ + VERSION@
        + "-->\n<rss version=\"2.0\">\n<language>"@ + feed_language(site)
        + "</language>\n<generator>floc_blog "@ + VERSION@ + "</generator>\n<channel>\n\n"@
        + rss_items(site.blog_base_url@, s) + "\n</channel>\n</rss>\n"@
}

fn link_text(base: &str, e: &BlogEntry) -> (r: String)
    ensures
        r@ == link_of(base@, *e),
{
    let mut r = String::from_str(base);
    r.append("/");
    r.append(e.url_name.as_str());
    r
}

fn rss_item_text(base: &str, e: &BlogEntry) -> (r: String)
    requires
        e.wf(),
    ensures
        r@ == rss_item(base@, *e),
{
    let mut r = String::from_str("<item>\n\t<description>");
    let description = xml_escape(e.description.as_str());
    r.append(description.as_str());
    r.append("</description>\n\t<pubDate>");
    let date = rfc2822(e.date);
    r.append(date.as_str());
    r.append("</pubDate>\n\t<link>");
    let link = link_text(base, e);
    let link = xml_escape(link.as_str());
    r.append(link.as_str());
    r.append("</link>\n</item>\n");
    r
}

/// The RSS 2.0 feed of the entries, with `build_date` as its build time.
pub fn format_rss_at(site: &SiteConfig, entries: &Vec<BlogEntry>, build_date: &str) -> (r: String)
    requires
        all_wf(entries@),
    ensures
        r@ == rss_document(*site, entries@, build_date@),
{
    let base = site.blog_base_url.as_str();
    let mut items = String::new();
    let mut i: usize = 0;
    while i < entries.len()
        invariant
            i <= entries.len(),
            all_wf(entries@),
            base@ == site.blog_base_url@,
            items@ == rss_items(base@, entries@.take(i as int)),
        decreases entries.len() - i,
    {
        let item = rss_item_text(base, &entries[i]);
        items.append(item.as_str());
        assert(entries@.take(i + 1).drop_last() =~= entries@.take(i as int));
        i = i + 1;
    }
    assert(entries@.take(i as int) =~= entries@);
    let mut r = String::from_str("<?xml version=\"1.0\"?>\n<!--RSS generated ");
    r.append(build_date);
    r.append(" by floc_blog ");
    r.append(VERSION);
    r.append("-->\n<rss version=\"2.0\">\n<language>");
    match &site.language {
        Some(l) => {
            let l = xml_escape(l.as_str());
            r.append(l.as_str());
        },
        None => r.append("en_US"),
    }
    r.append("</language>\n<generator>floc_blog ");
    r.append(VERSION);
    r.append("</generator>\n<channel>\n\n");
    r.append(items.as_str());
    r.append("\n</channel>\n</rss>\n");
    r
}

/// The RSS 2.0 feed of the entries, built now.
pub fn format_rss(site: &SiteConfig, entries: &Vec<BlogEntry>) -> (r: String)
    requires
        all_wf(entries@),
    ensures
        exists|build_date: Seq<char>| r@ == rss_document(*site, entries@, build_date),
{
    let now = now_rfc2822();
    format_rss_at(site, entries, now.as_str())
}

/// The bindings of the entry template for one post.
pub open spec fn entry_bindings(base: Seq<char>, e: BlogEntry) -> Seq<(Seq<char>, Seq<char>)> {
    entry_values(
        e.title@,
        e.description@,
        long_date_of(e.date as int),
        link_of(base, e),
    )
}

/// The entry template's bindings: `TITLE`, `DESCRIPTION`, `DATE`, `LINK`.
pub open spec fn entry_values(
    title: Seq<char>,
    description: Seq<char>,
    date: Seq<char>,
    link: Seq<char>,
) -> Seq<(Seq<char>, Seq<char>)> {
    seq![("TITLE"@, title), ("DESCRIPTION"@, description), ("DATE"@, date), ("LINK"@, link)]
}

/// An entry template with each of its four placeholders once, between
/// the texts `s0` to `s4`.
pub open spec fn entry_template(
    s0: Seq<char>,
    s1: Seq<char>,
    s2: Seq<char>,
    s3: Seq<char>,
    s4: Seq<char>,
) -> Seq<char> {
    s0 + marker("TITLE"@) + s1 + marker("DESCRIPTION"@) + s2 + marker("DATE"@) + s3 + marker(
        "LINK"@,
    ) + s4
}

proof fn lemma_no_open_brace_add(a: Seq<char>, b: Seq<char>)
    ensures
        no_open_brace(a) && no_open_brace(b) ==> no_open_brace(a + b),
{
    if no_open_brace(a) && no_open_brace(b) {
        assert forall|i: int| 0 <= i < (a + b).len() implies (a + b)[i] != '{' by {
            if i < a.len() {
                assert((a + b)[i] == a[i]);
            } else {
                assert((a + b)[i] == b[i - a.len()]);
            }
        }
    }
}

/// Filling in the entry template puts each value where its placeholder
/// stood and keeps the text around them, where no placeholder starts in
/// that text. Values are not scanned again.
#[verifier::rlimit(40)]
pub proof fn lemma_entry_template_filled(
    s0: Seq<char>,
    s1: Seq<char>,
    s2: Seq<char>,
    s3: Seq<char>,
    s4: Seq<char>,
    title: Seq<char>,
    description: Seq<char>,
    date: Seq<char>,
    link: Seq<char>,
)
    requires
        no_marker_start(s0),
        no_marker_start(s1),
        no_marker_start(s2),
        no_marker_start(s3),
        no_marker_start(s4),
    ensures
        substitute(entry_template(s0, s1, s2, s3, s4), entry_values(title, description, date, link))
            == s0 + title + s1 + description + s2 + date + s3 + link + s4,
{
    let b = entry_values(title, description, date, link);
    reveal_strlit("TITLE");
    reveal_strlit("DESCRIPTION");
    reveal_strlit("DATE");
    reveal_strlit("LINK");
    assert("TITLE"@.len() == 5 && "DESCRIPTION"@.len() == 11);
    assert("DATE"@.len() == 4 && "LINK"@.len() == 4);
    assert(b[0].0 != b[1].0 && b[0].0 != b[2].0 && b[0].0 != b[3].0);
    assert(b[1].0 != b[2].0 && b[1].0 != b[3].0);
    assert(b[2].0[0] != b[3].0[0]);
    assert(forall|i: int| 0 <= i < b.len() ==> no_close_brace(#[trigger] b[i].0));
    let e = Seq::<char>::empty();
    lemma_literal_kept(s4, e, b);
    assert(s4 + e =~= s4);
    assert(substitute(e, b) =~= e);
    assert(s4 + e =~= s4);
    lemma_placeholder_replaced("LINK"@, s4, b, 3);
    let r3 = marker("LINK"@) + s4;
    lemma_literal_kept(s3, r3, b);
    let q3 = s3 + r3;
    lemma_placeholder_replaced("DATE"@, q3, b, 2);
    let r2 = marker("DATE"@) + q3;
    lemma_literal_kept(s2, r2, b);
    let q2 = s2 + r2;
    lemma_placeholder_replaced("DESCRIPTION"@, q2, b, 1);
    let r1 = marker("DESCRIPTION"@) + q2;
    lemma_literal_kept(s1, r1, b);
    let q1 = s1 + r1;
    lemma_placeholder_replaced("TITLE"@, q1, b, 0);
    let r0 = marker("TITLE"@) + q1;
    lemma_literal_kept(s0, r0, b);
    assert(entry_template(s0, s1, s2, s3, s4) =~= s0 + r0);
    let out = s0 + title + s1 + description + s2 + date + s3 + link + s4;
    assert(substitute(s0 + r0, b) =~= out);
}

/// The entry template filled in for each entry, in order.
pub open spec fn list_entries(template: Seq<char>, base: Seq<char>, s: Seq<BlogEntry>) -> Seq<char>
    decreases s.len(),
{
    if s.len() == 0 {
        Seq::empty()
    } else {
        list_entries(template, base, s.drop_last()) + substitute(
            template,
            entry_bindings(base, s.last()),
        )
    }
}

/// The list page: the list template with `ENTRIES` bound to the filled-in
/// entries.
pub open spec fn blog_list_of(site: SiteConfig, fragments: Fragments, s: Seq<BlogEntry>) -> Seq<
    char,
> {
    substitute(
        fragments.blog_list@,
        seq![("ENTRIES"@, list_entries(fragments.blog_entry@, site.blog_base_url@, s))],
    )
}

/// The list page of the entries, in their order.
pub fn format_blog_list(site: &SiteConfig, entries: &Vec<BlogEntry>, fragments: &Fragments) -> (r:
    String)
    requires
        all_wf(entries@),
    ensures
        r@ == blog_list_of(*site, *fragments, entries@),
{
    let base = site.blog_base_url.as_str();
    let mut formatted = String::new();
    let mut i: usize = 0;
    while i < entries.len()
        invariant
            i <= entries.len(),
            all_wf(entries@),
            base@ == site.blog_base_url@,
            formatted@ == list_entries(fragments.blog_entry@, base@, entries@.take(i as int)),
        decreases entries.len() - i,
    {
        let e = &entries[i];
        let mut values: Vec<(String, String)> = Vec::new();
        values.push((String::from_str("TITLE"), e.title.clone()));
        values.push((String::from_str("DESCRIPTION"), e.description.clone()));
        values.push((String::from_str("DATE"), long_date(e.date)));
        values.push((String::from_str("LINK"), link_text(base, e)));
        assert(bindings_view(values@) =~= entry_bindings(base@, *e));
        let one = format_template(fragments.blog_entry.as_str(), &values);
        formatted.append(one.as_str());
        assert(entries@.take(i + 1).drop_last() =~= entries@.take(i as int));
        i = i + 1;
    }
    assert(entries@.take(i as int) =~= entries@);
    let mut values: Vec<(String, String)> = Vec::new();
    values.push((String::from_str("ENTRIES"), formatted));
    assert(bindings_view(values@) =~= seq![
        ("ENTRIES"@, list_entries(fragments.blog_entry@, base@, entries@)),
    ]);
    format_template(fragments.blog_list.as_str(), &values)
}


/// Where neither the entry template's text nor the values hold `{`, the
/// filled-in template holds no `{`, so no placeholder is left.
pub proof fn lemma_entry_template_no_placeholder_left(
    s0: Seq<char>,
    s1: Seq<char>,
    s2: Seq<char>,
    s3: Seq<char>,
    s4: Seq<char>,
    title: Seq<char>,
    description: Seq<char>,
    date: Seq<char>,
    link: Seq<char>,
)
    requires
        no_open_brace(s0),
        no_open_brace(s1),
        no_open_brace(s2),
        no_open_brace(s3),
        no_open_brace(s4),
        no_open_brace(title),
        no_open_brace(description),
        no_open_brace(date),
        no_open_brace(link),
    ensures
        no_open_brace(
            substitute(
                entry_template(s0, s1, s2, s3, s4),
                entry_values(title, description, date, link),
            ),
        ),
{
    lemma_no_open_brace_no_marker(s0);
    lemma_no_open_brace_no_marker(s1);
    lemma_no_open_brace_no_marker(s2);
    lemma_no_open_brace_no_marker(s3);
    lemma_no_open_brace_no_marker(s4);
    lemma_entry_template_filled(s0, s1, s2, s3, s4, title, description, date, link);
    lemma_no_open_brace_add(s0, title);
    lemma_no_open_brace_add(s0 + title, s1);
    lemma_no_open_brace_add(s0 + title + s1, description);
    lemma_no_open_brace_add(s0 + title + s1 + description, s2);
    lemma_no_open_brace_add(s0 + title + s1 + description + s2, date);
    lemma_no_open_brace_add(s0 + title + s1 + description + s2 + date, s3);
    lemma_no_open_brace_add(s0 + title + s1 + description + s2 + date + s3, link);
    lemma_no_open_brace_add(s0 + title + s1 + description + s2 + date + s3 + link, s4);
}

} // verus!
