use vstd::prelude::*;

use crate::config::{Fragments, SiteConfig};
use crate::document::document_of;
use crate::feed::{
    all_wf, blog_list_of, dated, format_blog_list, format_rss, rss_document, sort_entries,
    sorted_desc,
};
use crate::markdown::{markdown_blocks, process_markdown, rendered_markdown, rewrite_plan};
use crate::metadata::{
    lemma_last_comment_wins, metadata_of, sets_field, value_set, Field, MetadataView,
};
use crate::date::{parsed_instant, DATE_FORMAT};
use crate::site::{post_valid, validate_post, BlogEntry, PostError};

verus! {

/// The metadata that a post's Markdown sets.
pub open spec fn post_metadata(markdown: Seq<char>) -> MetadataView {
    metadata_of(markdown_blocks(markdown))
}

/// A post with no date comment is refused, and so is one whose last date
/// comment does not parse; either makes `build_site` fail.
pub proof fn lemma_undated_post_refused(markdown: Seq<char>)
    ensures
        (forall|i: int|
            0 <= i < markdown_blocks(markdown).len() ==> !sets_field(
                markdown_blocks(markdown),
                i,
                Field::Date,
            )) ==> !post_valid(post_metadata(markdown)),
        forall|i: int|
            0 <= i < markdown_blocks(markdown).len() && sets_field(
                markdown_blocks(markdown),
                i,
                Field::Date,
            ) && (forall|j: int|
                i < j < markdown_blocks(markdown).len() ==> !sets_field(
                    markdown_blocks(markdown),
                    j,
                    Field::Date,
                )) && parsed_instant(value_set(markdown_blocks(markdown), i), DATE_FORMAT@) is None
                ==> !post_valid(post_metadata(markdown)),
{
    lemma_last_comment_wins(markdown_blocks(markdown), Field::Date);
}

/// `e` is the entry of the post named `url_name` with Markdown `markdown`.
#[verifier::opaque]
pub open spec fn entry_of_post(e: BlogEntry, url_name: Seq<char>, markdown: Seq<char>) -> bool {
    &&& e.url_name@ == url_name
    &&& e.title@ == post_metadata(markdown).title
    &&& e.description@ == post_metadata(markdown).description
    &&& parsed_instant(post_metadata(markdown).date, DATE_FORMAT@) == Some(e.date as int)
}

/// `page` is the page of a post with Markdown `markdown`: the full document
/// around the rendered Markdown, with the post's metadata.
#[verifier::opaque]
pub open spec fn page_of_post(
    site: SiteConfig,
    fragments: Fragments,
    page: Seq<char>,
    markdown: Seq<char>,
) -> bool {
    page == document_of(
        site,
        fragments,
        post_metadata(markdown),
        rendered_markdown(markdown, rewrite_plan(markdown_blocks(markdown))),
    )
}

/// Converts one post: its entry for the feed and the list, and its page.
pub fn convert_post(
    site: &SiteConfig,
    fragments: &Fragments,
    url_name: &str,
    markdown: &str,
) -> (r: Result<(BlogEntry, String), PostError>)
    ensures
        r is Ok <==> post_valid(post_metadata(markdown@)),
        r matches Ok((e, _)) ==> entry_of_post(e, url_name@, markdown@) && e.wf(),
        r matches Ok((_, page)) ==> page_of_post(*site, *fragments, page@, markdown@),
{
    let converted = process_markdown(fragments, site, markdown);
    proof {
        reveal(page_of_post);
        reveal(entry_of_post);
    }
    match validate_post(url_name, &converted.metadata) {
        Ok(entry) => Ok((entry, converted.document)),
        Err(e) => Err(e),
    }
}

/// The text of one post folder's `content.md`.
#[derive(Clone, Debug)]
pub struct PostSource {
    pub url_name: String,
    pub markdown: String,
}

/// The page of one post.
#[derive(Clone, Debug)]
pub struct PostPage {
    pub url_name: String,
    pub document: String,
}

/// Everything a build writes: the post pages, the feed and the list page.
#[derive(Clone, Debug)]
pub struct SiteOutput {
    pub pages: Vec<PostPage>,
    /// The posts, newest first.
    pub entries: Vec<BlogEntry>,
    pub feed: String,
    pub index: String,
}

/// `es` holds the entries of the posts: each entry is that of a post, and
/// each post has its entry.
pub open spec fn entries_of_posts(es: Seq<BlogEntry>, posts: Seq<PostSource>) -> bool {
    &&& forall|k: int| 0 <= k < es.len() ==> entry_of_some_post(#[trigger] es[k], posts)
    &&& forall|i: int| 0 <= i < posts.len() ==> has_entry(es, #[trigger] posts[i])
}

/// `u` holds the entries of the posts in their order.
pub open spec fn entries_in_order(u: Seq<BlogEntry>, posts: Seq<PostSource>) -> bool {
    &&& u.len() == posts.len()
    &&& forall|j: int|
        0 <= j < u.len() ==> entry_of_post(#[trigger] u[j], posts[j].url_name@, posts[j].markdown@)
}

/// `es` is a stable reordering of the posts' entries: for each date, the
/// entries of that date stand in the order of their posts.
pub open spec fn sorted_from_posts(es: Seq<BlogEntry>, posts: Seq<PostSource>) -> bool {
    exists|u: Seq<BlogEntry>|
        entries_in_order(u, posts) && forall|d: i64| #[trigger] dated(es, d) == dated(u, d)
}

/// `e` is the entry of one of the posts.
pub open spec fn entry_of_some_post(e: BlogEntry, posts: Seq<PostSource>) -> bool {
    exists|i: int| 0 <= i < posts.len() && entry_of_post(e, posts[i].url_name@, posts[i].markdown@)
}

/// `es` holds the entry of the post `p`.
pub open spec fn has_entry(es: Seq<BlogEntry>, p: PostSource) -> bool {
    exists|k: int| 0 <= k < es.len() && entry_of_post(es[k], p.url_name@, p.markdown@)
}

proof fn lemma_reordered_entries(found: Seq<BlogEntry>, es: Seq<BlogEntry>, posts: Seq<PostSource>)
    requires
        found.len() == posts.len(),
        forall|j: int|
            0 <= j < found.len() ==> entry_of_post(
                #[trigger] found[j],
                posts[j].url_name@,
                posts[j].markdown@,
            ),
        forall|k: int| 0 <= k < es.len() ==> #[trigger] found.contains(es[k]),
        forall|j: int| 0 <= j < found.len() ==> #[trigger] es.contains(found[j]),
    ensures
        entries_of_posts(es, posts),
{
    assert forall|k: int| 0 <= k < es.len() implies entry_of_some_post(#[trigger] es[k], posts) by {
        assert(found.contains(es[k]));
        let i = choose|i: int| 0 <= i < found.len() && found[i] == es[k];
        assert(entry_of_post(found[i], posts[i].url_name@, posts[i].markdown@));
        assert(0 <= i < posts.len() && entry_of_post(es[k], posts[i].url_name@, posts[i].markdown@));
    }
    assert forall|i: int| 0 <= i < posts.len() implies has_entry(es, #[trigger] posts[i]) by {
        assert(es.contains(found[i]));
        let k = choose|k: int| 0 <= k < es.len() && es[k] == found[i];
        assert(entry_of_post(found[i], posts[i].url_name@, posts[i].markdown@));
        assert(0 <= k < es.len() && entry_of_post(es[k], posts[i].url_name@, posts[i].markdown@));
    }
}

/// Converts every post, in order, stopping at the first that fails.
fn convert_all(site: &SiteConfig, fragments: &Fragments, posts: &Vec<PostSource>) -> (r: Result<
    (Vec<PostPage>, Vec<BlogEntry>),
    (usize, PostError),
>)
    ensures
        r is Ok <==> forall|i: int|
            0 <= i < posts.len() ==> post_valid(post_metadata(#[trigger] posts@[i].markdown@)),
        r matches Err((i, _)) ==> i < posts.len() && !post_valid(
            post_metadata(posts@[i as int].markdown@),
        ) && forall|j: int|
            0 <= j < i ==> post_valid(post_metadata(#[trigger] posts@[j].markdown@)),
        r matches Ok((pages, entries)) ==> {
            &&& pages.len() == posts.len()
            &&& entries.len() == posts.len()
            &&& all_wf(entries@)
            &&& forall|j: int|
                0 <= j < posts.len() ==> (#[trigger] pages@[j]).url_name@ == posts@[j].url_name@
            &&& forall|j: int|
                0 <= j < posts.len() ==> page_of_post(
                    *site,
                    *fragments,
                    (#[trigger] pages@[j]).document@,
                    posts@[j].markdown@,
                )
            &&& forall|j: int|
                0 <= j < posts.len() ==> entry_of_post(
                    #[trigger] entries@[j],
                    posts@[j].url_name@,
                    posts@[j].markdown@,
                )
        },
{
    let mut pages: Vec<PostPage> = Vec::new();
    let mut entries: Vec<BlogEntry> = Vec::new();
    let mut i: usize = 0;
    while i < posts.len()
        invariant
            i <= posts.len(),
            pages.len() == i,
            entries.len() == i,
            all_wf(entries@),
            forall|j: int| 0 <= j < i ==> post_valid(post_metadata(#[trigger] posts@[j].markdown@)),
            forall|j: int|
                0 <= j < i ==> (#[trigger] pages@[j]).url_name@ == posts@[j].url_name@,
            forall|j: int|
                0 <= j < i ==> page_of_post(
                    *site,
                    *fragments,
                    (#[trigger] pages@[j]).document@,
                    posts@[j].markdown@,
                ),
            forall|j: int|
                0 <= j < i ==> entry_of_post(
                    #[trigger] entries@[j],
                    posts@[j].url_name@,
                    posts@[j].markdown@,
                ),
        decreases posts.len() - i,
    {
        let post = &posts[i];
        match convert_post(site, fragments, post.url_name.as_str(), post.markdown.as_str()) {
            Err(e) => {
                return Err((i, e));
            },
            Ok((entry, document)) => {
                pages.push(PostPage { url_name: post.url_name.clone(), document });
                entries.push(entry);
            },
        }
        i = i + 1;
    }
    Ok((pages, entries))
}

/// Builds the whole site, or nothing: the first post that fails stops the
/// build with its error, before any output exists.
pub fn build_site(site: &SiteConfig, fragments: &Fragments, posts: &Vec<PostSource>) -> (r: Result<
    SiteOutput,
    (usize, PostError),
>)
    ensures
        r is Ok <==> forall|i: int|
            0 <= i < posts.len() ==> post_valid(post_metadata(#[trigger] posts@[i].markdown@)),
        r matches Err((i, _)) ==> i < posts.len() && !post_valid(
            post_metadata(posts@[i as int].markdown@),
        ) && forall|j: int|
            0 <= j < i ==> post_valid(post_metadata(#[trigger] posts@[j].markdown@)),
        r matches Ok(out) ==> {
            &&& out.pages.len() == posts.len()
            &&& forall|i: int|
                0 <= i < posts.len() ==> (#[trigger] out.pages@[i]).url_name@
                    == posts@[i].url_name@
            &&& forall|i: int|
                0 <= i < posts.len() ==> page_of_post(
                    *site,
                    *fragments,
                    (#[trigger] out.pages@[i]).document@,
                    posts@[i].markdown@,
                )
            &&& out.entries.len() == posts.len()
            &&& entries_of_posts(out.entries@, posts@)
            &&& sorted_desc(out.entries@)
            &&& sorted_from_posts(out.entries@, posts@)
            &&& exists|d: Seq<char>| out.feed@ == rss_document(*site, out.entries@, d)
            &&& out.index@ == blog_list_of(*site, *fragments, out.entries@)
        },
{
    let (pages, mut entries) = match convert_all(site, fragments, posts) {
        Ok(converted) => converted,
        Err(e) => {
            return Err(e);
        },
    };
    let ghost found = entries@;
    sort_entries(&mut entries);
    proof {
        lemma_reordered_entries(found, entries@, posts@);
        assert(entries_in_order(found, posts@));
    }
    let feed = format_rss(site, &entries);
    let index = format_blog_list(site, &entries, fragments);
    Ok(SiteOutput { pages, entries, feed, index })
}

} // verus!
