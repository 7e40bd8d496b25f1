use vstd::prelude::*;

use pulldown_cmark::{html, CodeBlockKind, CowStr, Event, Options, Parser, Tag};

use crate::config::{Fragments, SiteConfig};
use crate::document::{assemble_document, document_of};
use crate::metadata::{
    metadata_of, parse_comment, step_metadata, views, BlockView, Field, MdBlock, Metadata,
};
use crate::text::same_text;

verus! {

#[verifier::external_type_specification]
#[verifier::external_body]
pub struct ExEvent<'a>(Event<'a>);

/// What the pass reads of the events that pulldown-cmark's parser, with
/// tables enabled, makes of a Markdown text.
pub uninterp spec fn markdown_blocks(input: Seq<char>) -> Seq<BlockView>;

/// pulldown-cmark's HTML for the events of `input` (tables enabled), each
/// event passed through [`swap_event`] with the rewrite at its position.
pub uninterp spec fn rendered_markdown(input: Seq<char>, rewrites: Seq<Rewrite>) -> Seq<char>;

/// Relies on `pulldown_cmark::Parser::new_ext` (tables enabled): what the
/// pass reads of each event of `input`. The events depend on the text alone.
#[verifier::external_body]
fn parse_blocks(input: &str) -> (r: Vec<MdBlock>)
    ensures
        views(r@) == markdown_blocks(input@),
{
    Parser::new_ext(input, Options::ENABLE_TABLES).map(|e| match e {
        Event::Start(Tag::CodeBlock(CodeBlockKind::Fenced(l))) => MdBlock::FenceStart(l.to_string()),
        Event::End(Tag::CodeBlock(CodeBlockKind::Fenced(l))) => MdBlock::FenceEnd(l.to_string()),
        Event::Html(h) => MdBlock::Html(h.to_string()),
        _ => MdBlock::Other,
    }).collect()
}

/// Relies on `pulldown_cmark::Event::Html`: a raw HTML event, which the
/// renderer writes out as it is.
#[verifier::external_body]
fn html_event<'a>(html: &'a str) -> Event<'a> {
    Event::Html(CowStr::Borrowed(html))
}

/// Relies on `pulldown_cmark::Parser::new_ext` (tables enabled) and
/// `pulldown_cmark::html::push_html`: the HTML of the events of `input`, each
/// passed through `swap_event` with its rewrite. The result depends on the
/// text and the rewrites alone.
#[verifier::external_body]
fn render_markdown(input: &str, rewrites: &Vec<Rewrite>) -> (r: String)
    requires
        rewrites.len() == markdown_blocks(input@).len(),
    ensures
        r@ == rendered_markdown(input@, rewrites@),
{
    let parser = Parser::new_ext(input, Options::ENABLE_TABLES);
    let events = parser.zip(rewrites.iter()).map(|(e, r)| swap_event(e, *r));
    let mut out = String::new();
    html::push_html(&mut out, events);
    out
}

/// The opening of a caption wrapper.
pub const CAPTION_OPEN: &'static str = "<div class=\"ImageDescription\"><p>";

/// The closing of a caption wrapper.
pub const CAPTION_CLOSE: &'static str = "</p></div>";

/// An event as the renderer gets it: kept, or replaced by the opening or the
/// closing of a caption wrapper.
pub fn swap_event<'a>(e: Event<'a>, r: Rewrite) -> Event<'a> {
    match r {
        Rewrite::Keep => e,
        Rewrite::OpenCaption => html_event(CAPTION_OPEN),
        Rewrite::CloseCaption => html_event(CAPTION_CLOSE),
    }
}

/// What becomes of one event.
#[derive(Clone, Copy, Debug, PartialEq, Eq, Structural)]
pub enum Rewrite {
    /// Passed on unchanged.
    Keep,
    /// Replaced by the opening of a caption wrapper.
    OpenCaption,
    /// Replaced by the closing of a caption wrapper.
    CloseCaption,
}

/// A fenced block with this language tag is a caption, not code.
pub open spec fn is_caption_tag(l: Seq<char>) -> bool {
    l == "image_description"@
}

pub open spec fn rewrite_of(b: BlockView) -> Rewrite {
    match b {
        BlockView::FenceStart(l) => if is_caption_tag(l) {
            Rewrite::OpenCaption
        } else {
            Rewrite::Keep
        },
        BlockView::FenceEnd(l) => if is_caption_tag(l) {
            Rewrite::CloseCaption
        } else {
            Rewrite::Keep
        },
        _ => Rewrite::Keep,
    }
}

/// What becomes of each event of a sequence.
pub open spec fn rewrite_plan(bs: Seq<BlockView>) -> Seq<Rewrite> {
    bs.map_values(|b: BlockView| rewrite_of(b))
}

pub fn rewrite_for(b: &MdBlock) -> (r: Rewrite)
    ensures
        r == rewrite_of(b@),
{
    match b {
        MdBlock::FenceStart(l) => if same_text(l.as_str(), "image_description") {
            Rewrite::OpenCaption
        } else {
            Rewrite::Keep
        },
        MdBlock::FenceEnd(l) => if same_text(l.as_str(), "image_description") {
            Rewrite::CloseCaption
        } else {
            Rewrite::Keep
        },
        _ => Rewrite::Keep,
    }
}

/// Applies a metadata comment, if `h` is one.
pub fn record_comment(m: &mut Metadata, h: &str)
    ensures
        final(m)@ == step_metadata(old(m)@, BlockView::Html(h@)),
{
    match parse_comment(h) {
        None => {},
        Some((Field::Title, v)) => m.title = v,
        Some((Field::Description, v)) => m.description = v,
        Some((Field::Author, v)) => m.author = v,
        Some((Field::Date, v)) => m.date = v,
    }
}

/// One pass over the events: what becomes of each, and the metadata that
/// the comments among them set (the last comment for a field wins).
pub fn scan_blocks(blocks: &Vec<MdBlock>) -> (r: (Vec<Rewrite>, Metadata))
    ensures
        r.0.len() == blocks.len(),
        forall|i: int| 0 <= i < blocks.len() ==> r.0@[i] == rewrite_of(blocks@[i]@),
        r.1@ == metadata_of(views(blocks@)),
{
    let mut rewrites: Vec<Rewrite> = Vec::new();
    let mut m = Metadata {
        title: String::new(),
        description: String::new(),
        author: String::new(),
        date: String::new(),
    };
    let mut i: usize = 0;
    while i < blocks.len()
        invariant
            i <= blocks.len(),
            rewrites.len() == i,
            forall|j: int| 0 <= j < i ==> rewrites@[j] == rewrite_of(blocks@[j]@),
            m@ == metadata_of(views(blocks@.take(i as int))),
        decreases blocks.len() - i,
    {
        let ghost before = m@;
        rewrites.push(rewrite_for(&blocks[i]));
        match &blocks[i] {
            MdBlock::Html(h) => record_comment(&mut m, h.as_str()),
            _ => {},
        }
        assert(views(blocks@.take(i + 1)).drop_last() =~= views(blocks@.take(i as int)));
        assert(views(blocks@.take(i + 1)).last() == blocks@[i as int]@);
        i = i + 1;
    }
    assert(blocks@.take(i as int) =~= blocks@);
    (rewrites, m)
}

/// A post converted: its rendered body, the full page, and its metadata.
#[derive(Clone, Debug)]
pub struct Converted {
    pub html: String,
    pub document: String,
    pub metadata: Metadata,
}

/// Converts a Markdown post into a full page. Fenced blocks tagged
/// `image_description` become caption wrappers; the metadata comments set
/// the fields.
pub fn process_markdown(fragments: &Fragments, site: &SiteConfig, input: &str) -> (r: Converted)
    ensures
        r.metadata@ == metadata_of(markdown_blocks(input@)),
        r.html@ == rendered_markdown(input@, rewrite_plan(markdown_blocks(input@))),
        r.document@ == document_of(*site, *fragments, r.metadata@, r.html@),
{
    let blocks = parse_blocks(input);
    let (rewrites, metadata) = scan_blocks(&blocks);
    assert(rewrites@ =~= rewrite_plan(markdown_blocks(input@)));
    let html = render_markdown(input, &rewrites);
    let document = assemble_document(
        site,
        fragments,
        metadata.title.as_str(),
        metadata.description.as_str(),
        metadata.author.as_str(),
        html.as_str(),
    );
    Converted { html, document, metadata }
}

} // verus!
