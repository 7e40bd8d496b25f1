use vstd::prelude::*;

use crate::text::{chars_of, has_at, slice_string, trim, trim_bounds, trimmed};

verus! {

/// A metadata field that a post sets through an HTML comment.
#[derive(Clone, Copy, Debug, PartialEq, Eq, Structural)]
pub enum Field {
    Title,
    Description,
    Author,
    Date,
}

/// What the post-processing pass needs to know of one Markdown event.
#[derive(Clone, Debug)]
pub enum MdBlock {
    /// Start of a fenced code block, with its language tag.
    FenceStart(String),
    /// End of a fenced code block, with its language tag.
    FenceEnd(String),
    /// Raw HTML, block or inline.
    Html(String),
    /// Any other event.
    Other,
}

/// The value of an [`MdBlock`].
pub enum BlockView {
    FenceStart(Seq<char>),
    FenceEnd(Seq<char>),
    Html(Seq<char>),
    Other,
}

impl View for MdBlock {
    type V = BlockView;

    open spec fn view(&self) -> BlockView {
        match self {
            MdBlock::FenceStart(l) => BlockView::FenceStart(l@),
            MdBlock::FenceEnd(l) => BlockView::FenceEnd(l@),
            MdBlock::Html(h) => BlockView::Html(h@),
            MdBlock::Other => BlockView::Other,
        }
    }
}

pub open spec fn views(bs: Seq<MdBlock>) -> Seq<BlockView> {
    bs.map_values(|b: MdBlock| b@)
}

/// The four metadata strings of a post; each is empty until a comment sets it.
#[derive(Clone, Debug)]
pub struct Metadata {
    pub title: String,
    pub description: String,
    pub author: String,
    pub date: String,
}

pub struct MetadataView {
    pub title: Seq<char>,
    pub description: Seq<char>,
    pub author: Seq<char>,
    pub date: Seq<char>,
}

impl View for Metadata {
    type V = MetadataView;

    open spec fn view(&self) -> MetadataView {
        MetadataView {
            title: self.title@,
            description: self.description@,
            author: self.author@,
            date: self.date@,
        }
    }
}

pub open spec fn empty_metadata() -> MetadataView {
    MetadataView {
        title: Seq::empty(),
        description: Seq::empty(),
        author: Seq::empty(),
        date: Seq::empty(),
    }
}

pub open spec fn field_value(m: MetadataView, f: Field) -> Seq<char> {
    match f {
        Field::Title => m.title,
        Field::Description => m.description,
        Field::Author => m.author,
        Field::Date => m.date,
    }
}

/// `m` with field `f` set to `v`.
pub open spec fn with_field(m: MetadataView, f: Field, v: Seq<char>) -> MetadataView {
    match f {
        Field::Title => MetadataView { title: v, ..m },
        Field::Description => MetadataView { description: v, ..m },
        Field::Author => MetadataView { author: v, ..m },
        Field::Date => MetadataView { date: v, ..m },
    }
}

/// Whether `t` has the shape of one HTML comment, `<!--...-->`.
pub open spec fn is_comment(t: Seq<char>) -> bool {
    &&& t.len() >= 7
    &&& t.take(4) == "<!--"@
    &&& t.skip(t.len() - 3) == "-->"@
}

/// The text between `<!--` and `-->`.
pub open spec fn comment_body(t: Seq<char>) -> Seq<char> {
    t.subrange(4, t.len() - 3)
}

/// The position of the first `:` in `s`, if any.
pub open spec fn first_colon(s: Seq<char>) -> Option<int> {
    if exists|k: int| 0 <= k < s.len() && s[k] == ':' {
        Some(
            choose|k: int|
                0 <= k < s.len() && s[k] == ':' && forall|j: int| 0 <= j < k ==> s[j] != ':',
        )
    } else {
        None
    }
}

/// The field that a label names; labels are case-sensitive.
pub open spec fn field_named(label: Seq<char>) -> Option<Field> {
    if label == "title"@ {
        Some(Field::Title)
    } else if label == "description"@ {
        Some(Field::Description)
    } else if label == "author"@ {
        Some(Field::Author)
    } else if label == "date"@ {
        Some(Field::Date)
    } else {
        None
    }
}

/// The field and value that a raw HTML text `h` sets: `h`, trimmed, is one
/// comment `<!--label: value-->` whose label names a field; the value is
/// trimmed.
#[verifier::opaque]
pub open spec fn comment_entry(h: Seq<char>) -> Option<(Field, Seq<char>)> {
    let t = trimmed(h);
    if !is_comment(t) {
        None
    } else {
        let c = comment_body(t);
        match first_colon(c) {
            None => None,
            Some(k) => match field_named(c.take(k)) {
                None => None,
                Some(f) => Some((f, trimmed(c.skip(k + 1)))),
            },
        }
    }
}

/// The metadata after one more event.
pub open spec fn step_metadata(m: MetadataView, b: BlockView) -> MetadataView {
    match b {
        BlockView::Html(h) => match comment_entry(h) {
            Some((f, v)) => with_field(m, f, v),
            None => m,
        },
        _ => m,
    }
}

/// The metadata that a sequence of events sets, from empty fields.
pub open spec fn metadata_of(bs: Seq<BlockView>) -> MetadataView
    decreases bs.len(),
{
    if bs.len() == 0 {
        empty_metadata()
    } else {
        step_metadata(metadata_of(bs.drop_last()), bs.last())
    }
}

/// Whether event `i` is a comment that sets field `f`.
pub open spec fn sets_field(bs: Seq<BlockView>, i: int, f: Field) -> bool {
    &&& bs[i] is Html
    &&& comment_entry(bs[i]->Html_0) is Some
    &&& comment_entry(bs[i]->Html_0)->Some_0.0 == f
}

/// The value that event `i` sets.
pub open spec fn value_set(bs: Seq<BlockView>, i: int) -> Seq<char> {
    comment_entry(bs[i]->Html_0)->Some_0.1
}

proof fn lemma_step_field(bs: Seq<BlockView>, f: Field)
    requires
        bs.len() > 0,
    ensures
        field_value(metadata_of(bs), f) == if sets_field(bs, bs.len() - 1, f) {
            value_set(bs, bs.len() - 1)
        } else {
            field_value(metadata_of(bs.drop_last()), f)
        },
{
    let m = metadata_of(bs.drop_last());
    assert(metadata_of(bs) == step_metadata(m, bs.last()));
    match bs.last() {
        BlockView::Html(h) => {
            match comment_entry(h) {
                Some((g, v)) => {
                    assert(field_value(with_field(m, g, v), f) == if g == f {
                        v
                    } else {
                        field_value(m, f)
                    });
                },
                None => {},
            }
        },
        _ => {},
    }
}

/// Each field holds the trimmed value of the last comment that sets it, and
/// is empty where no comment sets it.
pub proof fn lemma_last_comment_wins(bs: Seq<BlockView>, f: Field)
    ensures
        (forall|i: int| 0 <= i < bs.len() ==> !sets_field(bs, i, f)) ==> field_value(
            metadata_of(bs),
            f,
        ) == Seq::<char>::empty(),
        forall|i: int|
            0 <= i < bs.len() && sets_field(bs, i, f) && (forall|j: int|
                i < j < bs.len() ==> !sets_field(bs, j, f)) ==> field_value(metadata_of(bs), f)
                == value_set(bs, i),
    decreases bs.len(),
{
    if bs.len() > 0 {
        let n = bs.len() - 1;
        let p = bs.drop_last();
        lemma_last_comment_wins(p, f);
        lemma_step_field(bs, f);
        assert forall|i: int| 0 <= i < p.len() implies sets_field(p, i, f) == sets_field(bs, i, f)
            && value_set(p, i) == value_set(bs, i) by {
            assert(p[i] == bs[i]);
        }
        if forall|i: int| 0 <= i < bs.len() ==> !sets_field(bs, i, f) {
            assert(!sets_field(bs, n, f));
            assert forall|i: int| 0 <= i < p.len() implies !sets_field(p, i, f) by {
                assert(!sets_field(bs, i, f));
            }
        }
        assert forall|i: int|
            0 <= i < bs.len() && sets_field(bs, i, f) && (forall|j: int|
                i < j < bs.len() ==> !sets_field(bs, j, f)) implies field_value(
            metadata_of(bs),
            f,
        ) == value_set(bs, i) by {
            if i < n {
                assert(!sets_field(bs, n, f));
                assert forall|j: int| i < j < p.len() implies !sets_field(p, j, f) by {
                    assert(!sets_field(bs, j, f));
                }
            }
        }
    }
}

/// Whether `v[lo..hi]` is the word `w`.
fn is_word(v: &Vec<char>, lo: usize, hi: usize, w: &str) -> (r: bool)
    requires
        lo <= hi <= v.len(),
    ensures
        r == (v@.subrange(lo as int, hi as int) == w@),
{
    let wc = chars_of(w);
    if hi - lo != wc.len() {
        assert(v@.subrange(lo as int, hi as int).len() != w@.len());
        return false;
    }
    has_at(v, lo, &wc)
}

/// The field that the label `v[lo..hi]` names.
fn field_at(v: &Vec<char>, lo: usize, hi: usize) -> (r: Option<Field>)
    requires
        lo <= hi <= v.len(),
    ensures
        r == field_named(v@.subrange(lo as int, hi as int)),
{
    if is_word(v, lo, hi, "title") {
        Some(Field::Title)
    } else if is_word(v, lo, hi, "description") {
        Some(Field::Description)
    } else if is_word(v, lo, hi, "author") {
        Some(Field::Author)
    } else if is_word(v, lo, hi, "date") {
        Some(Field::Date)
    } else {
        None
    }
}

/// The field and value that the raw HTML text `h` sets, if it is a metadata
/// comment.
pub fn parse_comment(h: &str) -> (r: Option<(Field, String)>)
    ensures
        match comment_entry(h@) {
            None => r is None,
            Some((f, v)) => r is Some && r->Some_0.0 == f && r->Some_0.1@ == v,
        },
{
    reveal(comment_entry);
    let t = trim(h);
    let v = chars_of(t.as_str());
    let ghost tv = trimmed(h@);
    assert(v@ == tv);
    proof {
        reveal_strlit("<!--");
        reveal_strlit("-->");
    }
    let n = v.len();
    if n < 7 || !has_at(&v, 0, &chars_of("<!--")) || !has_at(&v, n - 3, &chars_of("-->")) {
        assert(!is_comment(tv)) by {
            if n >= 7 {
                assert(tv.take(4) =~= tv.subrange(0, 4));
                assert(tv.skip(n - 3) =~= tv.subrange(n - 3, n as int));
            }
        }
        return None;
    }
    assert(tv.take(4) =~= tv.subrange(0, 4));
    assert(tv.skip(n - 3) =~= tv.subrange(n - 3, n as int));
    let lo: usize = 4;
    let hi: usize = n - 3;
    let ghost c = comment_body(tv);
    let mut k: usize = lo;
    while k < hi && v[k] != ':'
        invariant
            lo <= k <= hi < n == v.len(),
            c == v@.subrange(lo as int, hi as int),
            forall|j: int| 0 <= j < k - lo ==> c[j] != ':',
        decreases hi - k,
    {
        k = k + 1;
    }
    if k == hi {
        assert(first_colon(c) is None);
        return None;
    }
    let ghost kk = (k - lo) as int;
    assert(c[kk] == ':');
    assert(first_colon(c) == Some(kk)) by {
        let w = choose|w: int|
            0 <= w < c.len() && c[w] == ':' && forall|j: int| 0 <= j < w ==> c[j] != ':';
        assert(w == kk);
    }
    assert(c.take(kk) =~= v@.subrange(lo as int, k as int));
    match field_at(&v, lo, k) {
        None => None,
        Some(f) => {
            let (a, b) = trim_bounds(&v, k + 1, hi);
            assert(c.skip(kk + 1) =~= v@.subrange(k + 1, hi as int));
            Some((f, slice_string(t.as_str(), &v, a, b)))
        },
    }
}

} // verus!
