use vstd::prelude::*;

use crate::date::{in_rfc2822_range, parse_publish_date, parsed_instant, DateError, DATE_FORMAT};
use crate::metadata::{Field, Metadata, MetadataView};
use crate::text::{chars_of, same_text, slice_string};

verus! {

/// One post of the blog, as the feed and the index list it.
#[derive(Clone, Debug)]
pub struct BlogEntry {
    /// The post's folder name: its URL path segment and output folder.
    pub url_name: String,
    pub title: String,
    pub description: String,
    /// The publish date, in seconds since the Unix epoch (UTC).
    pub date: i64,
}

impl BlogEntry {
    /// The date lies in the years that RFC 2822 can write.
    pub open spec fn wf(&self) -> bool {
        in_rfc2822_range(self.date as int)
    }
}

/// A breach of the input layout.
#[derive(Clone, Copy, Debug, PartialEq, Eq, Structural)]
pub enum InputError {
    /// A top-level entry is named `index` (up to its extension); that name is
    /// kept for the generated list page.
    ReservedIndex,
    /// A regular file stands at the top level, where only post folders may.
    StrayFile,
    /// A Markdown file in a post folder is not named `content.md`.
    MisnamedMarkdown,
    /// A post folder has no `content.md`.
    MissingContent,
}

/// Why a converted post was refused.
#[derive(Clone, Copy, Debug)]
pub enum PostError {
    /// A required metadata field is empty.
    MissingAttribute(Field),
    /// The date field is no valid publish date.
    BadDate(DateError),
}

/// Where a file name splits into stem and extension: the last `.`, unless
/// the name has none but at its start, or is `..`.
pub open spec fn dot_split(n: Seq<char>) -> Option<int> {
    if n == seq!['.', '.'] {
        None
    } else if exists|k: int| 0 < k < n.len() && n[k] == '.' {
        Some(
            choose|k: int|
                0 < k < n.len() && n[k] == '.' && forall|j: int| k < j < n.len() ==> n[j] != '.',
        )
    } else {
        None
    }
}

/// The stem of a file name, as `Path::file_stem` gives it.
pub open spec fn stem_of(n: Seq<char>) -> Seq<char> {
    match dot_split(n) {
        Some(k) => n.take(k),
        None => n,
    }
}

/// The extension of a file name, as `Path::extension` gives it.
pub open spec fn extension_of(n: Seq<char>) -> Option<Seq<char>> {
    match dot_split(n) {
        Some(k) => Some(n.skip(k + 1)),
        None => None,
    }
}

fn dot_position(v: &Vec<char>, name: &str) -> (r: Option<usize>)
    requires
        v@ == name@,
    ensures
        r matches Some(k) ==> k < v.len(),
        dot_split(v@) == match r {
            Some(k) => Some(k as int),
            None => None::<int>,
        },
{
    let dots = same_text(name, "..");
    proof {
        reveal_strlit("..");
        assert(".."@ =~= seq!['.', '.']);
    }
    if dots {
        return None;
    }
    let mut k: usize = v.len();
    while k > 1 && v[k - 1] != '.'
        invariant
            k <= v.len(),
            forall|j: int| k <= j < v.len() ==> v@[j] != '.',
        decreases k,
    {
        k = k - 1;
    }
    if k <= 1 {
        assert(!exists|j: int| 0 < j < v.len() && v@[j] == '.');
        None
    } else {
        let d = k - 1;
        assert(dot_split(v@) == Some(d as int)) by {
            let c = choose|c: int|
                0 < c < v.len() && v@[c] == '.' && forall|j: int| c < j < v.len() ==> v@[j] != '.';
            assert(0 < d < v.len() && v@[d as int] == '.');
            assert(c == d);
        }
        Some(d)
    }
}

/// `Path::file_stem` of a file name.
pub fn file_stem(name: &str) -> (r: String)
    ensures
        r@ == stem_of(name@),
{
    let v = chars_of(name);
    match dot_position(&v, name) {
        Some(k) => slice_string(name, &v, 0, k),
        None => String::from_str(name),
    }
}

/// `Path::extension` of a file name.
pub fn file_extension(name: &str) -> (r: Option<String>)
    ensures
        match extension_of(name@) {
            Some(e) => r matches Some(x) && x@ == e,
            None => r is None,
        },
{
    let v = chars_of(name);
    match dot_position(&v, name) {
        Some(k) => {
            assert(v@.skip(k + 1) =~= v@.subrange(k + 1, v.len() as int));
            Some(slice_string(name, &v, k + 1, v.len()))
        },
        None => None,
    }
}

/// The rule for an entry at the top of the input folder, by its name: no
/// entry is named `index` (up to its extension), and only folders stand there.
pub open spec fn root_entry_check(name: Seq<char>, is_dir: bool) -> Result<(), InputError> {
    if stem_of(name) == "index"@ {
        Err(InputError::ReservedIndex)
    } else if !is_dir {
        Err(InputError::StrayFile)
    } else {
        Ok(())
    }
}

/// A regular file at the top of the input folder is always refused, so the
/// build stops.
pub proof fn lemma_root_file_refused(name: Seq<char>)
    ensures
        root_entry_check(name, false) is Err,
{
}

/// Checks an entry at the top of the input folder.
pub fn check_root_entry(name: &str, is_dir: bool) -> (r: Result<(), InputError>)
    ensures
        r == root_entry_check(name@, is_dir),
{
    let stem = file_stem(name);
    if same_text(stem.as_str(), "index") {
        Err(InputError::ReservedIndex)
    } else if !is_dir {
        Err(InputError::StrayFile)
    } else {
        Ok(())
    }
}

/// What a file in a post folder is.
#[derive(Clone, Copy, Debug, PartialEq, Eq, Structural)]
pub enum PostFile {
    /// The post's Markdown, converted to the post's `index.html`.
    Content,
    /// Any other file, copied as it is.
    Asset,
}

/// A file in a post folder: what it is and the name of its output file.
#[derive(Clone, Debug)]
pub struct Route {
    pub kind: PostFile,
    pub output_name: String,
}

pub open spec fn is_markdown_name(name: Seq<char>) -> bool {
    extension_of(name) == Some("md"@)
}

/// Routes a file of a post folder by its name. A Markdown file (extension
/// `md`) must be `content.md` and becomes `index.html`; any other file
/// keeps its name.
pub fn route_post_file(name: &str) -> (r: Result<Route, InputError>)
    ensures
        is_markdown_name(name@) && name@ != "content.md"@ <==> r == Err::<Route, InputError>(
            InputError::MisnamedMarkdown,
        ),
        r matches Ok(route) ==> (if is_markdown_name(name@) {
            route.kind == PostFile::Content && route.output_name@ == "index.html"@
        } else {
            route.kind == PostFile::Asset && route.output_name@ == name@
        }),
        r is Ok || r == Err::<Route, InputError>(InputError::MisnamedMarkdown),
{
    let is_markdown = match file_extension(name) {
        Some(e) => same_text(e.as_str(), "md"),
        None => false,
    };
    if is_markdown {
        if same_text(name, "content.md") {
            Ok(Route { kind: PostFile::Content, output_name: String::from_str("index.html") })
        } else {
            Err(InputError::MisnamedMarkdown)
        }
    } else {
        Ok(Route { kind: PostFile::Asset, output_name: String::from_str(name) })
    }
}

/// The metadata makes a valid post: title, description and date are set, and
/// the date parses to a time in the years 0 to 9999.
pub open spec fn post_valid(m: MetadataView) -> bool {
    &&& m.title.len() > 0
    &&& m.description.len() > 0
    &&& m.date.len() > 0
    &&& parsed_instant(m.date, DATE_FORMAT@) matches Some(t) && in_rfc2822_range(t)
}

/// Checks that a post folder, with files named `names`, holds its
/// `content.md`.
pub fn check_post_folder(names: &Vec<String>) -> (r: Result<(), InputError>)
    ensures
        r is Ok <==> exists|i: int| 0 <= i < names.len() && names@[i]@ == "content.md"@,
        r is Err ==> r == Err::<(), InputError>(InputError::MissingContent),
{
    let mut i: usize = 0;
    while i < names.len()
        invariant
            i <= names.len(),
            forall|j: int| 0 <= j < i ==> names@[j]@ != "content.md"@,
        decreases names.len() - i,
    {
        if same_text(names[i].as_str(), "content.md") {
            return Ok(());
        }
        i = i + 1;
    }
    Err(InputError::MissingContent)
}

/// Builds the entry of a converted post from its metadata: the title, the
/// description and the date must be set, and the date must parse.
pub fn validate_post(url_name: &str, metadata: &Metadata) -> (r: Result<BlogEntry, PostError>)
    ensures
        r is Ok <==> post_valid(metadata@),
        metadata.title@.len() == 0 ==> r matches Err(PostError::MissingAttribute(Field::Title)),
        metadata.title@.len() > 0 && metadata.description@.len() == 0 ==> r matches Err(
            PostError::MissingAttribute(Field::Description),
        ),
        metadata.title@.len() > 0 && metadata.description@.len() > 0 && metadata.date@.len() == 0
            ==> r matches Err(PostError::MissingAttribute(Field::Date)),
        metadata.title@.len() > 0 && metadata.description@.len() > 0 && metadata.date@.len() > 0
            ==> match parsed_instant(metadata.date@, DATE_FORMAT@) {
            None => r matches Err(PostError::BadDate(DateError::Malformed(_))),
            Some(t) => if in_rfc2822_range(t) {
                r matches Ok(e) && e.url_name@ == url_name@ && e.title@ == metadata.title@
                    && e.description@ == metadata.description@ && e.date == t && e.wf()
            } else {
                r matches Err(PostError::BadDate(DateError::OutOfRange))
            },
        },
{
    if metadata.title.as_str().unicode_len() == 0 {
        return Err(PostError::MissingAttribute(Field::Title));
    }
    if metadata.description.as_str().unicode_len() == 0 {
        return Err(PostError::MissingAttribute(Field::Description));
    }
    if metadata.date.as_str().unicode_len() == 0 {
        return Err(PostError::MissingAttribute(Field::Date));
    }
    match parse_publish_date(metadata.date.as_str()) {
        Err(e) => Err(PostError::BadDate(e)),
        Ok(date) => Ok(
            BlogEntry {
                url_name: String::from_str(url_name),
                title: metadata.title.clone(),
                description: metadata.description.clone(),
                date,
            },
        ),
    }
}

} // verus!
