use vstd::prelude::*;

use crate::config::{Fragments, SiteConfig};
use crate::metadata::MetadataView;

verus! {

/// `pre`, `v`, `post` in a row where `c` holds, else nothing.
pub open spec fn piece(c: bool, pre: Seq<char>, v: Seq<char>, post: Seq<char>) -> Seq<char> {
    if c {
        pre + v + post
    } else {
        Seq::empty()
    }
}

/// The piece for an optional setting.
pub open spec fn opt_piece(o: Option<Seq<char>>, pre: Seq<char>, post: Seq<char>) -> Seq<char> {
    match o {
        Some(v) => pre + v + post,
        None => Seq::empty(),
    }
}

pub open spec fn opt_view(o: Option<String>) -> Option<Seq<char>> {
    match o {
        Some(s) => Some(s@),
        None => None,
    }
}

/// The head of a page, from the doctype up to the blank line after `</head>`.
pub open spec fn head_of(site: SiteConfig, css: Seq<char>, m: MetadataView) -> Seq<char> {
    "<!DOCTYPE html>\n"@
        + opt_piece(opt_view(site.language), "<html lang=\""@, "\">\n"@)
        + "\n<head>\n<meta charset=\"UTF-8\">\n"@
        + piece(m.title.len() > 0, "<title>"@, m.title, "</title>\n"@)
        + opt_piece(
            opt_view(site.favicon),
            "<link rel=\"shortcut icon\" type=\"image/png\" href=\""@,
            "\" />\n"@,
        )
        + piece(
            m.description.len() > 0,
            "<meta name=\"description\" content=\""@,
            m.description,
            "\" />\n"@,
        )
        + piece(
            m.description.len() > 0,
            "<meta property=\"og:description\" content=\""@,
            m.description,
            "\" />\n"@,
        )
        + piece(m.author.len() > 0, "<meta name=\"author\" content=\""@, m.author, "\" />\n"@)
        + opt_piece(
            opt_view(site.opengraph_locale),
            "<meta property=\"og:locale\" content=\""@,
            "\" />\n"@,
        )
        + opt_piece(
            opt_view(site.opengraph_sitename),
            "<meta property=\"og:site_name\" content=\""@,
            "\" />\n"@,
        )
        + piece(css.len() > 0, "<style>\n"@, css, "</style>\n"@)
        + "</head>\n\n"@
}

/// A complete page: the head, the header fragment and a blank line, the
/// rendered body, then a blank line and the footer fragment.
pub open spec fn document_of(
    site: SiteConfig,
    fragments: Fragments,
    m: MetadataView,
    body: Seq<char>,
) -> Seq<char> {
    head_of(site, fragments.css@, m)
        + piece(fragments.header@.len() > 0, Seq::empty(), fragments.header@, "\n\n"@)
        + body
        + piece(fragments.footer@.len() > 0, "\n\n"@, fragments.footer@, Seq::empty())
}

/// Appends `pre`, `v` and `post` where `c` holds.
fn push_piece(out: &mut String, c: bool, pre: &str, v: &str, post: &str)
    ensures
        final(out)@ == old(out)@ + piece(c, pre@, v@, post@),
{
    if c {
        out.append(pre);
        out.append(v);
        out.append(post);
        assert(final(out)@ =~= old(out)@ + (pre@ + v@ + post@));
    } else {
        assert(final(out)@ =~= old(out)@ + Seq::<char>::empty());
    }
}

/// Appends `pre`, the setting and `post` where the setting is there.
fn push_opt(out: &mut String, o: &Option<String>, pre: &str, post: &str)
    ensures
        final(out)@ == old(out)@ + opt_piece(opt_view(*o), pre@, post@),
{
    match o {
        Some(v) => push_piece(out, true, pre, v.as_str(), post),
        None => push_piece(out, false, pre, "", post),
    }
}

/// Assembles a complete page around the rendered body `html`.
pub fn assemble_document(
    site: &SiteConfig,
    fragments: &Fragments,
    title: &str,
    description: &str,
    author: &str,
    html: &str,
) -> (r: String)
    ensures
        r@ == document_of(
            *site,
            *fragments,
            MetadataView {
                title: title@,
                description: description@,
                author: author@,
                date: Seq::empty(),
            },
            html@,
        ),
{
    let ghost m = MetadataView {
        title: title@,
        description: description@,
        author: author@,
        date: Seq::empty(),
    };
    let mut out = String::new();
    out.append("<!DOCTYPE html>\n");
    push_opt(&mut out, &site.language, "<html lang=\"", "\">\n");
    out.append("\n<head>\n<meta charset=\"UTF-8\">\n");
    push_piece(&mut out, title.unicode_len() > 0, "<title>", title, "</title>\n");
    push_opt(
        &mut out,
        &site.favicon,
        "<link rel=\"shortcut icon\" type=\"image/png\" href=\"",
        "\" />\n",
    );
    let has_description = description.unicode_len() > 0;
    push_piece(
        &mut out,
        has_description,
        "<meta name=\"description\" content=\"",
        description,
        "\" />\n",
    );
    push_piece(
        &mut out,
        has_description,
        "<meta property=\"og:description\" content=\"",
        description,
        "\" />\n",
    );
    push_piece(
        &mut out,
        author.unicode_len() > 0,
        "<meta name=\"author\" content=\"",
        author,
        "\" />\n",
    );
    push_opt(&mut out, &site.opengraph_locale, "<meta property=\"og:locale\" content=\"", "\" />\n");
    push_opt(
        &mut out,
        &site.opengraph_sitename,
        "<meta property=\"og:site_name\" content=\"",
        "\" />\n",
    );
    push_piece(
        &mut out,
        fragments.css.as_str().unicode_len() > 0,
        "<style>\n",
        fragments.css.as_str(),
        "</style>\n",
    );
    out.append("</head>\n\n");
    assert(out@ == head_of(*site, fragments.css@, m));
    push_piece(&mut out, fragments.header.as_str().unicode_len() > 0, "", fragments.header.as_str(), "\n\n");
    out.append(html);
    push_piece(&mut out, fragments.footer.as_str().unicode_len() > 0, "\n\n", fragments.footer.as_str(), "");
    proof {
        reveal_strlit("");
    }
    out
}

} // verus!
