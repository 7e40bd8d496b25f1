use vstd::prelude::*;

use crate::text::{trim, trimmed};

verus! {

/// Build-wide settings. The base URL is required; the rest are optional.
#[derive(Clone, Debug)]
pub struct SiteConfig {
    pub language: Option<String>,
    pub favicon: Option<String>,
    pub opengraph_locale: Option<String>,
    pub opengraph_sitename: Option<String>,
    pub blog_base_url: String,
}

/// The shared snippets put into every generated page.
#[derive(Clone, Debug)]
pub struct Fragments {
    pub css: String,
    pub header: String,
    pub footer: String,
    pub blog_entry: String,
    pub blog_list: String,
}

impl Fragments {
    /// All five fragments empty: pages without decoration.
    pub fn shim() -> (r: Fragments)
        ensures
            r.css@.len() == 0,
            r.header@.len() == 0,
            r.footer@.len() == 0,
            r.blog_entry@.len() == 0,
            r.blog_list@.len() == 0,
    {
        Fragments {
            css: String::new(),
            header: String::new(),
            footer: String::new(),
            blog_entry: String::new(),
            blog_list: String::new(),
        }
    }

    /// The fragments to use: the loaded texts, each trimmed, or all empty
    /// where none were loaded.
    pub fn retrive_or_shim(loaded: Option<Fragments>) -> (r: Fragments)
        ensures
            loaded is None ==> r.css@.len() == 0 && r.header@.len() == 0 && r.footer@.len() == 0
                && r.blog_entry@.len() == 0 && r.blog_list@.len() == 0,
            loaded matches Some(f) ==> r.css@ == trimmed(f.css@) && r.header@ == trimmed(
                f.header@,
            ) && r.footer@ == trimmed(f.footer@) && r.blog_entry@ == trimmed(f.blog_entry@)
                && r.blog_list@ == trimmed(f.blog_list@),
    {
        match loaded {
            None => Fragments::shim(),
            Some(f) => Fragments {
                css: trim(f.css.as_str()),
                header: trim(f.header.as_str()),
                footer: trim(f.footer.as_str()),
                blog_entry: trim(f.blog_entry.as_str()),
                blog_list: trim(f.blog_list.as_str()),
            },
        }
    }
}

} // verus!
