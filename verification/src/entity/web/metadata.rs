use vstd::prelude::*;
use crate::entity::crawler::clone_opt_strings;

verus! {

/// Metadata gathered from the `<head>` and images of a web page.
#[derive(Debug)]
pub struct WebMetadata {
    pub author: Option<String>,
    pub creator: Option<String>,
    pub description: Option<String>,
    pub favicon: Option<String>,
    pub image: Option<String>,
    pub language: Option<String>,
    pub locale: Option<String>,
    pub modified_time: Option<String>,
    pub published_time: Option<String>,
    pub site_name: Option<String>,
    pub tags: Option<Vec<String>>,
    pub title: Option<String>,
    pub url: Option<String>,
}

/// The contents of web metadata, with the list of tags as a sequence.
pub struct WebMetadataView {
    pub author: Option<Seq<char>>,
    pub creator: Option<Seq<char>>,
    pub description: Option<Seq<char>>,
    pub favicon: Option<Seq<char>>,
    pub image: Option<Seq<char>>,
    pub language: Option<Seq<char>>,
    pub locale: Option<Seq<char>>,
    pub modified_time: Option<Seq<char>>,
    pub published_time: Option<Seq<char>>,
    pub site_name: Option<Seq<char>>,
    pub tags: Option<Seq<Seq<char>>>,
    pub title: Option<Seq<char>>,
    pub url: Option<Seq<char>>,
}

/// The characters of an optional string.
pub open spec fn opt_chars(o: Option<String>) -> Option<Seq<char>> {
    match o {
        Some(s) => Some(s@),
        None => None,
    }
}

/// The characters of each of an optional list of strings.
pub open spec fn opt_chars_list(o: Option<Vec<String>>) -> Option<Seq<Seq<char>>> {
    match o {
        Some(v) => Some(v@.map_values(|s: String| s@)),
        None => None,
    }
}

impl View for WebMetadata {
    type V = WebMetadataView;

    open spec fn view(&self) -> WebMetadataView {
        WebMetadataView {
            author: opt_chars(self.author),
            creator: opt_chars(self.creator),
            description: opt_chars(self.description),
            favicon: opt_chars(self.favicon),
            image: opt_chars(self.image),
            language: opt_chars(self.language),
            locale: opt_chars(self.locale),
            modified_time: opt_chars(self.modified_time),
            published_time: opt_chars(self.published_time),
            site_name: opt_chars(self.site_name),
            tags: opt_chars_list(self.tags),
            title: opt_chars(self.title),
            url: opt_chars(self.url),
        }
    }
}

impl WebMetadata {
    /// Metadata with every field unset.
    pub fn new_empty() -> (r: Self)
        ensures
            r@ == empty_metadata(),
    {
        WebMetadata {
            author: None,
            creator: None,
            description: None,
            favicon: None,
            image: None,
            language: None,
            locale: None,
            modified_time: None,
            published_time: None,
            site_name: None,
            tags: None,
            title: None,
            url: None,
        }
    }
}

pub open spec fn empty_metadata() -> WebMetadataView {
    WebMetadataView {
        author: None,
        creator: None,
        description: None,
        favicon: None,
        image: None,
        language: None,
        locale: None,
        modified_time: None,
        published_time: None,
        site_name: None,
        tags: None,
        title: None,
        url: None,
    }
}

impl Clone for WebMetadata {
    fn clone(&self) -> (r: Self)
        ensures
            r@ == self@,
    {
        WebMetadata {
            author: self.author.clone(),
            creator: self.creator.clone(),
            description: self.description.clone(),
            favicon: self.favicon.clone(),
            image: self.image.clone(),
            language: self.language.clone(),
            locale: self.locale.clone(),
            modified_time: self.modified_time.clone(),
            published_time: self.published_time.clone(),
            site_name: self.site_name.clone(),
            tags: {
                let t = clone_opt_strings(&self.tags);
                proof {
                    if t is Some {
                        assert(t->0@.map_values(|s: String| s@) =~= self.tags->0@.map_values(|s: String| s@));
                    }
                }
                t
            },
            title: self.title.clone(),
            url: self.url.clone(),
        }
    }
}

} // verus!

verus! {

/// Metadata of a page, as a client sees it.
#[derive(Clone, Debug, Default)]
pub struct Metadata {
    pub author: Option<String>,
    pub creator: Option<String>,
    pub description: Option<String>,
    pub favicon: Option<String>,
    pub image: Option<String>,
    pub language: Option<String>,
    pub locale: Option<String>,
    pub modified_time: Option<String>,
    pub published_time: Option<String>,
    pub site_name: Option<String>,
    pub tags: Option<Vec<String>>,
    pub title: Option<String>,
    pub url: Option<String>,
}

/// The `robots.txt` of a domain.
#[derive(Clone, Debug)]
pub struct RobotsTxt {
    pub contents: String,
}

} // verus!
