//! The extracted document: the structured result of content extraction
//! from a fetched web page.

use vstd::prelude::*;

verus! {

/// The mathematical value of an [`Article`]: each field is an optional
/// sequence of characters.
pub ghost struct ArticleV {
    pub title: Option<Seq<char>>,
    pub byline: Option<Seq<char>>,
    pub date: Option<Seq<char>>,
    pub content: Option<Seq<char>>,
    pub plain_content: Option<Seq<char>>,
}

/// The extracted document. Every field is optional because the extraction
/// backend may omit any of them depending on source-page quality; the
/// value stays usable with all fields absent.
#[derive(Debug)]
pub struct Article {
    /// The article title.
    pub title: Option<String>,
    /// Author attribution.
    pub byline: Option<String>,
    /// Publication date, as the backend reported it.
    pub date: Option<String>,
    /// HTML fragment of the main body, structure preserved.
    pub content: Option<String>,
    /// Text-only rendering of the same body.
    pub plain_content: Option<String>,
}

impl View for Article {
    type V = ArticleV;

    open spec fn view(&self) -> ArticleV {
        ArticleV {
            title: self.title.deep_view(),
            byline: self.byline.deep_view(),
            date: self.date.deep_view(),
            content: self.content.deep_view(),
            plain_content: self.plain_content.deep_view(),
        }
    }
}

impl Article {
    /// An article with every field absent.
    pub fn empty() -> (r: Article)
        ensures
            r@ == (ArticleV {
                title: None,
                byline: None,
                date: None,
                content: None,
                plain_content: None,
            }),
    {
        Article { title: None, byline: None, date: None, content: None, plain_content: None }
    }
}

} // verus!
