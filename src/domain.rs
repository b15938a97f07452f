use vstd::prelude::*;

verus! {

/// Identifier of a bookmark, chosen by the caller at creation time.
pub type BookmarkId = String;

/// A bookmark value. Never edited in place: a new version is a new event.
#[derive(Debug, PartialEq, Clone)]
pub struct Bookmark {
    pub id: BookmarkId,
    pub url: String,
    pub title: String,
}

/// The mathematical value of a [`Bookmark`].
pub struct BookmarkModel {
    pub id: Seq<char>,
    pub url: Seq<char>,
    pub title: Seq<char>,
}

impl View for Bookmark {
    type V = BookmarkModel;

    open spec fn view(&self) -> BookmarkModel {
        BookmarkModel { id: self.id@, url: self.url@, title: self.title@ }
    }
}

impl Bookmark {
    /// A field-by-field copy.
    pub fn duplicate(&self) -> (r: Bookmark)
        ensures
            r@ == self@,
    {
        Bookmark { id: self.id.clone(), url: self.url.clone(), title: self.title.clone() }
    }
}

/// A lookup key: the id of the bookmark asked for.
#[derive(Debug, PartialEq, Clone)]
pub struct BookmarkQuery {
    pub id: BookmarkId,
}

/// The model of an optional bookmark.
pub open spec fn model_of(b: Option<Bookmark>) -> Option<BookmarkModel> {
    match b {
        Some(b) => Some(b@),
        None => None,
    }
}

} // verus!
