//! What the crawler asks of the URLs that a spider deals in.

use vstd::prelude::*;
use crate::json::{Json, JsonTree};

verus! {

/// What the crawler sees of a URL: the text that identifies it and the value that is saved
/// for it.
pub struct UrlModel {
    pub text: Seq<char>,
    pub json: JsonTree,
}

/// A URL that a spider scrapes.
pub trait Url: Sized + Clone {
    /// What the crawler sees of this URL.
    spec fn model(&self) -> UrlModel;

    /// What the crawler sees of the URL that is read from a saved value, or `None` where the
    /// value is no URL.
    spec fn restored(json: JsonTree) -> Option<UrlModel>;

    /// What the crawler sees of the URL of a record in which none was saved, or `None` where
    /// such a record has no URL.
    spec fn restored_missing() -> Option<UrlModel>;

    /// The text that identifies the URL.
    fn url(&self) -> (url: &String)
        ensures
            url@ == self.model().text,
    ;

    /// The value that is saved for the URL.
    fn to_json(&self) -> (json: Json)
        ensures
            json@ == self.model().json,
    ;

    /// The URL that a saved value gives.
    fn from_json(json: &Json) -> (url: Option<Self>)
        ensures
            match url {
                Some(url) => Self::restored(json@) == Some(url.model()),
                None => Self::restored(json@) is None,
            },
    ;

    /// The URL of a record in which none was saved.
    fn from_missing() -> (url: Option<Self>)
        ensures
            match url {
                Some(url) => Self::restored_missing() == Some(url.model()),
                None => Self::restored_missing() is None,
            },
    ;
}

impl Url for String {
    open spec fn model(&self) -> UrlModel {
        UrlModel { text: self@, json: JsonTree::Text(self@) }
    }

    open spec fn restored(json: JsonTree) -> Option<UrlModel> {
        match json {
            JsonTree::Text(text) => Some(UrlModel { text, json }),
            _ => None,
        }
    }

    open spec fn restored_missing() -> Option<UrlModel> {
        None
    }

    fn url(&self) -> (url: &String) {
        self
    }

    fn to_json(&self) -> (json: Json) {
        Json::Text(self.clone())
    }

    fn from_json(json: &Json) -> (url: Option<Self>) {
        match json {
            Json::Text(text) => Some(text.clone()),
            _ => None,
        }
    }

    fn from_missing() -> (url: Option<Self>) {
        None
    }
}

/// Whether a copy of a URL is the same URL to the crawler.
pub open spec fn copies_faithfully<U: Url>() -> bool {
    forall|url: U, copy: U| #[trigger] cloned(url, copy) ==> copy.model() == url.model()
}

} // verus!
