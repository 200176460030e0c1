use vstd::prelude::*;
use vstd::std_specs::cmp::PartialEqSpecImpl;

verus! {

/// A tracked media item: its naming template and its two counters.
#[derive(Debug)]
pub struct Content {
    pub prefix: String,
    pub title: String,
    pub first_prefix: String,
    pub first: u32,
    pub second_prefix: String,
    pub second: u32,
    pub digits: usize,
    pub postfix: String,
}

/// The mathematical value of a [`Content`].
pub struct ContentView {
    pub prefix: Seq<char>,
    pub title: Seq<char>,
    pub first_prefix: Seq<char>,
    pub first: nat,
    pub second_prefix: Seq<char>,
    pub second: nat,
    pub digits: nat,
    pub postfix: Seq<char>,
}

impl View for Content {
    type V = ContentView;

    open spec fn view(&self) -> ContentView {
        ContentView {
            prefix: self.prefix@,
            title: self.title@,
            first_prefix: self.first_prefix@,
            first: self.first as nat,
            second_prefix: self.second_prefix@,
            second: self.second as nat,
            digits: self.digits as nat,
            postfix: self.postfix@,
        }
    }
}

impl Clone for Content {
    fn clone(&self) -> (copy: Self)
        ensures
            copy == *self,
    {
        Content {
            prefix: self.prefix.clone(),
            title: self.title.clone(),
            first_prefix: self.first_prefix.clone(),
            first: self.first,
            second_prefix: self.second_prefix.clone(),
            second: self.second,
            digits: self.digits,
            postfix: self.postfix.clone(),
        }
    }
}

impl PartialEq for Content {
    fn eq(&self, other: &Self) -> (same: bool) {
        self.prefix == other.prefix && self.title == other.title && self.first_prefix
            == other.first_prefix && self.first == other.first && self.second_prefix
            == other.second_prefix && self.second == other.second && self.digits == other.digits
            && self.postfix == other.postfix
    }
}

impl PartialEqSpecImpl for Content {
    open spec fn obeys_eq_spec() -> bool {
        true
    }

    open spec fn eq_spec(&self, other: &Self) -> bool {
        self@ == other@
    }
}

/// A located download: the item it belongs to and the absolute link found
/// for it.
#[derive(Debug)]
pub struct WebFile {
    pub content: Content,
    pub link: String,
}

/// The mathematical value of a [`WebFile`].
pub struct WebFileView {
    pub content: ContentView,
    pub link: Seq<char>,
}

impl View for WebFile {
    type V = WebFileView;

    open spec fn view(&self) -> WebFileView {
        WebFileView { content: self.content@, link: self.link@ }
    }
}

impl Clone for WebFile {
    fn clone(&self) -> (copy: Self)
        ensures
            copy == *self,
    {
        WebFile { content: self.content.clone(), link: self.link.clone() }
    }
}

impl PartialEq for WebFile {
    fn eq(&self, other: &Self) -> (same: bool) {
        self.content == other.content && self.link == other.link
    }
}

impl PartialEqSpecImpl for WebFile {
    open spec fn obeys_eq_spec() -> bool {
        true
    }

    open spec fn eq_spec(&self, other: &Self) -> bool {
        self@ == other@
    }
}

/// What the download client answered to a submitted [`WebFile`].
#[derive(Debug)]
pub struct WebResponse {
    pub content: WebFile,
    pub response: String,
    pub success: bool,
}

/// The mathematical value of a [`WebResponse`].
pub struct WebResponseView {
    pub content: WebFileView,
    pub response: Seq<char>,
    pub success: bool,
}

impl View for WebResponse {
    type V = WebResponseView;

    open spec fn view(&self) -> WebResponseView {
        WebResponseView {
            content: self.content@,
            response: self.response@,
            success: self.success,
        }
    }
}

impl Clone for WebResponse {
    fn clone(&self) -> (copy: Self)
        ensures
            copy == *self,
    {
        WebResponse {
            content: self.content.clone(),
            response: self.response.clone(),
            success: self.success,
        }
    }
}

impl PartialEq for WebResponse {
    fn eq(&self, other: &Self) -> (same: bool) {
        self.content == other.content && self.response == other.response && self.success
            == other.success
    }
}

impl PartialEqSpecImpl for WebResponse {
    open spec fn obeys_eq_spec() -> bool {
        true
    }

    open spec fn eq_spec(&self, other: &Self) -> bool {
        self@ == other@
    }
}

/// The answer to one request that was carried out for this library.
#[derive(Debug)]
pub enum Reply {
    /// The request succeeded; the text is the body that came back.
    Text(String),
    /// The request could not be sent, timed out, or was answered with a
    /// status outside the 2xx range.
    Failed,
}

impl View for Reply {
    type V = Option<Seq<char>>;

    open spec fn view(&self) -> Option<Seq<char>> {
        match self {
            Reply::Text(body) => Some(body@),
            Reply::Failed => None,
        }
    }
}

/// The views of a sequence of items, in order.
pub open spec fn content_views(items: Seq<Content>) -> Seq<ContentView> {
    items.map_values(|c: Content| c@)
}

/// The views of a sequence of strings, in order.
pub open spec fn text_views(items: Seq<String>) -> Seq<Seq<char>> {
    items.map_values(|s: String| s@)
}

} // verus!
