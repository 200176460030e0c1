use crate::modules::content::{query_text, Searchable};
use crate::modules::links::{add_pair, add_pairs, join, option_view, url_join, with_pair, with_pairs};
use crate::modules::markup::{
    attr_views, readable, select_attrs, selected_attrs, MARKUP_BYTES_MAX,
};
use crate::modules::text::{
    byte_len, chars_of, contains, contains_chars, lowercase, split_words, to_lowercase, words,
};
use crate::modules::types::{text_views, Content, ContentView, Reply, WebFile, WebFileView};
use vstd::prelude::*;

verus! {

/// Seconds after which a page request is given up.
pub const PAGE_TIMEOUT_SECS: u64 = 30;

/// The discovery strategies of a configuration, in its order.
#[derive(Debug)]
pub struct CrawlersConfigs {
    pub crawlers: Vec<CrawlersConfig>,
}

/// One configured discovery strategy.
#[derive(Debug)]
pub enum CrawlersConfig {
    TwoStageWeb(TwoStageWeb),
}

/// Discovery by a search page and the page of its first matching result.
#[derive(Debug)]
pub struct TwoStageWeb {
    pub url: String,
    pub search_page: String,
    pub search_get_name: String,
    pub categories: Vec<String>,
    pub categories_get_name: String,
    pub user_agent: String,
    /// Number of results asked for; advisory, no step reads it.
    pub limit: u32,
    pub first_stage_match: String,
    pub second_stage_match: String,
}

/// Why a discovery ended without a link.
#[derive(Debug, Clone, Copy, PartialEq, Eq, Structural)]
pub enum DiscoveryError {
    /// A page could not be fetched.
    FetchFailed,
    /// No link of the search page names every word of the query.
    FirstStageEmpty,
    /// The result page holds no link that can be resolved.
    SecondStageEmpty,
    /// The address of the search page cannot be built: the configured
    /// address and search path give no absolute link, or the link with the
    /// query and the categories would be too long.
    InvalidUrl,
    /// A configured selector is no valid selector, or is too long to be
    /// read.
    InvalidSelector,
    /// A fetched page is too large to be read.
    PageTooLarge,
}

/// A page to fetch with an HTTP GET.
#[derive(Debug)]
pub struct PageRequest {
    pub url: String,
    pub user_agent: String,
    pub timeout_secs: u64,
}

/// The mathematical value of a [`PageRequest`].
pub struct PageRequestView {
    pub url: Seq<char>,
    pub user_agent: Seq<char>,
    pub timeout_secs: nat,
}

impl View for PageRequest {
    type V = PageRequestView;

    open spec fn view(&self) -> PageRequestView {
        PageRequestView {
            url: self.url@,
            user_agent: self.user_agent@,
            timeout_secs: self.timeout_secs as nat,
        }
    }
}

/// How far one discovery has come.
#[derive(Debug)]
pub enum Discovery {
    /// The search page is awaited.
    Searching { content: Content, search_url: String },
    /// The page of the chosen search result is awaited.
    Resolving { content: Content, search_url: String, page_url: String },
    /// The link was found.
    Found(WebFile),
    /// The discovery ended without a link.
    Failed(DiscoveryError),
}

/// The mathematical value of a [`Discovery`].
pub enum DiscoveryView {
    Searching { content: ContentView, search_url: Seq<char> },
    Resolving { content: ContentView, search_url: Seq<char>, page_url: Seq<char> },
    Found(WebFileView),
    Failed(DiscoveryError),
}

impl View for Discovery {
    type V = DiscoveryView;

    open spec fn view(&self) -> DiscoveryView {
        match self {
            Discovery::Searching { content, search_url } => DiscoveryView::Searching {
                content: content@,
                search_url: search_url@,
            },
            Discovery::Resolving { content, search_url, page_url } => DiscoveryView::Resolving {
                content: content@,
                search_url: search_url@,
                page_url: page_url@,
            },
            Discovery::Found(file) => DiscoveryView::Found(file@),
            Discovery::Failed(error) => DiscoveryView::Failed(*error),
        }
    }
}

/// The name of the attribute that holds the target of a link.
pub open spec fn href() -> Seq<char> {
    seq!['h', 'r', 'e', 'f']
}

/// The words of `query`, each in lower case.
pub open spec fn keywords(query: Seq<char>) -> Seq<Seq<char>> {
    words(query).map_values(|word: Seq<char>| lowercase(word))
}

/// Every one of `keys` stands somewhere in `item`, compared as it is
/// written.
pub open spec fn has_keywords(item: Seq<char>, keys: Seq<Seq<char>>) -> bool {
    forall|k: int| 0 <= k < keys.len() ==> contains(item, #[trigger] keys[k])
}

/// Those of `items` that hold every one of `keys`, in their order.
pub open spec fn matching(items: Seq<Seq<char>>, keys: Seq<Seq<char>>) -> Seq<Seq<char>> {
    items.filter(|item: Seq<char>| has_keywords(item, keys))
}

/// The absolute link of one matched element: its attribute resolved against
/// `base`, if it has one that can be resolved.
pub open spec fn resolve(base: Seq<char>, href: Option<Seq<char>>) -> Option<Seq<char>> {
    match href {
        Some(reference) => url_join(base, reference),
        None => None,
    }
}

/// The links that `hrefs` give against `base`, in their order. An element
/// without the attribute, or with one that cannot be resolved, gives none.
pub open spec fn resolved(base: Seq<char>, hrefs: Seq<Option<Seq<char>>>) -> Seq<Seq<char>> {
    hrefs.filter_map(|href: Option<Seq<char>>| resolve(base, href))
}

/// The links resolved from a part of the elements are the first of the
/// links resolved from all of them.
pub proof fn lemma_resolved_prefix(base: Seq<char>, hrefs: Seq<Option<Seq<char>>>, n: int)
    requires
        0 <= n <= hrefs.len(),
    ensures
        resolved(base, hrefs.take(n)).is_prefix_of(resolved(base, hrefs)),
    decreases hrefs.len(),
{
    if n == hrefs.len() {
        assert(hrefs.take(n) =~= hrefs);
    } else {
        lemma_resolved_prefix(base, hrefs.drop_last(), n);
        assert(hrefs.drop_last().take(n) =~= hrefs.take(n));
    }
}

/// The target attributes of the elements of `page` that `selector`
/// matches; an error where the page or the selector is too long to be
/// read, or where the selector is not valid.
pub open spec fn hrefs_of(page: Seq<char>, selector: Seq<char>) -> Result<
    Seq<Option<Seq<char>>>,
    DiscoveryError,
> {
    if byte_len(page) > MARKUP_BYTES_MAX {
        Err(DiscoveryError::PageTooLarge)
    } else if byte_len(selector) > MARKUP_BYTES_MAX {
        Err(DiscoveryError::InvalidSelector)
    } else {
        match selected_attrs(page, selector, href()) {
            Some(hrefs) => Ok(hrefs),
            None => Err(DiscoveryError::InvalidSelector),
        }
    }
}

/// The search result to follow among `links`: the first that holds every
/// one of `keys`.
pub open spec fn chosen(links: Seq<Seq<char>>, keys: Seq<Seq<char>>) -> Result<
    Seq<char>,
    DiscoveryError,
> {
    let kept = matching(links, keys);
    if kept.len() == 0 {
        Err(DiscoveryError::FirstStageEmpty)
    } else {
        Ok(kept[0])
    }
}

/// The link to take among `links`: the first.
pub open spec fn taken(links: Seq<Seq<char>>) -> Result<Seq<char>, DiscoveryError> {
    if links.len() == 0 {
        Err(DiscoveryError::SecondStageEmpty)
    } else {
        Ok(links[0])
    }
}

/// `found` is what `expected` says: the same error, or a text with that
/// view.
pub open spec fn gives(found: Result<String, DiscoveryError>, expected: Result<
    Seq<char>,
    DiscoveryError,
>) -> bool {
    match expected {
        Ok(text) => found matches Ok(t) && t@ == text,
        Err(error) => found == Err::<String, DiscoveryError>(error),
    }
}

/// The words of `query`, each in lower case.
pub fn lower_words(query: &str) -> (keys: Vec<String>)
    ensures
        text_views(keys@) == keywords(query@),
{
    let found = split_words(query);
    let mut keys: Vec<String> = Vec::new();
    let mut w: usize = 0;
    while w < found.len()
        invariant
            w <= found.len(),
            text_views(found@) == words(query@),
            keys.len() == w,
            forall|k: int| 0 <= k < w ==> (#[trigger] keys@[k])@ == keywords(query@)[k],
        decreases found.len() - w,
    {
        assert(text_views(found@)[w as int] == found@[w as int]@);
        keys.push(to_lowercase(found[w].as_str()));
        w += 1;
    }
    assert(text_views(keys@) =~= keywords(query@));
    keys
}

/// Whether `item` holds every one of `keys`.
fn holds_all(item: &String, keys: &Vec<Vec<char>>) -> (every: bool)
    ensures
        every == has_keywords(item@, keys@.map_values(|key: Vec<char>| key@)),
{
    let ghost wanted = keys@.map_values(|key: Vec<char>| key@);
    let item_chars = chars_of(item.as_str());
    let mut k: usize = 0;
    while k < keys.len()
        invariant
            k <= keys.len(),
            item_chars@ == item@,
            wanted == keys@.map_values(|key: Vec<char>| key@),
            forall|j: int| 0 <= j < k ==> contains(item@, #[trigger] wanted[j]),
        decreases keys.len() - k,
    {
        if !contains_chars(&item_chars, &keys[k]) {
            assert(!contains(item@, wanted[k as int]));
            return false;
        }
        k += 1;
    }
    true
}

/// Those of `items` that hold every one of `keys`, in their order. Items
/// and keys are compared as they are written.
pub fn keep_keywords(items: &[String], keys: &[String]) -> (kept: Vec<String>)
    ensures
        text_views(kept@) == matching(text_views(items@), text_views(keys@)),
{
    let ghost wanted = text_views(keys@);
    let mut key_chars: Vec<Vec<char>> = Vec::new();
    let mut w: usize = 0;
    while w < keys.len()
        invariant
            w <= keys.len(),
            wanted == text_views(keys@),
            key_chars.len() == w,
            forall|k: int| 0 <= k < w ==> (#[trigger] key_chars@[k])@ == wanted[k],
        decreases keys.len() - w,
    {
        key_chars.push(chars_of(keys[w].as_str()));
        w += 1;
    }
    assert(key_chars@.map_values(|key: Vec<char>| key@) =~= wanted);
    let ghost all = text_views(items@);
    let mut kept: Vec<String> = Vec::new();
    let mut i: usize = 0;
    assert(all.take(0) =~= Seq::<Seq<char>>::empty());
    proof {
        reveal(Seq::filter);
    }
    while i < items.len()
        invariant
            i <= items.len(),
            all == text_views(items@),
            key_chars@.map_values(|key: Vec<char>| key@) == wanted,
            text_views(kept@) == matching(all.take(i as int), wanted),
        decreases items.len() - i,
    {
        let every = holds_all(&items[i], &key_chars);
        proof {
            reveal(Seq::filter);
            assert(all.take(i + 1).drop_last() =~= all.take(i as int));
            assert(all.take(i + 1).last() == all[i as int]);
        }
        if every {
            let ghost before = text_views(kept@);
            let item = items[i].clone();
            kept.push(item);
            assert(text_views(kept@) =~= before.push(all[i as int]));
        }
        i += 1;
    }
    assert(all.take(items.len() as int) =~= all);
    kept
}

/// Those of `items` that hold every word of `keywords`, in their order.
/// Only the words are put in lower case; the items are compared as they
/// are written.
pub fn filter_by_keywords(items: &[String], keywords: &str) -> (kept: Vec<String>)
    ensures
        text_views(kept@) == matching(text_views(items@), self::keywords(keywords@)),
{
    let keys = lower_words(keywords);
    keep_keywords(items, keys.as_slice())
}

/// The search result to follow among `links`: the first that holds every
/// one of `keys`.
pub fn choose_among(links: &[String], keys: &[String]) -> (link: Result<String, DiscoveryError>)
    ensures
        gives(link, chosen(text_views(links@), text_views(keys@))),
{
    let kept = keep_keywords(links, keys);
    if kept.len() == 0 {
        Err(DiscoveryError::FirstStageEmpty)
    } else {
        assert(text_views(kept@)[0] == kept@[0]@);
        Ok(kept[0].clone())
    }
}

/// The target attributes of the elements of `page` that `selector`
/// matches.
pub fn select_hrefs(page: &str, selector: &str) -> (found: Result<
    Vec<Option<String>>,
    DiscoveryError,
>)
    ensures
        match hrefs_of(page@, selector@) {
            Ok(hrefs) => found matches Ok(values) && attr_views(values@) == hrefs,
            Err(error) => found == Err::<Vec<Option<String>>, DiscoveryError>(error),
        },
{
    proof {
        reveal_strlit("href");
        assert("href"@ =~= href());
    }
    if page.as_bytes().len() > MARKUP_BYTES_MAX {
        return Err(DiscoveryError::PageTooLarge);
    }
    if selector.as_bytes().len() > MARKUP_BYTES_MAX {
        return Err(DiscoveryError::InvalidSelector);
    }
    match select_attrs(page, selector, "href") {
        Some(hrefs) => Ok(hrefs),
        None => Err(DiscoveryError::InvalidSelector),
    }
}

/// The links that `hrefs` give against `base`, in their order.
pub fn resolve_links(base: &str, hrefs: &[Option<String>]) -> (links: Vec<String>)
    ensures
        text_views(links@) == resolved(base@, attr_views(hrefs@)),
{
    let ghost all = attr_views(hrefs@);
    let mut links: Vec<String> = Vec::new();
    let mut i: usize = 0;
    assert(all.take(0) =~= Seq::<Option<Seq<char>>>::empty());
    while i < hrefs.len()
        invariant
            i <= hrefs.len(),
            all == attr_views(hrefs@),
            text_views(links@) == resolved(base@, all.take(i as int)),
        decreases hrefs.len() - i,
    {
        proof {
            assert(all.take(i + 1).drop_last() =~= all.take(i as int));
            assert(all.take(i + 1).last() == all[i as int]);
        }
        let ghost before = text_views(links@);
        match &hrefs[i] {
            Some(reference) => {
                match join(base, reference.as_str()) {
                    Some(link) => {
                        links.push(link);
                        assert(text_views(links@) =~= before + seq![link@]);
                    },
                    None => {},
                }
            },
            None => {},
        }
        i += 1;
    }
    assert(all.take(hrefs.len() as int) =~= all);
    links
}

/// The first link that `hrefs` give against `base`. The elements after it
/// are not looked at.
pub fn first_link(base: &str, hrefs: &[Option<String>]) -> (link: Result<String, DiscoveryError>)
    ensures
        gives(link, taken(resolved(base@, attr_views(hrefs@)))),
{
    let ghost all = attr_views(hrefs@);
    let mut i: usize = 0;
    assert(all.take(0) =~= Seq::<Option<Seq<char>>>::empty());
    while i < hrefs.len()
        invariant
            i <= hrefs.len(),
            all == attr_views(hrefs@),
            resolved(base@, all.take(i as int)).len() == 0,
        decreases hrefs.len() - i,
    {
        proof {
            assert(all.take(i + 1).drop_last() =~= all.take(i as int));
            assert(all.take(i + 1).last() == all[i as int]);
            lemma_resolved_prefix(base@, all, i + 1);
        }
        match &hrefs[i] {
            Some(reference) => {
                match join(base, reference.as_str()) {
                    Some(link) => {
                        proof {
                            let part = resolved(base@, all.take(i + 1));
                            let whole = resolved(base@, all);
                            assert(part =~= seq![link@]);
                            assert(whole.subrange(0, part.len() as int)[0] == whole[0]);
                        }
                        return Ok(link);
                    },
                    None => {},
                }
            },
            None => {},
        }
        i += 1;
    }
    assert(all.take(hrefs.len() as int) =~= all);
    Err(DiscoveryError::SecondStageEmpty)
}

impl TwoStageWeb {
    /// The address of the search page for `query`: the search path resolved
    /// against the configured address, then the query under its parameter
    /// name, then each category under that of the categories.
    pub open spec fn search_link(&self, query: Seq<char>) -> Option<Seq<char>> {
        match url_join(self.url@, self.search_page@) {
            Some(page) => with_pairs(
                with_pair(page, self.search_get_name@, query),
                self.categories_get_name@,
                text_views(self.categories@),
            ),
            None => None,
        }
    }

    /// The search result to follow: the first link of the search page,
    /// among those that the first selector matches and that resolve against
    /// the search address, that holds every keyword of `query`.
    pub open spec fn first_stage(&self, search_url: Seq<char>, query: Seq<char>, page: Seq<char>)
        -> Result<Seq<char>, DiscoveryError> {
        match hrefs_of(page, self.first_stage_match@) {
            Err(error) => Err(error),
            Ok(hrefs) => chosen(resolved(search_url, hrefs), keywords(query)),
        }
    }

    /// The link of the result page: the first that the second selector
    /// matches and that resolves against the search address.
    pub open spec fn second_stage(&self, search_url: Seq<char>, page: Seq<char>) -> Result<
        Seq<char>,
        DiscoveryError,
    > {
        match hrefs_of(page, self.second_stage_match@) {
            Err(error) => Err(error),
            Ok(hrefs) => taken(resolved(search_url, hrefs)),
        }
    }

    /// The address of the search page for `query`.
    pub fn search_url(&self, query: &str) -> (link: Option<String>)
        ensures
            option_view(link) == self.search_link(query@),
    {
        match join(self.url.as_str(), self.search_page.as_str()) {
            Some(page) => {
                let first = add_pair(page.as_str(), self.search_get_name.as_str(), query);
                add_pairs(first, self.categories_get_name.as_str(), &self.categories)
            },
            None => None,
        }
    }

    /// Reads the search page and chooses the result to follow.
    pub fn choose_result(&self, search_url: &str, query: &str, page: &str) -> (link: Result<
        String,
        DiscoveryError,
    >)
        ensures
            gives(link, self.first_stage(search_url@, query@, page@)),
    {
        match select_hrefs(page, self.first_stage_match.as_str()) {
            Ok(hrefs) => {
                let links = resolve_links(search_url, hrefs.as_slice());
                let keys = lower_words(query);
                choose_among(links.as_slice(), keys.as_slice())
            },
            Err(error) => Err(error),
        }
    }

    /// Reads the result page and takes its link.
    pub fn take_link(&self, search_url: &str, page: &str) -> (link: Result<String, DiscoveryError>)
        ensures
            gives(link, self.second_stage(search_url@, page@)),
    {
        match select_hrefs(page, self.second_stage_match.as_str()) {
            Ok(hrefs) => first_link(search_url, hrefs.as_slice()),
            Err(error) => Err(error),
        }
    }
}

/// The view of an optional page request.
pub open spec fn request_view(request: Option<PageRequest>) -> Option<PageRequestView> {
    match request {
        Some(r) => Some(r@),
        None => None,
    }
}

/// A discovery strategy: a protocol that looks for the link of an item
/// through pages that the caller fetches for it.
///
/// `find` opens a discovery. While `request` names a page, the caller
/// fetches it and hands the reply to `resume`. When `request` names none,
/// the discovery has ended in `Found` or `Failed`.
pub trait Crawler {
    /// The state in which a discovery for `content` begins.
    spec fn started(&self, content: ContentView) -> DiscoveryView;

    /// The page that `state` waits for, if it waits for one.
    spec fn asked(&self, state: DiscoveryView) -> Option<PageRequestView>;

    /// The state that follows `state` on `reply`.
    spec fn resumed(&self, state: DiscoveryView, reply: Option<Seq<char>>) -> DiscoveryView;

    /// Opens a discovery for `content`.
    fn find(&self, content: Content) -> (state: Discovery)
        ensures
            state@ == self.started(content@),
    ;

    /// Names the page that `state` waits for, if it waits for one.
    fn request(&self, state: &Discovery) -> (request: Option<PageRequest>)
        ensures
            request_view(request) == self.asked(state@),
    ;

    /// Takes the discovery on from `state` with the reply to its request.
    fn resume(&self, state: Discovery, reply: Reply) -> (next: Discovery)
        ensures
            next@ == self.resumed(state@, reply@),
    ;
}

impl TwoStageWeb {
    /// A request for the page at `url`, sent as the configured user agent.
    pub open spec fn page_request(&self, url: Seq<char>) -> PageRequestView {
        PageRequestView {
            url,
            user_agent: self.user_agent@,
            timeout_secs: PAGE_TIMEOUT_SECS as nat,
        }
    }

    fn get(&self, url: &String) -> (request: PageRequest)
        ensures
            request@ == self.page_request(url@),
    {
        PageRequest {
            url: url.clone(),
            user_agent: self.user_agent.clone(),
            timeout_secs: PAGE_TIMEOUT_SECS,
        }
    }
}

impl Crawler for TwoStageWeb {
    open spec fn started(&self, content: ContentView) -> DiscoveryView {
        match self.search_link(query_text(content)) {
            Some(search_url) => DiscoveryView::Searching { content, search_url },
            None => DiscoveryView::Failed(DiscoveryError::InvalidUrl),
        }
    }

    open spec fn asked(&self, state: DiscoveryView) -> Option<PageRequestView> {
        match state {
            DiscoveryView::Searching { search_url, .. } => Some(self.page_request(search_url)),
            DiscoveryView::Resolving { page_url, .. } => Some(self.page_request(page_url)),
            _ => None,
        }
    }

    open spec fn resumed(&self, state: DiscoveryView, reply: Option<Seq<char>>) -> DiscoveryView {
        match state {
            DiscoveryView::Searching { content, search_url } => match reply {
                None => DiscoveryView::Failed(DiscoveryError::FetchFailed),
                Some(page) => match self.first_stage(search_url, query_text(content), page) {
                    Ok(page_url) => DiscoveryView::Resolving { content, search_url, page_url },
                    Err(error) => DiscoveryView::Failed(error),
                },
            },
            DiscoveryView::Resolving { content, search_url, page_url } => match reply {
                None => DiscoveryView::Failed(DiscoveryError::FetchFailed),
                Some(page) => match self.second_stage(search_url, page) {
                    Ok(link) => DiscoveryView::Found(WebFileView { content, link }),
                    Err(error) => DiscoveryView::Failed(error),
                },
            },
            _ => state,
        }
    }

    fn find(&self, content: Content) -> (state: Discovery) {
        let query = content.to_query();
        match self.search_url(query.as_str()) {
            Some(search_url) => Discovery::Searching { content, search_url },
            None => Discovery::Failed(DiscoveryError::InvalidUrl),
        }
    }

    fn request(&self, state: &Discovery) -> (request: Option<PageRequest>) {
        match state {
            Discovery::Searching { search_url, .. } => Some(self.get(search_url)),
            Discovery::Resolving { page_url, .. } => Some(self.get(page_url)),
            _ => None,
        }
    }

    fn resume(&self, state: Discovery, reply: Reply) -> (next: Discovery) {
        match state {
            Discovery::Searching { content, search_url } => match reply {
                Reply::Failed => Discovery::Failed(DiscoveryError::FetchFailed),
                Reply::Text(page) => {
                    let query = content.to_query();
                    match self.choose_result(search_url.as_str(), query.as_str(), page.as_str()) {
                        Ok(page_url) => Discovery::Resolving { content, search_url, page_url },
                        Err(error) => Discovery::Failed(error),
                    }
                },
            },
            Discovery::Resolving { content, search_url, page_url } => match reply {
                Reply::Failed => Discovery::Failed(DiscoveryError::FetchFailed),
                Reply::Text(page) => match self.take_link(search_url.as_str(), page.as_str()) {
                    Ok(link) => Discovery::Found(WebFile { content, link }),
                    Err(error) => Discovery::Failed(error),
                },
            },
            Discovery::Found(file) => Discovery::Found(file),
            Discovery::Failed(error) => Discovery::Failed(error),
        }
    }
}

impl Crawler for CrawlersConfig {
    open spec fn started(&self, content: ContentView) -> DiscoveryView {
        match self {
            CrawlersConfig::TwoStageWeb(web) => web.started(content),
        }
    }

    open spec fn asked(&self, state: DiscoveryView) -> Option<PageRequestView> {
        match self {
            CrawlersConfig::TwoStageWeb(web) => web.asked(state),
        }
    }

    open spec fn resumed(&self, state: DiscoveryView, reply: Option<Seq<char>>) -> DiscoveryView {
        match self {
            CrawlersConfig::TwoStageWeb(web) => web.resumed(state, reply),
        }
    }

    fn find(&self, content: Content) -> (state: Discovery) {
        match self {
            CrawlersConfig::TwoStageWeb(web) => web.find(content),
        }
    }

    fn request(&self, state: &Discovery) -> (request: Option<PageRequest>) {
        match self {
            CrawlersConfig::TwoStageWeb(web) => web.request(state),
        }
    }

    fn resume(&self, state: Discovery, reply: Reply) -> (next: Discovery) {
        match self {
            CrawlersConfig::TwoStageWeb(web) => web.resume(state, reply),
        }
    }
}

/// What a discovery that has ended gave.
pub open spec fn outcome_view(outcome: Option<Result<WebFile, DiscoveryError>>) -> Option<
    Result<WebFileView, DiscoveryError>,
> {
    match outcome {
        Some(Ok(file)) => Some(Ok(file@)),
        Some(Err(error)) => Some(Err(error)),
        None => None,
    }
}

impl Discovery {
    /// What this discovery gave, `None` while it waits for a page.
    pub open spec fn result(state: DiscoveryView) -> Option<Result<WebFileView, DiscoveryError>> {
        match state {
            DiscoveryView::Found(file) => Some(Ok(file)),
            DiscoveryView::Failed(error) => Some(Err(error)),
            _ => None,
        }
    }

    /// What this discovery gave, `None` while it waits for a page.
    pub fn outcome(self) -> (outcome: Option<Result<WebFile, DiscoveryError>>)
        ensures
            outcome_view(outcome) == Self::result(self@),
    {
        match self {
            Discovery::Found(file) => Some(Ok(file)),
            Discovery::Failed(error) => Some(Err(error)),
            _ => None,
        }
    }
}

/// A discovery whose search page can be read, and on which no link that
/// the first selector matches and that resolves holds every keyword of
/// the query, ends there as `FirstStageEmpty`: it asks for no further
/// page. That the selector matches no element, or that no target
/// resolves, are cases of this.
pub proof fn lemma_no_match_is_first_stage_empty(
    web: TwoStageWeb,
    content: ContentView,
    search_url: Seq<char>,
    page: Seq<char>,
)
    requires
        web.started(content) == (DiscoveryView::Searching { content, search_url }),
        readable(page, web.first_stage_match@),
        selected_attrs(page, web.first_stage_match@, href()) matches Some(hrefs) && matching(
            resolved(search_url, hrefs),
            keywords(query_text(content)),
        ).len() == 0,
    ensures
        web.first_stage(search_url, query_text(content), page) == Err::<
            Seq<char>,
            DiscoveryError,
        >(DiscoveryError::FirstStageEmpty),
        web.resumed(web.started(content), Some(page)) == DiscoveryView::Failed(
            DiscoveryError::FirstStageEmpty,
        ),
        web.asked(web.resumed(web.started(content), Some(page))) is None,
        Discovery::result(web.resumed(web.started(content), Some(page))) == Some(
            Err::<WebFileView, DiscoveryError>(DiscoveryError::FirstStageEmpty),
        ),
{
}

/// A discovery whose result page can be read, and on which no element that
/// the second selector matches has a target that resolves, ends as
/// `SecondStageEmpty`, never as found: neither with an empty link nor with
/// the address of the result page. That the selector matches no element is
/// a case of this.
pub proof fn lemma_no_element_is_second_stage_empty(
    web: TwoStageWeb,
    content: ContentView,
    search_url: Seq<char>,
    page_url: Seq<char>,
    page: Seq<char>,
)
    requires
        readable(page, web.second_stage_match@),
        selected_attrs(page, web.second_stage_match@, href()) matches Some(hrefs) && resolved(
            search_url,
            hrefs,
        ).len() == 0,
    ensures
        web.second_stage(search_url, page) == Err::<Seq<char>, DiscoveryError>(
            DiscoveryError::SecondStageEmpty,
        ),
        web.resumed(DiscoveryView::Resolving { content, search_url, page_url }, Some(page))
            == DiscoveryView::Failed(DiscoveryError::SecondStageEmpty),
        !(web.resumed(DiscoveryView::Resolving { content, search_url, page_url }, Some(page))
            is Found),
        web.asked(
            web.resumed(DiscoveryView::Resolving { content, search_url, page_url }, Some(page)),
        ) is None,
{
}

/// Where the second selector matches no element of the result page, no
/// target resolves.
pub proof fn lemma_nothing_selected_resolves_nothing(base: Seq<char>)
    ensures
        resolved(base, Seq::<Option<Seq<char>>>::empty()).len() == 0,
{
}

/// A page that is too large to be read ends the discovery as
/// `PageTooLarge`, at either stage and whatever the page holds.
pub proof fn lemma_large_page_is_refused(
    web: TwoStageWeb,
    content: ContentView,
    search_url: Seq<char>,
    page_url: Seq<char>,
    page: Seq<char>,
)
    requires
        byte_len(page) > MARKUP_BYTES_MAX,
    ensures
        web.resumed(DiscoveryView::Searching { content, search_url }, Some(page))
            == DiscoveryView::Failed(DiscoveryError::PageTooLarge),
        web.resumed(DiscoveryView::Resolving { content, search_url, page_url }, Some(page))
            == DiscoveryView::Failed(DiscoveryError::PageTooLarge),
{
}

/// A discovery fetches at most two pages and repeats none: after the
/// replies to the search page and to the result page it has ended, and an
/// ended discovery asks for nothing and stays as it is.
pub proof fn lemma_discovery_ends_after_two_pages(
    web: TwoStageWeb,
    content: ContentView,
    first: Option<Seq<char>>,
    second: Option<Seq<char>>,
    later: Option<Seq<char>>,
)
    ensures
        ({
            let end = web.resumed(web.resumed(web.started(content), first), second);
            &&& end is Found || end is Failed
            &&& web.asked(end) is None
            &&& web.resumed(end, later) == end
            &&& end matches DiscoveryView::Found(file) ==> file.content == content
        }),
        first is None ==> web.resumed(web.started(content), first) is Failed,
{
}

} // verus!
