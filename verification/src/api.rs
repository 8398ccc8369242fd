//! The remote catalog: its data, and what is made of its answers.

pub mod types;

use crate::api::types::{
    paired, CollectionItemsRequest, CollectionItemsResult, DownloadData, Format, Item, ProfileData,
};
use crate::http::FetchError;
use crate::text::{concat_str, join, joined, views_of};
use vstd::prelude::*;
use vstd::string::*;

verus! {

/// What looking for an attribute of the first element that matches a
/// selector came to.
#[derive(Debug, Clone, PartialEq, Eq)]
pub enum Scraped {
    /// The selector is not one.
    BadSelector,
    /// No element of the document matches the selector.
    NoElement,
    /// The first matching element lacks the attribute.
    NoAttribute,
    /// The value of the attribute.
    Value(String),
}

/// A [`Scraped`] with its text as a sequence of characters.
pub enum ScrapedText {
    BadSelector,
    NoElement,
    NoAttribute,
    Value(Seq<char>),
}

impl Scraped {
    pub open spec fn view(&self) -> ScrapedText {
        match self {
            Scraped::BadSelector => ScrapedText::BadSelector,
            Scraped::NoElement => ScrapedText::NoElement,
            Scraped::NoAttribute => ScrapedText::NoAttribute,
            Scraped::Value(v) => ScrapedText::Value(v@),
        }
    }
}

/// What the `scraper` crate finds in an HTML document for the attribute
/// `attribute` of the first element that matches `selector`.
pub uninterp spec fn first_attribute(
    document: Seq<char>,
    selector: Seq<char>,
    attribute: Seq<char>,
) -> ScrapedText;

/// Parses the selector with `scraper::Selector::parse` and the document with
/// `scraper::Html::parse_document`, takes the first element of
/// `Html::select`, and asks it for the attribute with `ElementRef::attr`.
///
/// Nothing is claimed of what is found beyond that it is a function of the
/// three texts.
#[verifier::external_body]
fn select_first_attribute(document: &str, selector: &str, attribute: &str) -> (r: Scraped)
    ensures
        r@ == first_attribute(document@, selector@, attribute@),
{
    match scraper::Selector::parse(selector) {
        Err(_) => Scraped::BadSelector,
        Ok(sel) => match scraper::Html::parse_document(document).select(&sel).next() {
            None => Scraped::NoElement,
            Some(element) => match element.attr(attribute) {
                None => Scraped::NoAttribute,
                Some(value) => Scraped::Value(value.to_owned()),
            },
        },
    }
}

/// The embedded data that was found, or the reason why there is none.
pub open spec fn blob_of(found: ScrapedText) -> Result<Seq<char>, FetchError> {
    match found {
        ScrapedText::Value(v) => Ok(v),
        ScrapedText::NoAttribute => Err(FetchError::NoDataBlob),
        _ => Err(FetchError::NoPageData),
    }
}

/// Whether `r` is the result `model` with its text as a string.
pub open spec fn blobs_agree(r: Result<String, FetchError>, model: Result<Seq<char>, FetchError>) -> bool {
    match (r, model) {
        (Ok(s), Ok(m)) => s@ == m,
        (Err(e), Err(f)) => e == f,
        _ => false,
    }
}

/// Turns what was found in a page into the embedded data or a failure.
pub fn blob_from_scraped(found: Scraped) -> (r: Result<String, FetchError>)
    ensures
        blobs_agree(r, blob_of(found@)),
{
    match found {
        Scraped::Value(v) => Ok(v),
        Scraped::NoAttribute => Err(FetchError::NoDataBlob),
        _ => Err(FetchError::NoPageData),
    }
}

/// The data embedded in a page: the attribute `data-blob` of the first
/// element that matches `div#pagedata`.
pub fn page_data_blob(document: &str) -> (r: Result<String, FetchError>)
    ensures
        blobs_agree(r, blob_of(first_attribute(document@, "div#pagedata"@, "data-blob"@))),
{
    blob_from_scraped(select_first_attribute(document, "div#pagedata", "data-blob"))
}

/// The address under which the first download item of `data` offers the
/// encoding `format`.
pub open spec fn link_in(data: DownloadData, format: Format) -> Result<String, FetchError> {
    if data.download_items.len() == 0 {
        Err(FetchError::NoDownloadItems)
    } else if data.download_items[0].downloads@.contains_key(format.name()) {
        Ok(data.download_items[0].downloads@[format.name()].url)
    } else {
        Err(FetchError::FormatUnavailable)
    }
}

/// Picks from the data of an asset page the address for the encoding
/// `format`. Only the first download item counts.
pub fn get_download_link(data: &DownloadData, format: Format) -> (r: Result<String, FetchError>)
    ensures
        r == link_in(*data, format),
{
    if data.download_items.len() == 0 {
        return Err(FetchError::NoDownloadItems);
    }
    match data.download_items[0].downloads.get(format.as_str()) {
        Some(d) => Ok(d.url.clone()),
        None => Err(FetchError::FormatUnavailable),
    }
}

/// The names of the encodings that the first download item of `data` offers.
pub fn offered_formats(data: &DownloadData) -> (r: Vec<String>)
    ensures
        data.download_items.len() == 0 ==> r@.len() == 0,
        data.download_items.len() > 0 ==> {
            &&& r@.len() == data.download_items[0].downloads.key_order().len()
            &&& forall|i: int|
                0 <= i < r@.len() ==> (#[trigger] r@[i])@
                    == data.download_items[0].downloads.key_order()[i]
        },
{
    if data.download_items.len() == 0 {
        Vec::new()
    } else {
        data.download_items[0].downloads.keys()
    }
}

/// The text that tells that `format` is not among the offered encodings.
pub open spec fn unavailable_text(format: Format, offered: Seq<Seq<char>>) -> Seq<char> {
    "format "@ + format.name() + " not available in: "@ + joined(offered, ", "@)
}

/// The text that tells that the asset page does not offer `format`, and
/// which encodings it offers instead.
pub fn describe_unavailable(format: Format, offered: &Vec<String>) -> (s: String)
    ensures
        s@ == unavailable_text(format, views_of(offered@)),
{
    let mut s = concat_str("format ", format.as_str());
    s.append(" not available in: ");
    s.append(join(offered, ", ").as_str());
    s
}

/// The number of items asked for with each page.
pub const PAGE_SIZE: usize = 20;

/// The enumeration of a collection, page by page.
///
/// The first batch comes with the profile. After that every page is asked
/// for with the cursor that the page before it gave, until a page says that
/// no more is available.
#[derive(Debug, Clone, PartialEq, Eq)]
pub struct Pagination {
    /// The items found so far with their authorization addresses, in the
    /// order in which they were found.
    pub items: Vec<(Item, String)>,
    /// The cursor for the next request.
    pub cursor: String,
    /// Whether the enumeration is complete.
    pub finished: bool,
    /// The number of pages taken in.
    pub pages: usize,
}

/// Whether a page ends the enumeration that asked for it with `cursor`: it
/// says that no more is available, or it holds no item at all, or it hands
/// back the very cursor it was asked with.
pub open spec fn is_last_page(page: CollectionItemsResult, cursor: Seq<char>) -> bool {
    !page.more_available || page.items.len() == 0 || page.last_token@ == cursor
}

/// `n + 1`, held at `usize::MAX`.
pub open spec fn capped_succ(n: usize) -> usize {
    if n == usize::MAX {
        n
    } else {
        (n + 1) as usize
    }
}

impl Pagination {
    /// The state in which the enumeration starts: the first batch is there,
    /// and nothing more is to be asked for if the declared total does not
    /// exceed the size of the first batch.
    pub open spec fn starts_as(&self, profile: ProfileData) -> bool {
        &&& self.items@ == paired(profile.first_items(), profile.collection_data.redownload_urls@)
        &&& self.cursor@ == profile.collection_data.last_token@
        &&& self.finished == (profile.collection_count <= profile.collection_data.batch_size)
        &&& self.pages == 0
    }

    /// How a page changes the state. A finished enumeration takes nothing
    /// in. Otherwise the page's items are appended and the page is counted;
    /// a last page finishes the enumeration, any other hands on its cursor.
    pub open spec fn follows(&self, before: Pagination, page: CollectionItemsResult) -> bool {
        if before.finished {
            *self == before
        } else {
            &&& self.items@ == before.items@ + paired(page.items@, page.redownload_urls@)
            &&& self.pages == capped_succ(before.pages)
            &&& self.finished == is_last_page(page, before.cursor@)
            &&& self.cursor@ == if is_last_page(page, before.cursor@) {
                before.cursor@
            } else {
                page.last_token@
            }
        }
    }

    /// Starts the enumeration from the data of the profile page.
    pub fn begin(profile: &ProfileData) -> (p: Pagination)
        ensures
            p.starts_as(*profile),
    {
        Pagination {
            items: profile.iter_collection(),
            cursor: profile.collection_data.last_token.clone(),
            finished: profile.collection_count <= profile.collection_data.batch_size,
            pages: 0,
        }
    }

    /// The request to send next, or `None` when the enumeration is complete.
    pub fn next_request(&self, fan_id: u64) -> (r: Option<CollectionItemsRequest<'_>>)
        ensures
            self.finished ==> r is None,
            !self.finished ==> r is Some && r->0.fan_id == fan_id && r->0.count == PAGE_SIZE
                && r->0.older_than_token@ == self.cursor@,
    {
        if self.finished {
            None
        } else {
            Some(
                CollectionItemsRequest {
                    fan_id,
                    count: PAGE_SIZE,
                    older_than_token: self.cursor.as_str(),
                },
            )
        }
    }

    /// Takes in the page that answered the last request, and gives the
    /// number of items found so far.
    pub fn absorb(&mut self, page: &CollectionItemsResult) -> (total: usize)
        ensures
            final(self).follows(*old(self), *page),
            total == final(self).items@.len(),
    {
        if self.finished {
            return self.items.len();
        }
        let mut found = page.iter_collection();
        self.items.append(&mut found);
        if self.pages < usize::MAX {
            self.pages = self.pages + 1;
        }
        if !page.more_available || page.items.len() == 0 || page.last_token == self.cursor {
            self.finished = true;
        } else {
            self.cursor = page.last_token.clone();
        }
        self.items.len()
    }

    /// The enumeration's result.
    pub fn into_items(self) -> (r: Vec<(Item, String)>)
        ensures
            r == self.items,
    {
        self.items
    }
}

/// The items of all `pages` with their authorization addresses, page after
/// page.
pub open spec fn all_paired(pages: Seq<CollectionItemsResult>) -> Seq<(Item, String)>
    decreases pages.len(),
{
    if pages.len() == 0 {
        Seq::empty()
    } else {
        all_paired(pages.drop_last()) + paired(pages.last().items@, pages.last().redownload_urls@)
    }
}

/// An enumeration asks for pages until the first last page, and holds then
/// what it started with followed by the items of every page in order.
///
/// `states` are the states of an enumeration that is not finished at first
/// and takes in `pages` one after the other. If no page but the final one
/// is a last page for the cursor it was asked with, then the enumeration is
/// unfinished before every page, so each of them is asked for; and after the
/// final page it is finished, has counted every page, and holds the items of
/// all of them after its own.
pub proof fn lemma_enumeration_collects_every_page(
    states: Seq<Pagination>,
    pages: Seq<CollectionItemsResult>,
)
    requires
        pages.len() > 0,
        states.len() == pages.len() + 1,
        !states[0].finished,
        states[0].pages + pages.len() <= usize::MAX,
        forall|i: int|
            0 <= i < pages.len() ==> (#[trigger] states[i + 1]).follows(states[i], pages[i]),
        forall|i: int|
            0 <= i < pages.len() - 1 ==> !is_last_page(#[trigger] pages[i], states[i].cursor@),
        is_last_page(pages.last(), states[pages.len() - 1].cursor@),
    ensures
        forall|i: int| 0 <= i < pages.len() ==> !(#[trigger] states[i]).finished,
        states.last().finished,
        states.last().pages == states[0].pages + pages.len(),
        states.last().items@ == states[0].items@ + all_paired(pages),
    decreases pages.len(),
{
    let n = pages.len() as int;
    let last_page = pages.last();
    assert(states[n - 1 + 1].follows(states[n - 1], pages[n - 1]));
    if n == 1 {
        assert(pages.drop_last().len() == 0);
        assert(all_paired(pages.drop_last()) =~= Seq::<(Item, String)>::empty());
        assert(all_paired(pages) =~= paired(last_page.items@, last_page.redownload_urls@));
    } else {
        let front_pages = pages.drop_last();
        lemma_prefix_unfinished(states, pages, n - 1);
        assert(states[n - 1].items@ == states[0].items@ + all_paired(front_pages));
        assert(states.last().items@ =~= states[0].items@ + all_paired(pages));
        assert forall|i: int| 0 <= i < pages.len() implies !(#[trigger] states[i]).finished by {
            lemma_prefix_unfinished(states, pages, i);
        }
    }
}

/// Before the first last page an enumeration is unfinished and holds the
/// items of the pages taken in so far.
proof fn lemma_prefix_unfinished(
    states: Seq<Pagination>,
    pages: Seq<CollectionItemsResult>,
    k: int,
)
    requires
        states.len() == pages.len() + 1,
        0 <= k < pages.len(),
        !states[0].finished,
        states[0].pages + pages.len() <= usize::MAX,
        forall|i: int|
            0 <= i < pages.len() ==> (#[trigger] states[i + 1]).follows(states[i], pages[i]),
        forall|i: int|
            0 <= i < pages.len() - 1 ==> !is_last_page(#[trigger] pages[i], states[i].cursor@),
    ensures
        !states[k].finished,
        states[k].pages == states[0].pages + k,
        states[k].items@ == states[0].items@ + all_paired(pages.take(k)),
        k == pages.len() - 1 ==> pages.take(k) == pages.drop_last(),
    decreases k,
{
    if k == 0 {
        assert(pages.take(0) =~= Seq::<CollectionItemsResult>::empty());
        assert(states[0].items@ =~= states[0].items@ + all_paired(pages.take(0)));
    } else {
        lemma_prefix_unfinished(states, pages, k - 1);
        assert(states[k - 1 + 1].follows(states[k - 1], pages[k - 1]));
        assert(!is_last_page(pages[k - 1], states[k - 1].cursor@));
        assert(pages.take(k).drop_last() =~= pages.take(k - 1));
        assert(pages.take(k).last() == pages[k - 1]);
        assert(states[k].items@ =~= states[0].items@ + all_paired(pages.take(k)));
    }
    if k == pages.len() - 1 {
        assert(pages.take(k) =~= pages.drop_last());
    }
}

} // verus!
