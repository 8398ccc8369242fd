//! The data that the catalog service hands out, and what is read off it.

use crate::dict::Dictionary;
use crate::paths::{
    album_segment, is_clean, lemma_album_segment_is_clean, sanitize, segment_of, ItemPath,
};
use crate::text::{concat_str, decimal, push_decimal, views_of};
use vstd::prelude::*;
use vstd::string::*;

verus! {

/// Who is looking at a page.
#[derive(Debug, Clone, Copy, PartialEq, Eq)]
pub struct PageContext {
    pub fan_id: Option<u64>,
    pub user_id: Option<u64>,
    pub is_logged_in: bool,
}

/// One entry of the lookup table of a collection summary.
#[derive(Debug, Clone, PartialEq, Eq)]
pub struct LookupItem {
    pub item_type: String,
    pub item_id: u64,
    pub band_id: u64,
    pub purchased: Option<String>,
}

/// The account behind a collection.
#[derive(Debug, Clone, PartialEq, Eq)]
pub struct CollectionSummary {
    pub fan_id: u64,
    pub username: String,
    /// The address of the account's profile page.
    pub url: String,
    pub tralbum_lookup: Option<Dictionary<LookupItem>>,
}

/// The answer to the summary call.
#[derive(Debug, Clone, PartialEq, Eq)]
pub struct CollectionSummaryResult {
    pub fan_id: u64,
    pub collection_summary: CollectionSummary,
}

/// A request for one page of a collection: at most `count` items that are
/// older than the position that the token marks.
#[derive(Debug, Clone, Copy, PartialEq, Eq)]
pub struct CollectionItemsRequest<'a> {
    pub fan_id: u64,
    pub count: usize,
    pub older_than_token: &'a str,
}

/// One encoding in which an asset is offered.
#[derive(Debug, Clone, PartialEq, Eq)]
pub struct Download {
    pub description: String,
    pub encoding_name: String,
    pub size_mb: Option<String>,
    /// The address from which the asset can be fetched once.
    pub url: String,
}

/// The encodings in which one asset is offered, by name.
#[derive(Debug, Clone, PartialEq, Eq)]
pub struct DownloadItem {
    pub downloads: Dictionary<Download>,
}

/// The data embedded in an asset's download page.
#[derive(Debug, Clone, PartialEq, Eq)]
pub struct DownloadData {
    pub download_items: Vec<DownloadItem>,
}

/// One purchased work.
#[derive(Debug, PartialEq, Eq)]
pub struct Item {
    pub album_id: Option<u64>,
    pub also_collected_count: usize,
    pub band_id: u64,
    /// The name of the owner of the work.
    pub band_name: String,
    pub download_available: Option<bool>,
    pub is_private: bool,
    pub is_preorder: bool,
    pub is_purchasable: bool,
    pub is_subscriber_only: bool,
    pub is_subscription_item: bool,
    pub item_id: u64,
    pub item_title: String,
    pub item_type: String,
    pub item_url: String,
    pub purchased: Option<String>,
    pub tralbum_id: u64,
    pub tralbum_type: String,
    /// The number of the sale; one half of the download key.
    pub sale_item_id: Option<u64>,
    /// The kind of the sale; the other half of the download key.
    pub sale_item_type: Option<String>,
}

/// The items that a profile page knows, by their identifiers.
#[derive(Debug, Clone, PartialEq, Eq)]
pub struct ItemCache {
    pub collection: Dictionary<Item>,
    pub hidden: Dictionary<Item>,
    pub wishlist: Dictionary<Item>,
}

/// The first batch of a collection, as embedded in the profile page.
#[derive(Debug, Clone, PartialEq, Eq)]
pub struct CollectionData {
    pub batch_size: usize,
    pub hidden_items_count: usize,
    /// The cursor from which the listing goes on.
    pub last_token: String,
    pub item_count: usize,
    /// The authorization addresses of the batch, by download key.
    pub redownload_urls: Dictionary<String>,
    /// The identifiers of the batch's items, in listing order.
    pub sequence: Vec<String>,
}

/// The data embedded in a profile page.
#[derive(Debug, Clone, PartialEq, Eq)]
pub struct ProfileData {
    /// The number of items that the account declares.
    pub collection_count: usize,
    pub item_cache: ItemCache,
    pub collection_data: CollectionData,
}

/// One page of a collection.
#[derive(Debug, Clone, PartialEq, Eq)]
pub struct CollectionItemsResult {
    pub more_available: bool,
    pub items: Vec<Item>,
    /// The authorization addresses of the page, by download key.
    pub redownload_urls: Dictionary<String>,
    /// The cursor from which the listing goes on.
    pub last_token: String,
}

/// The envelope of an answer: the service may report a fault in place of data.
#[derive(Debug, Clone, PartialEq, Eq)]
pub struct MaybeError {
    pub error: bool,
    pub error_message: Option<String>,
}

/// The encoding in which assets are asked for.
#[allow(non_camel_case_types)]
#[derive(Debug, Clone, Copy, PartialEq, Eq, Structural)]
pub enum Format {
    AacHi,
    AiffLossless,
    Alac,
    Flac,
    Mp3_320,
    Mp3V0,
    Vorbis,
    Wav,
}

impl Default for Format {
    fn default() -> (f: Self)
        ensures
            f == Format::Mp3_320,
    {
        Format::Mp3_320
    }
}

impl Format {
    /// The name by which the service knows the encoding.
    pub open spec fn name(self) -> Seq<char> {
        match self {
            Format::AacHi => "aac-hi"@,
            Format::AiffLossless => "aiff-lossless"@,
            Format::Alac => "alac"@,
            Format::Flac => "flac"@,
            Format::Mp3_320 => "mp3-320"@,
            Format::Mp3V0 => "mp3-v0"@,
            Format::Vorbis => "vorbis"@,
            Format::Wav => "wav"@,
        }
    }

    /// The name by which the service knows the encoding.
    pub fn as_str(&self) -> (s: &'static str)
        ensures
            s@ == self.name(),
    {
        match self {
            Format::AacHi => "aac-hi",
            Format::AiffLossless => "aiff-lossless",
            Format::Alac => "alac",
            Format::Flac => "flac",
            Format::Mp3_320 => "mp3-320",
            Format::Mp3V0 => "mp3-v0",
            Format::Vorbis => "vorbis",
            Format::Wav => "wav",
        }
    }

    /// The name of the encoding as an owned string.
    pub fn to_string(&self) -> (s: String)
        ensures
            s@ == self.name(),
    {
        self.as_str().to_owned()
    }

    /// Every encoding, in declaration order.
    pub fn all() -> (v: Vec<Format>)
        ensures
            v@ == seq![
                Format::AacHi,
                Format::AiffLossless,
                Format::Alac,
                Format::Flac,
                Format::Mp3_320,
                Format::Mp3V0,
                Format::Vorbis,
                Format::Wav,
            ],
    {
        vec![
            Format::AacHi,
            Format::AiffLossless,
            Format::Alac,
            Format::Flac,
            Format::Mp3_320,
            Format::Mp3V0,
            Format::Vorbis,
            Format::Wav,
        ]
    }

    /// The encoding with the given name, if there is one.
    pub fn from_name(name: &str) -> (r: Option<Format>)
        ensures
            match r {
                Some(f) => f.name() == name@,
                None => forall|f: Format| f.name() != name@,
            },
    {
        let wanted = name.to_owned();
        let all = Format::all();
        let mut i: usize = 0;
        while i < all.len()
            invariant
                i <= all.len(),
                wanted@ == name@,
                all@ == seq![
                    Format::AacHi,
                    Format::AiffLossless,
                    Format::Alac,
                    Format::Flac,
                    Format::Mp3_320,
                    Format::Mp3V0,
                    Format::Vorbis,
                    Format::Wav,
                ],
                forall|j: int| 0 <= j < i ==> (#[trigger] all@[j]).name() != name@,
            decreases all.len() - i,
        {
            if all[i].to_string() == wanted {
                return Some(all[i]);
            }
            i = i + 1;
        }
        proof {
            assert forall|f: Format| f.name() != name@ by {
                let k: int = match f {
                    Format::AacHi => 0,
                    Format::AiffLossless => 1,
                    Format::Alac => 2,
                    Format::Flac => 3,
                    Format::Mp3_320 => 4,
                    Format::Mp3V0 => 5,
                    Format::Vorbis => 6,
                    Format::Wav => 7,
                };
                assert(all@[k] == f);
            }
        }
        None
    }
}

/// No two encodings share a name.
pub proof fn lemma_format_names_distinct(a: Format, b: Format)
    requires
        a.name() == b.name(),
    ensures
        a == b,
{
    reveal_strlit("aac-hi");
    reveal_strlit("aiff-lossless");
    reveal_strlit("alac");
    reveal_strlit("flac");
    reveal_strlit("mp3-320");
    reveal_strlit("mp3-v0");
    reveal_strlit("vorbis");
    reveal_strlit("wav");
    if a != b {
        let x = a.name();
        let y = b.name();
        assert(x.len() == y.len());
        assert(x[1] == y[1]);
        assert(x[0] == y[0]);
        if x.len() == 6 {
            assert(x[5] == y[5]);
        }
    }
}

impl MaybeError {
    /// The fault that the envelope reports, if it reports one: the message
    /// that came with it, or a fixed text where none came.
    pub open spec fn fault(&self) -> Option<Seq<char>> {
        if self.error {
            Some(
                match self.error_message {
                    Some(m) => m@,
                    None => "unknown error from api"@,
                },
            )
        } else {
            None
        }
    }

    /// Fails with the reported fault if the envelope reports one.
    pub fn check(&self) -> (r: Result<(), String>)
        ensures
            match r {
                Ok(_) => self.fault() is None,
                Err(m) => self.fault() == Some(m@),
            },
    {
        if self.error {
            match &self.error_message {
                Some(m) => Err(m.clone()),
                None => Err("unknown error from api".to_owned()),
            }
        } else {
            Ok(())
        }
    }
}

fn clone_text(o: &Option<String>) -> (r: Option<String>)
    ensures
        r == *o,
{
    match o {
        Some(s) => Some(s.clone()),
        None => None,
    }
}

impl Clone for Item {
    fn clone(&self) -> (r: Self)
        ensures
            r == *self,
    {
        Item {
            album_id: self.album_id,
            also_collected_count: self.also_collected_count,
            band_id: self.band_id,
            band_name: self.band_name.clone(),
            download_available: self.download_available,
            is_private: self.is_private,
            is_preorder: self.is_preorder,
            is_purchasable: self.is_purchasable,
            is_subscriber_only: self.is_subscriber_only,
            is_subscription_item: self.is_subscription_item,
            item_id: self.item_id,
            item_title: self.item_title.clone(),
            item_type: self.item_type.clone(),
            item_url: self.item_url.clone(),
            purchased: clone_text(&self.purchased),
            tralbum_id: self.tralbum_id,
            tralbum_type: self.tralbum_type.clone(),
            sale_item_id: self.sale_item_id,
            sale_item_type: clone_text(&self.sale_item_type),
        }
    }
}

impl Item {
    /// The line by which the item is shown: title, ` - `, owner.
    pub open spec fn display_text(&self) -> Seq<char> {
        self.item_title@ + " - "@ + self.band_name@
    }

    /// The download key: the kind of the sale followed by its number in
    /// decimal notation. An item that lacks either has no key.
    pub open spec fn key(&self) -> Option<Seq<char>> {
        match (self.sale_item_type, self.sale_item_id) {
            (Some(kind), Some(id)) => Some(kind@ + decimal(id as nat)),
            _ => None,
        }
    }

    /// Whether the item is marked as available for download.
    pub open spec fn is_available(&self) -> bool {
        self.download_available == Some(true)
    }

    /// The line by which the item is shown to the user.
    pub fn display(&self) -> (s: String)
        ensures
            s@ == self.display_text(),
    {
        let mut s = concat_str(self.item_title.as_str(), " - ");
        s.append(self.band_name.as_str());
        s
    }

    /// The key under which the item's authorization address is filed.
    pub fn download_key(&self) -> (r: Option<String>)
        ensures
            match r {
                Some(k) => self.key() == Some(k@),
                None => self.key() is None,
            },
    {
        match (&self.sale_item_type, self.sale_item_id) {
            (Some(kind), Some(id)) => {
                let mut k = kind.clone();
                push_decimal(&mut k, id);
                Some(k)
            },
            _ => None,
        }
    }

    /// The two directory levels under which the item is stored: the owner's
    /// name, and below it the owner's name, a long dash between two spaces,
    /// and the title, each name turned into a path segment. With `windows` the segments also avoid
    /// the names that Windows reserves.
    pub fn to_path(&self, windows: bool) -> (p: ItemPath)
        ensures
            p.artist@ == segment_of(self.band_name@, windows),
            p.album@ == album_segment(
                segment_of(self.band_name@, windows),
                segment_of(self.item_title@, windows),
            ),
            is_clean(p.artist@),
            is_clean(p.album@),
    {
        let artist = sanitize(self.band_name.as_str(), windows);
        let title = sanitize(self.item_title.as_str(), windows);
        proof {
            lemma_album_segment_is_clean(artist@, title@);
        }
        ItemPath::compose(artist, title.as_str())
    }

    /// Whether the item can be downloaded; an item that does not say counts
    /// as one that cannot.
    pub fn download_available(&self) -> (b: bool)
        ensures
            b == self.is_available(),
    {
        match self.download_available {
            Some(b) => b,
            None => false,
        }
    }
}

/// The authorization address of an item: the one filed under its download
/// key, if it has a key and the table holds it.
pub open spec fn token_for(item: Item, urls: Map<Seq<char>, String>) -> Option<String> {
    match item.key() {
        Some(k) => if urls.contains_key(k) {
            Some(urls[k])
        } else {
            None
        },
        None => None,
    }
}

/// The items of `items` that have an authorization address in `urls`, each
/// with its address, in the order of `items`.
pub open spec fn paired(items: Seq<Item>, urls: Map<Seq<char>, String>) -> Seq<(Item, String)>
    decreases items.len(),
{
    if items.len() == 0 {
        Seq::empty()
    } else {
        let rest = paired(items.drop_last(), urls);
        match token_for(items.last(), urls) {
            Some(u) => rest.push((items.last(), u)),
            None => rest,
        }
    }
}

/// The items that `cache` holds for the identifiers of `sequence`, in the
/// order of `sequence`.
pub open spec fn cached(sequence: Seq<String>, cache: Map<Seq<char>, Item>) -> Seq<Item>
    decreases sequence.len(),
{
    if sequence.len() == 0 {
        Seq::empty()
    } else {
        let rest = cached(sequence.drop_last(), cache);
        if cache.contains_key(sequence.last()@) {
            rest.push(cache[sequence.last()@])
        } else {
            rest
        }
    }
}

/// The identifiers of `sequence` for which `cache` holds no item, in the
/// order of `sequence`.
pub open spec fn uncached(sequence: Seq<String>, cache: Map<Seq<char>, Item>) -> Seq<Seq<char>>
    decreases sequence.len(),
{
    if sequence.len() == 0 {
        Seq::empty()
    } else {
        let rest = uncached(sequence.drop_last(), cache);
        if cache.contains_key(sequence.last()@) {
            rest
        } else {
            rest.push(sequence.last()@)
        }
    }
}

/// Every identifier of a sequence either has its item in the cache or is
/// among the identifiers without one.
pub proof fn lemma_cached_or_uncached(sequence: Seq<String>, cache: Map<Seq<char>, Item>)
    ensures
        cached(sequence, cache).len() + uncached(sequence, cache).len() == sequence.len(),
        uncached(sequence, cache).len() == 0 <==> forall|i: int|
            0 <= i < sequence.len() ==> cache.contains_key(#[trigger] sequence[i]@),
    decreases sequence.len(),
{
    if sequence.len() > 0 {
        let front = sequence.drop_last();
        lemma_cached_or_uncached(front, cache);
        if uncached(sequence, cache).len() == 0 {
            assert forall|i: int| 0 <= i < sequence.len() implies cache.contains_key(
                #[trigger] sequence[i]@,
            ) by {
                if i < front.len() {
                    assert(front[i] == sequence[i]);
                }
            }
        }
        if forall|i: int| 0 <= i < sequence.len() ==> cache.contains_key(#[trigger] sequence[i]@) {
            assert forall|i: int| 0 <= i < front.len() implies cache.contains_key(
                #[trigger] front[i]@,
            ) by {
                assert(front[i] == sequence[i]);
            }
            assert(cache.contains_key(sequence[sequence.len() - 1]@));
        }
    }
}

/// Why an item of a listing is not part of the enumeration.
#[derive(Debug, Clone, Copy, PartialEq, Eq, Structural)]
pub enum SkipReason {
    /// The item lacks the kind or the number of its sale, so it has no
    /// download key.
    NoDownloadKey,
    /// The table of authorization addresses does not hold the item's key.
    NoAuthorization,
}

/// Why `item` has no authorization address in `urls`, if it has none.
pub open spec fn exclusion(item: Item, urls: Map<Seq<char>, String>) -> Option<SkipReason> {
    match item.key() {
        None => Some(SkipReason::NoDownloadKey),
        Some(k) => if urls.contains_key(k) {
            None
        } else {
            Some(SkipReason::NoAuthorization)
        },
    }
}

/// The items of `items` that have no authorization address in `urls`, each
/// with the reason, in the order of `items`.
pub open spec fn excluded(items: Seq<Item>, urls: Map<Seq<char>, String>) -> Seq<(Item, SkipReason)>
    decreases items.len(),
{
    if items.len() == 0 {
        Seq::empty()
    } else {
        let rest = excluded(items.drop_last(), urls);
        match exclusion(items.last(), urls) {
            Some(reason) => rest.push((items.last(), reason)),
            None => rest,
        }
    }
}

/// The text of the notice for an item that is not part of the enumeration.
pub open spec fn exclusion_text(item: Item, reason: SkipReason) -> Seq<char> {
    "'"@ + item.display_text() + (match reason {
        SkipReason::NoDownloadKey => "' is left out: it has no download key."@,
        SkipReason::NoAuthorization => "' is left out: no download address was issued for it."@,
    })
}

/// The notice for an item that is not part of the enumeration, with the
/// reason.
pub fn exclusion_notice(item: &Item, reason: SkipReason) -> (s: String)
    ensures
        s@ == exclusion_text(*item, reason),
{
    let mut s = concat_str("'", item.display().as_str());
    match reason {
        SkipReason::NoDownloadKey => {
            s.append("' is left out: it has no download key.");
        },
        SkipReason::NoAuthorization => {
            s.append("' is left out: no download address was issued for it.");
        },
    }
    s
}

/// Every item of a listing is either paired with its address or excluded
/// with a reason, never both.
pub proof fn lemma_paired_or_excluded(items: Seq<Item>, urls: Map<Seq<char>, String>)
    ensures
        paired(items, urls).len() + excluded(items, urls).len() == items.len(),
        forall|i: int|
            0 <= i < items.len() ==> (token_for(#[trigger] items[i], urls) is Some <==> exclusion(
                items[i],
                urls,
            ) is None),
    decreases items.len(),
{
    if items.len() > 0 {
        lemma_paired_or_excluded(items.drop_last(), urls);
    }
}

/// The items of `items` that have no address in `urls`, with the reasons.
pub fn exclude_all(items: &Vec<Item>, urls: &Dictionary<String>) -> (out: Vec<(Item, SkipReason)>)
    ensures
        out@ == excluded(items@, urls@),
{
    let mut out: Vec<(Item, SkipReason)> = Vec::new();
    let mut i: usize = 0;
    while i < items.len()
        invariant
            i <= items.len(),
            out@ == excluded(items@.take(i as int), urls@),
        decreases items.len() - i,
    {
        proof {
            assert(items@.take(i + 1).drop_last() =~= items@.take(i as int));
        }
        match items[i].download_key() {
            None => {
                out.push((items[i].clone(), SkipReason::NoDownloadKey));
            },
            Some(k) => {
                if !urls.contains_key(k.as_str()) {
                    out.push((items[i].clone(), SkipReason::NoAuthorization));
                }
            },
        }
        i = i + 1;
    }
    proof {
        assert(items@.take(items.len() as int) =~= items@);
    }
    out
}

/// The item with its authorization address, if it has one in `urls`.
pub fn pair_for(item: &Item, urls: &Dictionary<String>) -> (r: Option<(Item, String)>)
    ensures
        r == (match token_for(*item, urls@) {
            Some(u) => Some((*item, u)),
            None => None,
        }),
{
    match item.download_key() {
        None => None,
        Some(k) => match urls.get(k.as_str()) {
            None => None,
            Some(u) => Some((item.clone(), u.clone())),
        },
    }
}

/// The items of `items` that have an address in `urls`, each with it.
pub fn pair_all(items: &Vec<Item>, urls: &Dictionary<String>) -> (out: Vec<(Item, String)>)
    ensures
        out@ == paired(items@, urls@),
{
    let mut out: Vec<(Item, String)> = Vec::new();
    let mut i: usize = 0;
    while i < items.len()
        invariant
            i <= items.len(),
            out@ == paired(items@.take(i as int), urls@),
        decreases items.len() - i,
    {
        proof {
            assert(items@.take(i + 1).drop_last() =~= items@.take(i as int));
        }
        match pair_for(&items[i], urls) {
            Some(p) => {
                out.push(p);
            },
            None => {},
        }
        i = i + 1;
    }
    proof {
        assert(items@.take(items.len() as int) =~= items@);
    }
    out
}

impl CollectionItemsResult {
    /// The page's items with their authorization addresses, in listing
    /// order. An item without a download key, or whose key the page's table
    /// does not hold, is left out.
    pub fn iter_collection(&self) -> (r: Vec<(Item, String)>)
        ensures
            r@ == paired(self.items@, self.redownload_urls@),
    {
        pair_all(&self.items, &self.redownload_urls)
    }

    /// The page's items that `iter_collection` leaves out, each with the
    /// reason, in listing order.
    pub fn excluded(&self) -> (r: Vec<(Item, SkipReason)>)
        ensures
            r@ == excluded(self.items@, self.redownload_urls@),
    {
        exclude_all(&self.items, &self.redownload_urls)
    }
}

impl ProfileData {
    /// The items of the first batch, in listing order.
    pub open spec fn first_items(&self) -> Seq<Item> {
        cached(self.collection_data.sequence@, self.item_cache.collection@)
    }

    /// The identifiers of the first batch that the item cache does not
    /// hold, in listing order. A profile for which this is not empty lists
    /// items that it does not describe.
    pub fn missing_ids(&self) -> (ids: Vec<String>)
        ensures
            views_of(ids@) == uncached(self.collection_data.sequence@, self.item_cache.collection@),
    {
        let sequence = &self.collection_data.sequence;
        let mut ids: Vec<String> = Vec::new();
        let mut i: usize = 0;
        while i < sequence.len()
            invariant
                i <= sequence.len(),
                sequence == &self.collection_data.sequence,
                views_of(ids@) == uncached(sequence@.take(i as int), self.item_cache.collection@),
            decreases sequence.len() - i,
        {
            proof {
                assert(sequence@.take(i + 1).drop_last() =~= sequence@.take(i as int));
            }
            let ghost before = ids@;
            if !self.item_cache.collection.contains_key(sequence[i].as_str()) {
                ids.push(sequence[i].clone());
                proof {
                    assert(views_of(ids@) =~= views_of(before).push(sequence@[i as int]@));
                }
            }
            i = i + 1;
        }
        proof {
            assert(sequence@.take(sequence.len() as int) =~= sequence@);
        }
        ids
    }

    /// The items of the first batch, in listing order. An identifier that
    /// the item cache does not hold is passed over; `missing_ids` names it.
    pub fn first_batch(&self) -> (items: Vec<Item>)
        ensures
            items@ == self.first_items(),
    {
        let sequence = &self.collection_data.sequence;
        let mut items: Vec<Item> = Vec::new();
        let mut i: usize = 0;
        while i < sequence.len()
            invariant
                i <= sequence.len(),
                sequence == &self.collection_data.sequence,
                items@ == cached(sequence@.take(i as int), self.item_cache.collection@),
            decreases sequence.len() - i,
        {
            proof {
                assert(sequence@.take(i + 1).drop_last() =~= sequence@.take(i as int));
            }
            match self.item_cache.collection.get(sequence[i].as_str()) {
                Some(item) => {
                    items.push(item.clone());
                },
                None => {},
            }
            i = i + 1;
        }
        proof {
            assert(sequence@.take(sequence.len() as int) =~= sequence@);
        }
        items
    }

    /// The first batch with its authorization addresses, in listing order.
    /// An item without a download key, or whose key the table does not
    /// hold, is left out.
    pub fn iter_collection(&self) -> (r: Vec<(Item, String)>)
        ensures
            r@ == paired(self.first_items(), self.collection_data.redownload_urls@),
    {
        pair_all(&self.first_batch(), &self.collection_data.redownload_urls)
    }

    /// The items of the first batch that `iter_collection` leaves out, each
    /// with the reason, in listing order.
    pub fn excluded(&self) -> (r: Vec<(Item, SkipReason)>)
        ensures
            r@ == excluded(self.first_items(), self.collection_data.redownload_urls@),
    {
        exclude_all(&self.first_batch(), &self.collection_data.redownload_urls)
    }
}

} // verus!
