use bandcamp_dl::api::types::{
    CollectionData, CollectionItemsRequest, CollectionItemsResult, Download, DownloadData,
    DownloadItem, Format, Item, ItemCache, ProfileData,
};
use bandcamp_dl::api::{
    blob_from_scraped, describe_unavailable, get_download_link, offered_formats, page_data_blob,
    Pagination, Scraped, PAGE_SIZE,
};
use bandcamp_dl::dict::Dictionary;
use bandcamp_dl::http::FetchError;

fn piece(id: u64) -> Item {
    Item {
        album_id: None,
        also_collected_count: 0,
        band_id: 1,
        band_name: "Band".to_string(),
        download_available: Some(true),
        is_private: false,
        is_preorder: false,
        is_purchasable: true,
        is_subscriber_only: false,
        is_subscription_item: false,
        item_id: id,
        item_title: format!("Title {id}"),
        item_type: "album".to_string(),
        item_url: String::new(),
        purchased: None,
        tralbum_id: id,
        tralbum_type: "a".to_string(),
        sale_item_id: Some(id),
        sale_item_type: Some("p".to_string()),
    }
}

fn page_of(first: u64, n: u64, more: bool) -> CollectionItemsResult {
    let mut urls = Dictionary::new();
    let mut items = Vec::new();
    for id in first..first + n {
        items.push(piece(id));
        urls.insert(format!("p{id}"), format!("https://u/{id}"));
    }
    CollectionItemsResult {
        more_available: more,
        items,
        redownload_urls: urls,
        last_token: format!("cursor-{}", first + n),
    }
}

fn profile_of(total: usize, batch: usize, first_batch: u64) -> ProfileData {
    let mut collection = Dictionary::new();
    let mut urls = Dictionary::new();
    let mut sequence = Vec::new();
    for id in 0..first_batch {
        collection.insert(format!("a{id}"), piece(id));
        urls.insert(format!("p{id}"), format!("https://u/{id}"));
        sequence.push(format!("a{id}"));
    }
    ProfileData {
        collection_count: total,
        item_cache: ItemCache { collection, hidden: Dictionary::new(), wishlist: Dictionary::new() },
        collection_data: CollectionData {
            batch_size: batch,
            hidden_items_count: 0,
            last_token: format!("cursor-{first_batch}"),
            item_count: total,
            redownload_urls: urls,
            sequence,
        },
    }
}

/// Runs an enumeration against pages that are served in order, and returns
/// what was found, the cursors that were sent, and the running totals.
fn enumerate(profile: &ProfileData, pages: &[CollectionItemsResult]) -> (Vec<(Item, String)>, Vec<String>, Vec<usize>) {
    let mut state = Pagination::begin(profile);
    let mut cursors = Vec::new();
    let mut totals = Vec::new();
    let mut served = pages.iter();
    loop {
        let sent = match state.next_request(42) {
            None => break,
            Some(request) => {
                assert_eq!(request.fan_id, 42);
                assert_eq!(request.count, 20);
                request.older_than_token.to_string()
            }
        };
        cursors.push(sent);
        let page = served.next().expect("a request beyond the last page");
        totals.push(state.absorb(page));
    }
    (state.into_items(), cursors, totals)
}

#[test]
fn page_size_is_twenty() {
    assert_eq!(PAGE_SIZE, 20);
}

#[test]
fn fifty_pages_give_a_thousand_items() {
    let profile = profile_of(1000, 20, 0);
    let pages: Vec<CollectionItemsResult> =
        (0..50u64).map(|i| page_of(i * 20, 20, i < 49)).collect();
    let (items, cursors, totals) = enumerate(&profile, &pages);
    assert_eq!(items.len(), 1000);
    assert_eq!(cursors.len(), 50);
    assert_eq!(totals.last(), Some(&1000));
    for (i, (item, url)) in items.iter().enumerate() {
        assert_eq!(item.item_id, i as u64);
        assert_eq!(url, &format!("https://u/{i}"));
    }
}

#[test]
fn first_batch_comes_before_the_pages() {
    let profile = profile_of(1000, 20, 20);
    let pages: Vec<CollectionItemsResult> =
        (1..50u64).map(|i| page_of(i * 20, 20, i < 49)).collect();
    let (items, cursors, totals) = enumerate(&profile, &pages);
    assert_eq!(items.len(), 1000);
    assert_eq!(cursors.len(), 49);
    assert_eq!(totals, (2..=50).map(|k| k * 20).collect::<Vec<usize>>());
    let ids: Vec<u64> = items.iter().map(|p| p.0.item_id).collect();
    assert_eq!(ids, (0..1000).collect::<Vec<u64>>());
}

#[test]
fn each_request_carries_the_cursor_of_the_page_before() {
    let profile = profile_of(100, 20, 20);
    let pages = vec![page_of(20, 20, true), page_of(40, 20, true), page_of(60, 5, false)];
    let (_, cursors, _) = enumerate(&profile, &pages);
    assert_eq!(cursors, vec!["cursor-20", "cursor-40", "cursor-60"]);
}

#[test]
fn small_collection_needs_no_request() {
    for (total, batch) in [(0usize, 20usize), (5, 20), (20, 20)] {
        let profile = profile_of(total, batch, total as u64);
        let state = Pagination::begin(&profile);
        assert!(state.finished);
        assert_eq!(state.next_request(1), None::<CollectionItemsRequest>);
        let (items, cursors, _) = enumerate(&profile, &[]);
        assert_eq!(items.len(), total);
        assert!(cursors.is_empty());
    }
}

#[test]
fn declared_total_does_not_end_the_enumeration() {
    let profile = profile_of(21, 20, 20);
    let pages = vec![page_of(20, 20, true), page_of(40, 20, true), page_of(60, 1, false)];
    let (items, cursors, _) = enumerate(&profile, &pages);
    assert_eq!(items.len(), 61);
    assert_eq!(cursors.len(), 3);
}

#[test]
fn empty_page_ends_the_enumeration() {
    let profile = profile_of(1000, 20, 20);
    let pages = vec![page_of(20, 20, true), page_of(40, 0, true), page_of(40, 20, true)];
    let (items, cursors, _) = enumerate(&profile, &pages);
    assert_eq!(items.len(), 40);
    assert_eq!(cursors.len(), 2);
}

#[test]
fn repeated_cursor_ends_the_enumeration() {
    let profile = profile_of(1000, 20, 20);
    let mut stuck = page_of(40, 20, true);
    stuck.last_token = "cursor-40".to_string();
    let pages = vec![page_of(20, 20, true), stuck, page_of(60, 20, true)];
    let (items, cursors, totals) = enumerate(&profile, &pages);
    assert_eq!(cursors, vec!["cursor-20", "cursor-40"]);
    assert_eq!(items.len(), 60);
    assert_eq!(totals, vec![40, 60]);
}

#[test]
fn finished_enumeration_takes_nothing_in() {
    let profile = profile_of(100, 20, 20);
    let mut state = Pagination::begin(&profile);
    assert_eq!(state.absorb(&page_of(20, 3, false)), 23);
    assert!(state.finished);
    let before = state.clone();
    assert_eq!(state.absorb(&page_of(23, 20, true)), 23);
    assert_eq!(state, before);
    assert_eq!(state.pages, 1);
}

#[test]
fn blob_is_found_in_a_page() {
    let html = "<html><body><div id=\"pagedata\" data-blob=\"{&quot;a&quot;:1}\"></div></body></html>";
    assert_eq!(page_data_blob(html), Ok("{\"a\":1}".to_string()));
}

#[test]
fn first_matching_element_counts() {
    let html = "<div id=\"other\" data-blob=\"x\"></div>\
                <p id=\"pagedata\" data-blob=\"no div\"></p>\
                <div id=\"pagedata\" data-blob=\"first\"></div>\
                <div id=\"pagedata\" data-blob=\"second\"></div>";
    assert_eq!(page_data_blob(html), Ok("first".to_string()));
}

#[test]
fn page_without_element_has_no_data() {
    assert_eq!(page_data_blob("<html><body><p>hello</p></body></html>"), Err(FetchError::NoPageData));
    assert_eq!(page_data_blob(""), Err(FetchError::NoPageData));
}

#[test]
fn element_without_attribute_has_no_blob() {
    assert_eq!(
        page_data_blob("<div id=\"pagedata\" data-other=\"x\"></div>"),
        Err(FetchError::NoDataBlob)
    );
}

#[test]
fn scraped_results_map_to_failures() {
    assert_eq!(blob_from_scraped(Scraped::Value("v".to_string())), Ok("v".to_string()));
    assert_eq!(blob_from_scraped(Scraped::NoAttribute), Err(FetchError::NoDataBlob));
    assert_eq!(blob_from_scraped(Scraped::NoElement), Err(FetchError::NoPageData));
    assert_eq!(blob_from_scraped(Scraped::BadSelector), Err(FetchError::NoPageData));
}

fn offer(names: &[&str]) -> DownloadItem {
    let mut downloads = Dictionary::new();
    for n in names {
        downloads.insert(
            n.to_string(),
            Download {
                description: n.to_uppercase(),
                encoding_name: n.to_string(),
                size_mb: Some("10MB".to_string()),
                url: format!("https://cdn/{n}"),
            },
        );
    }
    DownloadItem { downloads }
}

#[test]
fn link_of_the_requested_format() {
    let data = DownloadData { download_items: vec![offer(&["flac", "mp3-320"]), offer(&["wav"])] };
    assert_eq!(get_download_link(&data, Format::Flac), Ok("https://cdn/flac".to_string()));
    assert_eq!(get_download_link(&data, Format::Mp3_320), Ok("https://cdn/mp3-320".to_string()));
}

#[test]
fn only_the_first_download_item_counts() {
    let data = DownloadData { download_items: vec![offer(&["flac"]), offer(&["wav"])] };
    assert_eq!(get_download_link(&data, Format::Wav), Err(FetchError::FormatUnavailable));
    assert_eq!(offered_formats(&data), vec!["flac".to_string()]);
}

#[test]
fn no_download_items_is_a_failure() {
    let data = DownloadData { download_items: vec![] };
    assert_eq!(get_download_link(&data, Format::Flac), Err(FetchError::NoDownloadItems));
    assert!(offered_formats(&data).is_empty());
}

#[test]
fn unavailable_format_lists_what_is_offered() {
    let data = DownloadData { download_items: vec![offer(&["flac", "mp3-v0", "wav"])] };
    assert_eq!(get_download_link(&data, Format::Alac), Err(FetchError::FormatUnavailable));
    assert_eq!(
        describe_unavailable(Format::Alac, &offered_formats(&data)),
        "format alac not available in: flac, mp3-v0, wav"
    );
    assert_eq!(describe_unavailable(Format::Wav, &Vec::new()), "format wav not available in: ");
}
