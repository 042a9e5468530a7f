use pirula_time::catalog::{
    channel_listing, playlist_page, ChannelListing, ChannelLookup, PlaylistPage, PlaylistStep,
};
use pirula_time::provider::{FetchError, Request};
use serde_json::Value;

fn parse(text: &str) -> Value {
    serde_json::from_str(text).unwrap()
}

fn page(from: usize, count: usize, next: Option<&str>) -> PlaylistPage {
    PlaylistPage {
        video_ids: (from..from + count).map(|i| format!("video{}", i)).collect(),
        next_page_token: next.map(|token| token.to_string()),
    }
}

#[test]
fn catalog_of_three_pages_is_read_to_the_page_without_cursor() {
    let pages = vec![page(0, 50, Some("cursor1")), page(50, 50, Some("cursor2")), page(100, 7, None)];
    let lookup = ChannelLookup { channel_id: "channel".to_string() };
    match lookup.request() {
        Request::Channel { channel_id } => assert_eq!(channel_id, "channel"),
        other => panic!("unexpected request {:?}", other),
    }
    let mut walk = lookup.resolve(ChannelListing { uploads: Some("uploads".to_string()) }).unwrap();
    let mut asked_for: Vec<Option<String>> = Vec::new();
    let mut calls = 0;
    let mut fetched: Option<Vec<String>> = None;
    for page in pages {
        match walk.request() {
            Request::PlaylistPage { playlist_id, page_token } => {
                assert_eq!(playlist_id, "uploads");
                asked_for.push(page_token);
            }
            other => panic!("unexpected request {:?}", other),
        }
        calls += 1;
        match walk.advance(page) {
            PlaylistStep::Next(next) => walk = next,
            PlaylistStep::Done(videos) => {
                fetched = Some(videos);
                break;
            }
        }
    }
    let fetched = fetched.unwrap();
    let expected: Vec<String> = (0..107).map(|i| format!("video{}", i)).collect();
    assert_eq!(fetched.len(), 107);
    assert_eq!(fetched, expected);
    assert_eq!(calls, 3);
    assert_eq!(asked_for, vec![None, Some("cursor1".to_string()), Some("cursor2".to_string())]);
}

#[test]
fn catalog_ends_at_the_first_page_without_cursor() {
    let lookup = ChannelLookup { channel_id: "channel".to_string() };
    let walk = lookup.resolve(ChannelListing { uploads: Some("uploads".to_string()) }).unwrap();
    match walk.advance(page(0, 3, None)) {
        PlaylistStep::Done(videos) => assert_eq!(videos, vec!["video0", "video1", "video2"]),
        PlaylistStep::Next(_) => panic!("the walk went on after a page without cursor"),
    }
}

#[test]
fn catalog_keeps_ids_that_come_twice() {
    let lookup = ChannelLookup { channel_id: "channel".to_string() };
    let walk = lookup.resolve(ChannelListing { uploads: Some("uploads".to_string()) }).unwrap();
    let walk = match walk.advance(page(0, 2, Some("again"))) {
        PlaylistStep::Next(next) => next,
        PlaylistStep::Done(_) => panic!("the walk ended at a page with a cursor"),
    };
    match walk.advance(page(1, 2, None)) {
        PlaylistStep::Done(videos) => assert_eq!(videos, vec!["video0", "video1", "video1", "video2"]),
        PlaylistStep::Next(_) => panic!("the walk went on after a page without cursor"),
    }
}

#[test]
fn catalog_of_an_empty_collection_is_empty() {
    let lookup = ChannelLookup { channel_id: "channel".to_string() };
    let walk = lookup.resolve(ChannelListing { uploads: Some("uploads".to_string()) }).unwrap();
    match walk.advance(page(0, 0, None)) {
        PlaylistStep::Done(videos) => assert!(videos.is_empty()),
        PlaylistStep::Next(_) => panic!("the walk went on after a page without cursor"),
    }
}

#[test]
fn catalog_fails_where_the_channel_has_no_uploads_collection() {
    let lookup = ChannelLookup { channel_id: "channel".to_string() };
    assert_eq!(lookup.resolve(ChannelListing { uploads: None }).unwrap_err(), FetchError::NoUploads);
}

#[test]
fn channel_listing_reads_the_uploads_of_the_first_item() {
    let response = parse(
        "{\"items\": [
            {\"contentDetails\": {\"relatedPlaylists\": {\"uploads\": \"UU1\", \"likes\": \"LL1\"}}},
            {\"contentDetails\": {\"relatedPlaylists\": {\"uploads\": \"UU2\"}}}
        ]}",
    );
    assert_eq!(channel_listing(&response).uploads, Some("UU1".to_string()));
}

#[test]
fn channel_listing_without_uploads() {
    assert_eq!(channel_listing(&parse("{}")).uploads, None);
    assert_eq!(channel_listing(&parse("{\"items\": []}")).uploads, None);
    assert_eq!(channel_listing(&parse("{\"items\": [{}]}")).uploads, None);
    assert_eq!(channel_listing(&parse("{\"items\": [{\"contentDetails\": {}}]}")).uploads, None);
    assert_eq!(
        channel_listing(&parse(
            "{\"items\": [{\"contentDetails\": {\"relatedPlaylists\": {\"uploads\": 5}}}]}"
        ))
        .uploads,
        None
    );
    assert_eq!(
        channel_listing(&parse(
            "{\"items\": {\"contentDetails\": {\"relatedPlaylists\": {\"uploads\": \"UU\"}}}}"
        ))
        .uploads,
        None
    );
    assert_eq!(channel_listing(&parse("{\"error\": {\"code\": 403}}")).uploads, None);
}

#[test]
fn playlist_page_reads_ids_in_order_and_the_cursor() {
    let response = parse(
        "{\"nextPageToken\": \"CAUQAA\", \"items\": [
            {\"snippet\": {\"resourceId\": {\"videoId\": \"first\"}}},
            {\"snippet\": {\"resourceId\": {\"videoId\": \"second\"}}},
            {\"snippet\": {\"resourceId\": {\"videoId\": \"third\"}}}
        ]}",
    );
    let page = playlist_page(&response);
    assert_eq!(page.video_ids, vec!["first", "second", "third"]);
    assert_eq!(page.next_page_token, Some("CAUQAA".to_string()));
}

#[test]
fn playlist_page_passes_over_items_without_id() {
    let response = parse(
        "{\"items\": [
            {\"snippet\": {\"resourceId\": {\"videoId\": \"first\"}}},
            {\"snippet\": {\"resourceId\": {}}},
            {\"snippet\": {\"title\": \"no resource\"}},
            {\"snippet\": {\"resourceId\": {\"videoId\": 17}}},
            \"no object\",
            {\"snippet\": {\"resourceId\": {\"videoId\": \"last\"}}}
        ]}",
    );
    let page = playlist_page(&response);
    assert_eq!(page.video_ids, vec!["first", "last"]);
    assert_eq!(page.next_page_token, None);
}

#[test]
fn playlist_page_without_items_or_with_a_cursor_that_is_no_text() {
    let page = playlist_page(&parse("{\"nextPageToken\": 12}"));
    assert!(page.video_ids.is_empty());
    assert_eq!(page.next_page_token, None);
    let page = playlist_page(&parse("{\"nextPageToken\": null, \"items\": \"none\"}"));
    assert!(page.video_ids.is_empty());
    assert_eq!(page.next_page_token, None);
}
