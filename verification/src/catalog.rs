//! The catalog fetcher: the ids of all videos of a channel, in the order in
//! which the provider lists them.
//!
//! The channel is first asked for the handle of its uploads collection. The
//! collection is then read page by page, each page naming the cursor of the
//! next, until a page names none.

use crate::json::{elements_at, json_elements_at, json_text_at, keys_of, text_at};
use crate::provider::{FetchError, Request, RequestView};
use serde_json::Value;
use vstd::prelude::*;

verus! {

/// The answer to the channel lookup: the handle of the uploads collection,
/// where the answer names one.
#[derive(Debug)]
pub struct ChannelListing {
    pub uploads: Option<String>,
}

/// One page of the uploads collection: the ids of its videos, and the
/// cursor of the next page where there is one.
#[derive(Debug)]
pub struct PlaylistPage {
    pub video_ids: Vec<String>,
    pub next_page_token: Option<String>,
}

/// A `PlaylistPage` with its texts as sequences of characters.
pub struct PlaylistPageView {
    pub video_ids: Seq<Seq<char>>,
    pub next_page_token: Option<Seq<char>>,
}

impl View for PlaylistPage {
    type V = PlaylistPageView;

    open spec fn view(&self) -> PlaylistPageView {
        PlaylistPageView {
            video_ids: self.video_ids.deep_view(),
            next_page_token: self.next_page_token.deep_view(),
        }
    }
}

/// The handle of the uploads collection in the answer to a channel lookup:
/// the text under `contentDetails.relatedPlaylists.uploads` of the first of
/// its `items`.
pub open spec fn uploads_of(response: Value) -> Option<Seq<char>> {
    let items = json_elements_at(response, seq!["items"@]);
    if items.len() > 0 {
        json_text_at(items[0], seq!["contentDetails"@, "relatedPlaylists"@, "uploads"@])
    } else {
        None
    }
}

/// The texts that stand in the items under the keys, in the order of the
/// items; an item without such a text gives none.
pub open spec fn texts_in(items: Seq<Value>, keys: Seq<Seq<char>>) -> Seq<Seq<char>>
    decreases items.len(),
{
    if items.len() == 0 {
        Seq::empty()
    } else {
        match json_text_at(items.last(), keys) {
            Some(text) => texts_in(items.drop_last(), keys).push(text),
            None => texts_in(items.drop_last(), keys),
        }
    }
}

/// The page in an answer of the uploads collection: the texts under
/// `snippet.resourceId.videoId` of its `items`, and the text under
/// `nextPageToken`.
pub open spec fn page_of(response: Value) -> PlaylistPageView {
    PlaylistPageView {
        video_ids: texts_in(
            json_elements_at(response, seq!["items"@]),
            seq!["snippet"@, "resourceId"@, "videoId"@],
        ),
        next_page_token: json_text_at(response, seq!["nextPageToken"@]),
    }
}

/// Reads the answer to a channel lookup.
pub fn channel_listing(response: &Value) -> (listing: ChannelListing)
    ensures
        listing.uploads.deep_view() == uploads_of(*response),
{
    let items_path: [&str; 1] = ["items"];
    let uploads_path: [&str; 3] = ["contentDetails", "relatedPlaylists", "uploads"];
    assert(keys_of(items_path@) =~= seq!["items"@]);
    assert(keys_of(uploads_path@) =~= seq!["contentDetails"@, "relatedPlaylists"@, "uploads"@]);
    let items = elements_at(response, items_path.as_slice());
    if items.len() > 0 {
        ChannelListing { uploads: text_at(&items[0], uploads_path.as_slice()) }
    } else {
        ChannelListing { uploads: None }
    }
}

/// Reads one page of the uploads collection.
pub fn playlist_page(response: &Value) -> (page: PlaylistPage)
    ensures
        page@ == page_of(*response),
{
    let items_path: [&str; 1] = ["items"];
    let id_path: [&str; 3] = ["snippet", "resourceId", "videoId"];
    let token_path: [&str; 1] = ["nextPageToken"];
    assert(keys_of(items_path@) =~= seq!["items"@]);
    assert(keys_of(id_path@) =~= seq!["snippet"@, "resourceId"@, "videoId"@]);
    assert(keys_of(token_path@) =~= seq!["nextPageToken"@]);
    let ghost keys = keys_of(id_path@);
    let items = elements_at(response, items_path.as_slice());
    let mut video_ids: Vec<String> = Vec::new();
    let mut i: usize = 0;
    assert(items@.subrange(0, 0) =~= Seq::<Value>::empty());
    while i < items.len()
        invariant
            i <= items.len(),
            keys == keys_of(id_path@),
            video_ids.deep_view() == texts_in(items@.subrange(0, i as int), keys),
        decreases items.len() - i,
    {
        let ghost before = video_ids.deep_view();
        assert(items@.subrange(0, i + 1).drop_last() =~= items@.subrange(0, i as int));
        match text_at(&items[i], id_path.as_slice()) {
            Some(id) => {
                video_ids.push(id);
                assert(video_ids.deep_view() =~= before.push(id@));
            },
            None => {},
        }
        i = i + 1;
    }
    assert(items@.subrange(0, items.len() as int) =~= items@);
    PlaylistPage { video_ids, next_page_token: text_at(response, token_path.as_slice()) }
}

/// The first step of a fetch: the channel is still to be asked for its
/// uploads collection.
#[derive(Debug)]
pub struct ChannelLookup {
    pub channel_id: String,
}

/// The later steps of a fetch: the uploads collection is being read, and
/// one more page of it is still to be asked for.
#[derive(Debug)]
pub struct PlaylistWalk {
    /// The handle of the uploads collection.
    pub playlist_id: String,
    /// The cursor of the page to ask for; none before the first page.
    pub page_token: Option<String>,
    /// The ids of the pages read so far.
    pub videos: Vec<String>,
}

/// A `PlaylistWalk` with its texts as sequences of characters.
pub struct PlaylistWalkView {
    pub playlist_id: Seq<char>,
    pub page_token: Option<Seq<char>>,
    pub videos: Seq<Seq<char>>,
}

impl View for PlaylistWalk {
    type V = PlaylistWalkView;

    open spec fn view(&self) -> PlaylistWalkView {
        PlaylistWalkView {
            playlist_id: self.playlist_id@,
            page_token: self.page_token.deep_view(),
            videos: self.videos.deep_view(),
        }
    }
}

/// Where a walk stands after a page: at the next page, or at its end with
/// the ids of all videos.
#[derive(Debug)]
pub enum PlaylistStep {
    Next(PlaylistWalk),
    Done(Vec<String>),
}

/// The walk that has read `page` after `walk.videos`: the ids of the page
/// follow those read before, and the walk goes on exactly where the page
/// names a cursor.
pub open spec fn after_page(walk: PlaylistWalkView, page: PlaylistPageView) -> PlaylistWalkView {
    PlaylistWalkView {
        playlist_id: walk.playlist_id,
        page_token: page.next_page_token,
        videos: walk.videos + page.video_ids,
    }
}

/// The walk that has read the pages in turn, each of them naming a cursor.
pub open spec fn after_pages(walk: PlaylistWalkView, pages: Seq<PlaylistPageView>)
    -> PlaylistWalkView
    decreases pages.len(),
{
    if pages.len() == 0 {
        walk
    } else {
        after_page(after_pages(walk, pages.drop_last()), pages.last())
    }
}

/// The ids of the pages, page after page.
pub open spec fn ids_of(pages: Seq<PlaylistPageView>) -> Seq<Seq<char>>
    decreases pages.len(),
{
    if pages.len() == 0 {
        Seq::empty()
    } else {
        ids_of(pages.drop_last()) + pages.last().video_ids
    }
}

/// A walk that has read pages holds the ids that it held before and then
/// those of the pages, in the order of the pages, and is still in the same
/// collection.
pub proof fn lemma_after_pages(walk: PlaylistWalkView, pages: Seq<PlaylistPageView>)
    ensures
        after_pages(walk, pages).videos == walk.videos + ids_of(pages),
        after_pages(walk, pages).playlist_id == walk.playlist_id,
    decreases pages.len(),
{
    if pages.len() > 0 {
        lemma_after_pages(walk, pages.drop_last());
    }
    assert(after_pages(walk, pages).videos =~= walk.videos + ids_of(pages));
}

impl ChannelLookup {
    /// The lookup that resolves the channel.
    pub fn request(&self) -> (request: Request)
        ensures
            request@ == (RequestView::Channel { channel_id: self.channel_id@ }),
    {
        Request::Channel { channel_id: self.channel_id.clone() }
    }

    /// Takes the answer to the channel lookup: the walk through the uploads
    /// collection begins, before its first page, or the fetch fails because
    /// the answer names no uploads collection.
    pub fn resolve(self, listing: ChannelListing) -> (walk: Result<PlaylistWalk, FetchError>)
        ensures
            match listing.uploads.deep_view() {
                Some(handle) => walk matches Ok(w) && w@ == (PlaylistWalkView {
                    playlist_id: handle,
                    page_token: None,
                    videos: Seq::empty(),
                }),
                None => walk matches Err(e) && e == FetchError::NoUploads,
            },
    {
        match listing.uploads {
            Some(playlist_id) => {
                let videos: Vec<String> = Vec::new();
                assert(videos.deep_view() =~= Seq::<Seq<char>>::empty());
                Ok(PlaylistWalk { playlist_id, page_token: None, videos })
            },
            None => Err(FetchError::NoUploads),
        }
    }
}

impl PlaylistWalk {
    /// The lookup of the page at which the walk stands.
    pub fn request(&self) -> (request: Request)
        ensures
            request@ == (RequestView::PlaylistPage {
                playlist_id: self@.playlist_id,
                page_token: self@.page_token,
            }),
    {
        Request::PlaylistPage {
            playlist_id: self.playlist_id.clone(),
            page_token: self.page_token.clone(),
        }
    }

    /// Takes the page that was asked for. Its ids are added, in their
    /// order, to those of the pages before. Where the page names a cursor
    /// the walk goes on to the page it leads to; where it names none the
    /// walk is done, and no further page is asked for.
    pub fn advance(self, page: PlaylistPage) -> (step: PlaylistStep)
        ensures
            match page@.next_page_token {
                Some(_) => step matches PlaylistStep::Next(w) && w@ == after_page(self@, page@),
                None => step matches PlaylistStep::Done(videos) && videos.deep_view() == self@.videos
                    + page@.video_ids,
            },
    {
        let ghost before = self@.videos;
        let ghost added = page@.video_ids;
        let PlaylistWalk { playlist_id, page_token: _, videos } = self;
        let PlaylistPage { video_ids, next_page_token } = page;
        let mut videos = videos;
        let mut video_ids = video_ids;
        videos.append(&mut video_ids);
        assert(videos.deep_view() =~= before + added);
        match next_page_token {
            Some(token) => PlaylistStep::Next(
                PlaylistWalk { playlist_id, page_token: Some(token), videos },
            ),
            None => PlaylistStep::Done(videos),
        }
    }
}

} // verus!
