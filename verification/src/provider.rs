//! The lookups that the video-catalog provider answers, and the addresses
//! at which it answers them.

use vstd::prelude::*;
use vstd::string::*;

verus! {

/// Why a fetch from the provider ended without a result.
#[derive(Clone, Copy, Debug, PartialEq, Eq, Structural)]
pub enum FetchError {
    /// A request was not answered. No request is made a second time.
    Transport,
    /// The answer to the channel lookup names no uploads collection.
    NoUploads,
}

/// A lookup at the provider.
#[derive(Debug)]
pub enum Request {
    /// The channel, for the handle of its uploads collection.
    Channel { channel_id: String },
    /// One page of the uploads collection: the first, or the one that a
    /// cursor leads to.
    PlaylistPage { playlist_id: String, page_token: Option<String> },
    /// The details of a batch of videos, their ids joined by commas.
    Videos { ids: String },
}

/// A `Request` with its texts as sequences of characters.
pub enum RequestView {
    Channel { channel_id: Seq<char> },
    PlaylistPage { playlist_id: Seq<char>, page_token: Option<Seq<char>> },
    Videos { ids: Seq<char> },
}

impl View for Request {
    type V = RequestView;

    open spec fn view(&self) -> RequestView {
        match self {
            Request::Channel { channel_id } => RequestView::Channel { channel_id: channel_id@ },
            Request::PlaylistPage { playlist_id, page_token } => RequestView::PlaylistPage {
                playlist_id: playlist_id@,
                page_token: page_token.deep_view(),
            },
            Request::Videos { ids } => RequestView::Videos { ids: ids@ },
        }
    }
}

/// The address of a lookup, for the given key of the provider's interface.
pub open spec fn url_of(request: RequestView, api_key: Seq<char>) -> Seq<char> {
    match request {
        RequestView::Channel { channel_id } => {
            "https://www.googleapis.com/youtube/v3/channels?part=contentDetails&id="@ + channel_id
                + "&key="@ + api_key
        },
        RequestView::PlaylistPage { playlist_id, page_token } => {
            let first = "https://www.googleapis.com/youtube/v3/playlistItems?part=snippet&playlistId="@
                + playlist_id + "&maxResults=50&key="@ + api_key;
            match page_token {
                Some(token) => first + "&pageToken="@ + token,
                None => first,
            }
        },
        RequestView::Videos { ids } => {
            "https://www.googleapis.com/youtube/v3/videos?part=snippet,contentDetails&id="@ + ids
                + "&key="@ + api_key
        },
    }
}

impl Request {
    /// The address of this lookup, for the given key of the provider's
    /// interface.
    pub fn url(&self, api_key: &str) -> (url: String)
        ensures
            url@ == url_of(self@, api_key@),
    {
        match self {
            Request::Channel { channel_id } => {
                let mut url = String::from_str(
                    "https://www.googleapis.com/youtube/v3/channels?part=contentDetails&id=",
                );
                url.append(channel_id.as_str());
                url.append("&key=");
                url.append(api_key);
                url
            },
            Request::PlaylistPage { playlist_id, page_token } => {
                let mut url = String::from_str(
                    "https://www.googleapis.com/youtube/v3/playlistItems?part=snippet&playlistId=",
                );
                url.append(playlist_id.as_str());
                url.append("&maxResults=50&key=");
                url.append(api_key);
                match page_token {
                    Some(token) => {
                        url.append("&pageToken=");
                        url.append(token.as_str());
                    },
                    None => {},
                }
                url
            },
            Request::Videos { ids } => {
                let mut url = String::from_str(
                    "https://www.googleapis.com/youtube/v3/videos?part=snippet,contentDetails&id=",
                );
                url.append(ids.as_str());
                url.append("&key=");
                url.append(api_key);
                url
            },
        }
    }
}

} // verus!
