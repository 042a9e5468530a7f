//! The pipeline of one run: the catalog of the channel, the details of its
//! videos, their statistics and the facts derived from them.
//!
//! The pipeline decides and its caller acts: the caller makes the lookup
//! that the pipeline asks for and hands the answer back, until the
//! pipeline hands out what is to be stored, or gives up. Nothing is handed
//! out for storing before every step has succeeded.

use crate::catalog::{
    after_page, channel_listing, page_of, playlist_page, uploads_of, ChannelLookup, PlaylistStep,
    PlaylistWalk, PlaylistWalkView,
};
use crate::details::{
    details_of, durations, items_of, video_items, DetailStep, DetailWalk, VideoDetail,
    VideoDetailView, BATCH_SIZE,
};
use crate::facts::{calculate_pirula_unkowns, facts_of, FactsError, UnkownFacts, UnkownFactsView};
use crate::provider::{FetchError, Request, RequestView};
use crate::stats::{
    in_range, lemma_stored_mean, statistics_of, summarize, truncated_mean, Statistics,
    StatisticsView,
};
use crate::text::join;
use crate::details::batch;
use serde_json::Value;
use vstd::prelude::*;

verus! {

/// Why a run ended with nothing to store.
#[derive(Clone, Copy, Debug, PartialEq, Eq, Structural)]
pub enum PipelineError {
    /// The catalog or the details could not be fetched.
    Fetch(FetchError),
    /// The durations are too many or too long for their statistics.
    OutOfRange,
    /// The mean duration is zero, as it is where the channel has no video:
    /// no fact can be measured in it.
    DivideByZero,
}

/// What a run that succeeded hands out for storing, in place of all that
/// was stored before.
#[derive(Debug)]
pub struct Harvest {
    pub details: Vec<VideoDetail>,
    pub statistics: Statistics,
    pub facts: UnkownFacts,
}

/// A `Harvest` with its texts as sequences of characters.
pub struct HarvestView {
    pub details: Seq<VideoDetailView>,
    pub statistics: StatisticsView,
    pub facts: UnkownFactsView,
}

impl View for Harvest {
    type V = HarvestView;

    open spec fn view(&self) -> HarvestView {
        HarvestView {
            details: self.details.deep_view(),
            statistics: self.statistics@,
            facts: self.facts@,
        }
    }
}

/// A run that waits for the answer to a lookup.
#[derive(Debug)]
pub enum Pipeline {
    /// The channel is being resolved.
    Channel(ChannelLookup),
    /// The uploads collection is being read.
    Playlist(PlaylistWalk),
    /// The details of the videos are being fetched.
    Videos(DetailWalk),
}

/// A `Pipeline` with its texts as sequences of characters.
pub enum PipelineView {
    Channel { channel_id: Seq<char> },
    Playlist(PlaylistWalkView),
    Videos { ids: Seq<Seq<char>>, sent: nat, details: Seq<VideoDetailView> },
}

impl View for Pipeline {
    type V = PipelineView;

    open spec fn view(&self) -> PipelineView {
        match self {
            Pipeline::Channel(lookup) => PipelineView::Channel { channel_id: lookup.channel_id@ },
            Pipeline::Playlist(walk) => PipelineView::Playlist(walk@),
            Pipeline::Videos(walk) => PipelineView::Videos {
                ids: walk.ids(),
                sent: walk.sent(),
                details: walk.details(),
            },
        }
    }
}

/// What the pipeline decides on an answer.
#[derive(Debug)]
pub enum Action {
    /// Make the lookup that this pipeline asks for, and hand its answer to
    /// it.
    Continue(Pipeline),
    /// The run has succeeded: store this.
    Store(Harvest),
    /// The run has failed: store nothing.
    Abort(PipelineError),
}

/// An `Action` with its texts as sequences of characters.
pub enum ActionView {
    Continue(PipelineView),
    Store(HarvestView),
    Abort(PipelineError),
}

impl View for Action {
    type V = ActionView;

    open spec fn view(&self) -> ActionView {
        match self {
            Action::Continue(pipeline) => ActionView::Continue(pipeline@),
            Action::Store(harvest) => ActionView::Store(harvest@),
            Action::Abort(error) => ActionView::Abort(*error),
        }
    }
}

/// The lookup that a pipeline waits for.
pub open spec fn request_of(pipeline: PipelineView) -> RequestView
    recommends
        pipeline matches PipelineView::Videos { ids, sent, .. } ==> sent < ids.len(),
{
    match pipeline {
        PipelineView::Channel { channel_id } => RequestView::Channel { channel_id },
        PipelineView::Playlist(walk) => RequestView::PlaylistPage {
            playlist_id: walk.playlist_id,
            page_token: walk.page_token,
        },
        PipelineView::Videos { ids, sent, details } => RequestView::Videos {
            ids: join(batch(ids, sent), ','),
        },
    }
}

/// The end of a run that has fetched `details`: the statistics and the
/// facts with them are to be stored, unless the statistics are out of range
/// or the mean to divide by is zero.
pub open spec fn analysed(details: Seq<VideoDetailView>) -> ActionView {
    let d = durations(details);
    if !in_range(d) {
        ActionView::Abort(PipelineError::OutOfRange)
    } else if truncated_mean(d) == 0 {
        ActionView::Abort(PipelineError::DivideByZero)
    } else {
        ActionView::Store(
            HarvestView {
                details,
                statistics: statistics_of(d),
                facts: facts_of(truncated_mean(d)),
            },
        )
    }
}

/// What follows the catalog `ids`: the first batch of details, or the end
/// of the run where the catalog is empty.
pub open spec fn catalogued(ids: Seq<Seq<char>>) -> ActionView {
    if ids.len() == 0 {
        analysed(Seq::empty())
    } else {
        ActionView::Continue(PipelineView::Videos { ids, sent: 0, details: Seq::empty() })
    }
}

/// What the pipeline decides on the answer to its lookup, or on none where
/// the lookup failed.
pub open spec fn advanced(pipeline: PipelineView, reply: Option<Value>) -> ActionView {
    match reply {
        None => ActionView::Abort(PipelineError::Fetch(FetchError::Transport)),
        Some(response) => match pipeline {
            PipelineView::Channel { channel_id } => match uploads_of(response) {
                Some(handle) => ActionView::Continue(
                    PipelineView::Playlist(
                        PlaylistWalkView {
                            playlist_id: handle,
                            page_token: None,
                            videos: Seq::empty(),
                        },
                    ),
                ),
                None => ActionView::Abort(PipelineError::Fetch(FetchError::NoUploads)),
            },
            PipelineView::Playlist(walk) => match page_of(response).next_page_token {
                Some(_) => ActionView::Continue(
                    PipelineView::Playlist(after_page(walk, page_of(response))),
                ),
                None => catalogued(walk.videos + page_of(response).video_ids),
            },
            PipelineView::Videos { ids, sent, details } => {
                if sent + BATCH_SIZE < ids.len() {
                    ActionView::Continue(
                        PipelineView::Videos {
                            ids,
                            sent: sent + BATCH_SIZE as nat,
                            details: details + details_of(items_of(response)),
                        },
                    )
                } else {
                    analysed(details + details_of(items_of(response)))
                }
            },
        },
    }
}

/// Ends a run that has fetched `details`: computes the statistics and
/// derives the facts.
pub fn analyse(details: Vec<VideoDetail>) -> (action: Action)
    ensures
        action@ == analysed(details.deep_view()),
{
    let ghost d = durations(details.deep_view());
    let statistics = match summarize(&details) {
        Some(statistics) => statistics,
        None => {
            return Action::Abort(PipelineError::OutOfRange);
        },
    };
    proof {
        lemma_stored_mean(d);
    }
    match calculate_pirula_unkowns(&statistics) {
        Ok(facts) => Action::Store(Harvest { details, statistics, facts }),
        Err(_) => Action::Abort(PipelineError::DivideByZero),
    }
}

/// Goes on from the catalog `ids` to the details.
fn catalogue(ids: Vec<String>) -> (action: Action)
    ensures
        action@ == catalogued(ids.deep_view()),
{
    match DetailWalk::start(ids) {
        DetailStep::Next(walk) => Action::Continue(Pipeline::Videos(walk)),
        DetailStep::Done(details) => {
            assert(details.deep_view() =~= Seq::<VideoDetailView>::empty());
            analyse(details)
        },
    }
}

impl Pipeline {
    /// The run for a channel, before its first lookup.
    pub fn new(channel_id: String) -> (pipeline: Pipeline)
        ensures
            pipeline@ == (PipelineView::Channel { channel_id: channel_id@ }),
    {
        Pipeline::Channel(ChannelLookup { channel_id })
    }

    /// The lookup that the pipeline waits for.
    pub fn request(&self) -> (request: Request)
        ensures
            request@ == request_of(self@),
    {
        match self {
            Pipeline::Channel(lookup) => lookup.request(),
            Pipeline::Playlist(walk) => walk.request(),
            Pipeline::Videos(walk) => walk.request(),
        }
    }

    /// Takes the answer to the lookup that the pipeline waits for, or none
    /// where the lookup failed, and decides how the run goes on.
    pub fn advance(self, reply: Option<&Value>) -> (action: Action)
        ensures
            action@ == advanced(
                self@,
                match reply {
                    Some(response) => Some(*response),
                    None => None,
                },
            ),
    {
        let response = match reply {
            Some(response) => response,
            None => {
                return Action::Abort(PipelineError::Fetch(FetchError::Transport));
            },
        };
        match self {
            Pipeline::Channel(lookup) => match lookup.resolve(channel_listing(response)) {
                Ok(walk) => Action::Continue(Pipeline::Playlist(walk)),
                Err(error) => Action::Abort(PipelineError::Fetch(error)),
            },
            Pipeline::Playlist(walk) => match walk.advance(playlist_page(response)) {
                PlaylistStep::Next(walk) => Action::Continue(Pipeline::Playlist(walk)),
                PlaylistStep::Done(ids) => catalogue(ids),
            },
            Pipeline::Videos(walk) => {
                let items = video_items(response);
                match walk.advance(&items) {
                    DetailStep::Next(walk) => Action::Continue(Pipeline::Videos(walk)),
                    DetailStep::Done(details) => analyse(details),
                }
            },
        }
    }
}

} // verus!
