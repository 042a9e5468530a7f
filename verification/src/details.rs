//! The detail fetcher: what is known of one video, and how the details of
//! many are asked for in batches.

use crate::duration::{iso_seconds, parse_iso_duration};
use crate::json::{elements_at, json_elements_at, json_text_at, keys_of, text_at};
use crate::provider::{Request, RequestView};
use crate::text::{join, join_range};
use serde_json::Value;
use vstd::prelude::*;
use vstd::string::*;

verus! {

/// What is known of one video.
#[derive(Debug)]
pub struct VideoDetail {
    pub video_id: String,
    pub video_title: String,
    /// The length of the video, in seconds.
    pub duration: u64,
    /// When the video was published, as the provider wrote it.
    pub published_at: String,
}

/// A `VideoDetail` with its texts as sequences of characters.
pub struct VideoDetailView {
    pub video_id: Seq<char>,
    pub video_title: Seq<char>,
    pub duration: nat,
    pub published_at: Seq<char>,
}

impl View for VideoDetail {
    type V = VideoDetailView;

    open spec fn view(&self) -> VideoDetailView {
        VideoDetailView {
            video_id: self.video_id@,
            video_title: self.video_title@,
            duration: self.duration as nat,
            published_at: self.published_at@,
        }
    }
}

impl DeepView for VideoDetail {
    type V = VideoDetailView;

    open spec fn deep_view(&self) -> VideoDetailView {
        self@
    }
}

/// The durations of the videos, in order.
pub open spec fn durations(videos: Seq<VideoDetailView>) -> Seq<nat> {
    videos.map_values(|video: VideoDetailView| video.duration)
}

/// One item of the answer to a batched lookup: each field as the provider
/// gave it, or absent.
#[derive(Debug)]
pub struct VideoItem {
    pub id: Option<String>,
    pub title: Option<String>,
    pub published_at: Option<String>,
    /// The duration, in the form `PT1H2M3S`.
    pub duration: Option<String>,
}

/// A `VideoItem` with its texts as sequences of characters.
pub struct VideoItemView {
    pub id: Option<Seq<char>>,
    pub title: Option<Seq<char>>,
    pub published_at: Option<Seq<char>>,
    pub duration: Option<Seq<char>>,
}

impl View for VideoItem {
    type V = VideoItemView;

    open spec fn view(&self) -> VideoItemView {
        VideoItemView {
            id: self.id.deep_view(),
            title: self.title.deep_view(),
            published_at: self.published_at.deep_view(),
            duration: self.duration.deep_view(),
        }
    }
}

impl DeepView for VideoItem {
    type V = VideoItemView;

    open spec fn deep_view(&self) -> VideoItemView {
        self@
    }
}

/// How many ids one batched lookup holds at most.
pub const BATCH_SIZE: usize = 50;

/// The item that a JSON value of the provider stands for: the texts under
/// `id`, `snippet.title`, `snippet.publishedAt` and
/// `contentDetails.duration`.
pub open spec fn item_of(value: Value) -> VideoItemView {
    VideoItemView {
        id: json_text_at(value, seq!["id"@]),
        title: json_text_at(value, seq!["snippet"@, "title"@]),
        published_at: json_text_at(value, seq!["snippet"@, "publishedAt"@]),
        duration: json_text_at(value, seq!["contentDetails"@, "duration"@]),
    }
}

/// The items in the answer to a batched lookup: those under `items`, in
/// their order.
pub open spec fn items_of(response: Value) -> Seq<VideoItemView> {
    json_elements_at(response, seq!["items"@]).map_values(|value: Value| item_of(value))
}

/// The text, or the empty text where it is absent.
pub open spec fn text_or_empty(text: Option<Seq<char>>) -> Seq<char> {
    match text {
        Some(t) => t,
        None => Seq::empty(),
    }
}

/// The seconds of a duration as the provider gave it: 0 where it is absent
/// and 0 where it cannot be read.
pub open spec fn seconds_or_zero(duration: Option<Seq<char>>) -> nat {
    match duration {
        Some(text) => match iso_seconds(text) {
            Ok(seconds) => seconds as nat,
            Err(_) => 0,
        },
        None => 0,
    }
}

/// What is known of the video of an item. A field that the item lacks is
/// empty; a duration that it lacks, or that cannot be read, is 0.
pub open spec fn detail_of(item: VideoItemView) -> VideoDetailView {
    VideoDetailView {
        video_id: text_or_empty(item.id),
        video_title: text_or_empty(item.title),
        duration: seconds_or_zero(item.duration),
        published_at: text_or_empty(item.published_at),
    }
}

/// What was found wrong with a field of an item, and made good with a
/// default. None of these is an error.
#[derive(Clone, Copy, Debug, PartialEq, Eq, Structural)]
pub enum FieldNote {
    /// The item has no title.
    TitleMissing,
    /// The item has no date of publication.
    PublishedAtMissing,
    /// The item has no duration.
    DurationMissing,
    /// The item has a duration that cannot be read.
    DurationUnreadable,
}

/// The one note, or none.
pub open spec fn note_if(noted: bool, note: FieldNote) -> Seq<FieldNote> {
    if noted {
        seq![note]
    } else {
        Seq::empty()
    }
}

/// The notes on the fields of an item that `detail_of` makes good: on the
/// title, then the date, then the duration.
pub open spec fn notes_of(item: VideoItemView) -> Seq<FieldNote> {
    note_if(item.title is None, FieldNote::TitleMissing) + note_if(
        item.published_at is None,
        FieldNote::PublishedAtMissing,
    ) + note_if(item.duration is None, FieldNote::DurationMissing) + note_if(
        item.duration matches Some(text) && iso_seconds(text) is Err,
        FieldNote::DurationUnreadable,
    )
}

/// What is known of the videos of the items, in the order of the items.
pub open spec fn details_of(items: Seq<VideoItemView>) -> Seq<VideoDetailView> {
    items.map_values(|item: VideoItemView| detail_of(item))
}

/// The ids of the batch that begins at `from`: the next `BATCH_SIZE` ids, or
/// those that are left.
pub open spec fn batch(ids: Seq<Seq<char>>, from: nat) -> Seq<Seq<char>>
    recommends
        from <= ids.len(),
{
    if from + BATCH_SIZE <= ids.len() {
        ids.subrange(from as int, from + BATCH_SIZE)
    } else {
        ids.subrange(from as int, ids.len() as int)
    }
}

/// How many batched lookups the details of `count` videos take.
pub open spec fn batches(count: nat) -> nat {
    (count + BATCH_SIZE - 1) as nat / (BATCH_SIZE as nat)
}

/// Reads one item of the answer to a batched lookup.
pub fn video_item(value: &Value) -> (item: VideoItem)
    ensures
        item@ == item_of(*value),
{
    let id_path: [&str; 1] = ["id"];
    let title_path: [&str; 2] = ["snippet", "title"];
    let published_path: [&str; 2] = ["snippet", "publishedAt"];
    let duration_path: [&str; 2] = ["contentDetails", "duration"];
    assert(keys_of(id_path@) =~= seq!["id"@]);
    assert(keys_of(title_path@) =~= seq!["snippet"@, "title"@]);
    assert(keys_of(published_path@) =~= seq!["snippet"@, "publishedAt"@]);
    assert(keys_of(duration_path@) =~= seq!["contentDetails"@, "duration"@]);
    VideoItem {
        id: text_at(value, id_path.as_slice()),
        title: text_at(value, title_path.as_slice()),
        published_at: text_at(value, published_path.as_slice()),
        duration: text_at(value, duration_path.as_slice()),
    }
}

/// Reads the answer to a batched lookup.
pub fn video_items(response: &Value) -> (items: Vec<VideoItem>)
    ensures
        items.deep_view() == items_of(*response),
{
    let items_path: [&str; 1] = ["items"];
    assert(keys_of(items_path@) =~= seq!["items"@]);
    let values = elements_at(response, items_path.as_slice());
    let mut items: Vec<VideoItem> = Vec::new();
    let mut i: usize = 0;
    while i < values.len()
        invariant
            i <= values.len(),
            items.len() == i,
            forall|k: int| 0 <= k < i ==> (#[trigger] items[k])@ == item_of(values@[k]),
        decreases values.len() - i,
    {
        items.push(video_item(&values[i]));
        i = i + 1;
    }
    assert(items.deep_view() =~= items_of(*response));
    items
}

/// The text, or the empty text where it is absent.
fn owned_or_empty(text: &Option<String>) -> (owned: String)
    ensures
        owned@ == text_or_empty(text.deep_view()),
{
    match text {
        Some(t) => t.clone(),
        None => String::new(),
    }
}

/// What is known of the video of an item.
pub fn video_detail(item: &VideoItem) -> (detail: VideoDetail)
    ensures
        detail@ == detail_of(item@),
{
    let duration: u64 = match &item.duration {
        Some(text) => match parse_iso_duration(text.as_str()) {
            Ok(seconds) => seconds,
            Err(_) => 0,
        },
        None => 0,
    };
    VideoDetail {
        video_id: owned_or_empty(&item.id),
        video_title: owned_or_empty(&item.title),
        duration,
        published_at: owned_or_empty(&item.published_at),
    }
}

/// The notes on the fields of an item that `video_detail` makes good.
pub fn field_notes(item: &VideoItem) -> (notes: Vec<FieldNote>)
    ensures
        notes@ == notes_of(item@),
{
    let mut notes: Vec<FieldNote> = Vec::new();
    if item.title.is_none() {
        notes.push(FieldNote::TitleMissing);
    }
    if item.published_at.is_none() {
        notes.push(FieldNote::PublishedAtMissing);
    }
    match &item.duration {
        None => {
            notes.push(FieldNote::DurationMissing);
        },
        Some(text) => {
            if parse_iso_duration(text.as_str()).is_err() {
                notes.push(FieldNote::DurationUnreadable);
            }
        },
    }
    assert(notes@ =~= notes_of(item@));
    notes
}

/// The fetch of the details of a list of videos, batch by batch: one more
/// batch is still to be asked for.
#[derive(Debug)]
pub struct DetailWalk {
    ids: Vec<String>,
    sent: usize,
    details: Vec<VideoDetail>,
}

/// Where a walk stands after a batch: at the next batch, or at its end with
/// the details of all videos.
#[derive(Debug)]
pub enum DetailStep {
    Next(DetailWalk),
    Done(Vec<VideoDetail>),
}

impl DetailWalk {
    #[verifier::type_invariant]
    spec fn pending(self) -> bool {
        self.sent < self.ids.len()
    }

    /// The ids of all videos that the walk is for.
    pub closed spec fn ids(&self) -> Seq<Seq<char>> {
        self.ids.deep_view()
    }

    /// How many ids the batches before the pending one have held.
    pub closed spec fn sent(&self) -> nat {
        self.sent as nat
    }

    /// The details that the batches before the pending one have given.
    pub closed spec fn details(&self) -> Seq<VideoDetailView> {
        self.details.deep_view()
    }

    /// Begins the fetch for `ids`: at the first batch, or done at once with
    /// no details where there is no id.
    pub fn start(ids: Vec<String>) -> (step: DetailStep)
        ensures
            if ids.len() == 0 {
                step matches DetailStep::Done(details) && details.len() == 0
            } else {
                step matches DetailStep::Next(walk) && walk.ids() == ids.deep_view() && walk.sent()
                    == 0 && walk.details() == Seq::<VideoDetailView>::empty()
            },
    {
        let details: Vec<VideoDetail> = Vec::new();
        if ids.len() == 0 {
            DetailStep::Done(details)
        } else {
            assert(details.deep_view() =~= Seq::<VideoDetailView>::empty());
            DetailStep::Next(DetailWalk { ids, sent: 0, details })
        }
    }

    /// The lookup of the pending batch: its ids, joined by commas.
    pub fn request(&self) -> (request: Request)
        ensures
            self.sent() < self.ids().len(),
            request@ == (RequestView::Videos { ids: join(batch(self.ids(), self.sent()), ',') }),
    {
        proof {
            use_type_invariant(self);
            reveal_strlit(",");
        }
        let to: usize = if self.ids.len() - self.sent >= BATCH_SIZE {
            self.sent + BATCH_SIZE
        } else {
            self.ids.len()
        };
        Request::Videos { ids: join_range(&self.ids, self.sent, to, ",") }
    }

    /// Takes the items that the pending batch gave. Their details are
    /// added, in the order of the items, to those of the batches before.
    /// Where ids are left the walk goes on to the next batch; else it is
    /// done.
    pub fn advance(self, items: &Vec<VideoItem>) -> (step: DetailStep)
        ensures
            if self.sent() + BATCH_SIZE < self.ids().len() {
                step matches DetailStep::Next(walk) && walk.ids() == self.ids() && walk.sent()
                    == self.sent() + BATCH_SIZE && walk.details() == self.details() + details_of(
                    items.deep_view(),
                )
            } else {
                step matches DetailStep::Done(details) && details.deep_view() == self.details()
                    + details_of(items.deep_view())
            },
    {
        proof {
            use_type_invariant(&self);
        }
        let ghost before = self.details.deep_view();
        let DetailWalk { ids, sent, details } = self;
        let mut details = details;
        let mut i: usize = 0;
        while i < items.len()
            invariant
                i <= items.len(),
                details.len() == before.len() + i,
                forall|k: int| 0 <= k < before.len() ==> (#[trigger] details[k])@ == before[k],
                forall|k: int|
                    before.len() <= k < details.len() ==> (#[trigger] details[k])@ == detail_of(
                        items[k - before.len()]@,
                    ),
            decreases items.len() - i,
        {
            details.push(video_detail(&items[i]));
            i = i + 1;
        }
        proof {
            let after = before + details_of(items.deep_view());
            assert(details.deep_view().len() == after.len());
            assert forall|k: int| 0 <= k < after.len() implies details.deep_view()[k] == after[k] by {
                if k >= before.len() {
                    assert(details[k]@ == detail_of(items[k - before.len()]@));
                    assert(items.deep_view()[k - before.len()] == items[k - before.len()]@);
                } else {
                    assert(details[k]@ == before[k]);
                }
            }
            assert(details.deep_view() =~= after);
        }
        if ids.len() - sent > BATCH_SIZE {
            DetailStep::Next(DetailWalk { ids, sent: sent + BATCH_SIZE, details })
        } else {
            DetailStep::Done(details)
        }
    }
}

/// The batches of a walk are `batches(count)` many: each but the last holds
/// `BATCH_SIZE` ids, and after one batch there is one batch less to come.
pub proof fn lemma_batches(count: nat, sent: nat)
    requires
        sent < count,
    ensures
        batches(0) == 0,
        batches((count - sent) as nat) >= 1,
        sent + BATCH_SIZE < count ==> batches((count - sent - BATCH_SIZE) as nat) + 1 == batches(
            (count - sent) as nat,
        ),
        sent + BATCH_SIZE >= count ==> batches((count - sent) as nat) == 1,
{
}

} // verus!
