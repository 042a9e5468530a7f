use pirula_time::details::{
    field_notes, video_detail, video_items, DetailStep, DetailWalk, FieldNote, VideoItem,
};
use pirula_time::provider::Request;
use serde_json::Value;

fn parse(text: &str) -> Value {
    serde_json::from_str(text).unwrap()
}

fn item(id: &str, duration: Option<&str>) -> VideoItem {
    VideoItem {
        id: Some(id.to_string()),
        title: Some(format!("title of {}", id)),
        published_at: Some("2021-03-04T05:06:07Z".to_string()),
        duration: duration.map(|d| d.to_string()),
    }
}

fn ids_of(request: &Request) -> Vec<String> {
    match request {
        Request::Videos { ids } => ids.split(',').map(|id| id.to_string()).collect(),
        other => panic!("unexpected request {:?}", other),
    }
}

#[test]
fn details_of_120_videos_take_three_batches() {
    let ids: Vec<String> = (0..120).map(|i| format!("video{}", i)).collect();
    let mut step = DetailWalk::start(ids.clone());
    let mut sizes = Vec::new();
    let mut asked_for: Vec<String> = Vec::new();
    let details = loop {
        match step {
            DetailStep::Done(details) => break details,
            DetailStep::Next(walk) => {
                let batch = ids_of(&walk.request());
                sizes.push(batch.len());
                let items: Vec<VideoItem> = batch
                    .iter()
                    .map(|id| item(id, if id == "video57" { None } else { Some("PT1M5S") }))
                    .collect();
                asked_for.extend(batch);
                step = walk.advance(&items);
            }
        }
    };
    assert_eq!(sizes, vec![50, 50, 20]);
    assert_eq!(asked_for, ids);
    assert_eq!(details.len(), 120);
    for (i, detail) in details.iter().enumerate() {
        assert_eq!(detail.video_id, format!("video{}", i));
        assert_eq!(detail.video_title, format!("title of video{}", i));
        assert_eq!(detail.published_at, "2021-03-04T05:06:07Z");
        assert_eq!(detail.duration, if i == 57 { 0 } else { 65 });
    }
}

#[test]
fn details_of_no_video_take_no_batch() {
    match DetailWalk::start(Vec::new()) {
        DetailStep::Done(details) => assert!(details.is_empty()),
        DetailStep::Next(_) => panic!("a batch was asked for"),
    }
}

#[test]
fn details_of_fifty_videos_take_one_batch() {
    let ids: Vec<String> = (0..50).map(|i| format!("v{}", i)).collect();
    let walk = match DetailWalk::start(ids.clone()) {
        DetailStep::Next(walk) => walk,
        DetailStep::Done(_) => panic!("no batch was asked for"),
    };
    assert_eq!(ids_of(&walk.request()), ids);
    match walk.advance(&vec![item("v0", Some("PT2S"))]) {
        DetailStep::Done(details) => assert_eq!(details.len(), 1),
        DetailStep::Next(_) => panic!("a second batch was asked for"),
    }
}

#[test]
fn details_of_fifty_one_videos_take_two_batches() {
    let ids: Vec<String> = (0..51).map(|i| format!("v{}", i)).collect();
    let walk = match DetailWalk::start(ids.clone()) {
        DetailStep::Next(walk) => walk,
        DetailStep::Done(_) => panic!("no batch was asked for"),
    };
    assert_eq!(ids_of(&walk.request()), ids[..50].to_vec());
    let walk = match walk.advance(&Vec::new()) {
        DetailStep::Next(walk) => walk,
        DetailStep::Done(_) => panic!("no second batch was asked for"),
    };
    assert_eq!(ids_of(&walk.request()), vec!["v50"]);
    match walk.advance(&vec![item("v50", Some("PT2S"))]) {
        DetailStep::Done(details) => assert_eq!(details.len(), 1),
        DetailStep::Next(_) => panic!("a third batch was asked for"),
    }
}

#[test]
fn details_follow_the_items_not_the_ids() {
    let walk = match DetailWalk::start(vec!["a".to_string(), "b".to_string()]) {
        DetailStep::Next(walk) => walk,
        DetailStep::Done(_) => panic!("no batch was asked for"),
    };
    assert_eq!(ids_of(&walk.request()), vec!["a", "b"]);
    let items = vec![item("b", Some("PT2S")), item("x", Some("PT3S")), item("a", Some("PT1S"))];
    match walk.advance(&items) {
        DetailStep::Done(details) => {
            let got: Vec<(String, u64)> =
                details.iter().map(|d| (d.video_id.clone(), d.duration)).collect();
            assert_eq!(
                got,
                vec![("b".to_string(), 2), ("x".to_string(), 3), ("a".to_string(), 1)]
            );
        }
        DetailStep::Next(_) => panic!("a second batch was asked for"),
    }
}

#[test]
fn detail_of_an_item_with_all_fields() {
    let detail = video_detail(&VideoItem {
        id: Some("abc".to_string()),
        title: Some("A title".to_string()),
        published_at: Some("2020-05-06T07:08:09Z".to_string()),
        duration: Some("PT1H2M3S".to_string()),
    });
    assert_eq!(detail.video_id, "abc");
    assert_eq!(detail.video_title, "A title");
    assert_eq!(detail.published_at, "2020-05-06T07:08:09Z");
    assert_eq!(detail.duration, 3723);
}

#[test]
fn detail_of_an_item_without_fields_has_the_defaults() {
    let detail = video_detail(&VideoItem { id: None, title: None, published_at: None, duration: None });
    assert_eq!(detail.video_id, "");
    assert_eq!(detail.video_title, "");
    assert_eq!(detail.published_at, "");
    assert_eq!(detail.duration, 0);
}

#[test]
fn each_field_of_an_item_has_its_default_by_itself() {
    let detail = video_detail(&VideoItem {
        id: Some("abc".to_string()),
        title: None,
        published_at: Some("2020-05-06T07:08:09Z".to_string()),
        duration: Some("PT9S".to_string()),
    });
    assert_eq!(detail.video_id, "abc");
    assert_eq!(detail.video_title, "");
    assert_eq!(detail.published_at, "2020-05-06T07:08:09Z");
    assert_eq!(detail.duration, 9);
    let detail = video_detail(&VideoItem {
        id: Some("abc".to_string()),
        title: Some("A title".to_string()),
        published_at: None,
        duration: None,
    });
    assert_eq!(detail.video_title, "A title");
    assert_eq!(detail.published_at, "");
    assert_eq!(detail.duration, 0);
}

#[test]
fn detail_of_an_item_whose_duration_cannot_be_read_has_zero_seconds() {
    assert_eq!(video_detail(&item("abc", Some("PT1H2xM"))).duration, 0);
    assert_eq!(video_detail(&item("abc", Some("P1DT2H"))).duration, 0);
    assert_eq!(video_detail(&item("abc", Some("PT99999999999999999999S"))).duration, 0);
    assert_eq!(video_detail(&item("abc", Some("PT2H"))).duration, 7200);
}

#[test]
fn video_items_reads_each_field_where_it_stands() {
    let response = parse(
        "{\"items\": [
            {\"id\": \"one\",
             \"snippet\": {\"title\": \"First\", \"publishedAt\": \"2020-01-01T00:00:00Z\"},
             \"contentDetails\": {\"duration\": \"PT1M\"}},
            {\"id\": \"two\", \"snippet\": {\"title\": \"Second\"}},
            {\"snippet\": {\"publishedAt\": \"2020-01-03T00:00:00Z\"},
             \"contentDetails\": {\"duration\": 60}},
            {}
        ]}",
    );
    let items = video_items(&response);
    assert_eq!(items.len(), 4);
    assert_eq!(items[0].id, Some("one".to_string()));
    assert_eq!(items[0].title, Some("First".to_string()));
    assert_eq!(items[0].published_at, Some("2020-01-01T00:00:00Z".to_string()));
    assert_eq!(items[0].duration, Some("PT1M".to_string()));
    assert_eq!(items[1].id, Some("two".to_string()));
    assert_eq!(items[1].title, Some("Second".to_string()));
    assert_eq!(items[1].published_at, None);
    assert_eq!(items[1].duration, None);
    assert_eq!(items[2].id, None);
    assert_eq!(items[2].title, None);
    assert_eq!(items[2].published_at, Some("2020-01-03T00:00:00Z".to_string()));
    assert_eq!(items[2].duration, None);
    assert_eq!(items[3].id, None);
    assert_eq!(items[3].duration, None);
}

#[test]
fn video_items_of_an_answer_without_items_are_none() {
    assert!(video_items(&parse("{}")).is_empty());
    assert!(video_items(&parse("{\"items\": null}")).is_empty());
    assert!(video_items(&parse("{\"items\": []}")).is_empty());
}

#[test]
fn notes_on_an_item_name_each_field_that_was_made_good() {
    assert!(field_notes(&item("abc", Some("PT1M"))).is_empty());
    assert_eq!(field_notes(&item("abc", None)), vec![FieldNote::DurationMissing]);
    assert_eq!(field_notes(&item("abc", Some("PT1xM"))), vec![FieldNote::DurationUnreadable]);
    assert_eq!(
        field_notes(&VideoItem { id: None, title: None, published_at: None, duration: None }),
        vec![FieldNote::TitleMissing, FieldNote::PublishedAtMissing, FieldNote::DurationMissing]
    );
    assert_eq!(
        field_notes(&VideoItem {
            id: Some("abc".to_string()),
            title: Some("A title".to_string()),
            published_at: None,
            duration: Some("PTsoonS".to_string()),
        }),
        vec![FieldNote::PublishedAtMissing, FieldNote::DurationUnreadable]
    );
}
