use m3u_filter::m3u_filter_error::M3uFilterErrorKind;
use m3u_filter::model::model_m3u::{PlaylistItemType, PropertyValue, XtreamCluster};
use m3u_filter::processing::raw_json::{
    JsonField, JsonItem, JsonNode, JsonPayload, JsonRecord, SeriesInfoPayload,
};
use m3u_filter::processing::xtream_parser::{
    parse_series_info, parse_xtream, process_category, process_streams,
};

fn sfield(v: &str) -> JsonField {
    JsonField {
        text: format!("\"{}\"", v),
        node: JsonNode::Str(v.to_string()),
    }
}

fn nfield(i: i64) -> JsonField {
    JsonField {
        text: i.to_string(),
        node: JsonNode::Num { int_value: Some(i) },
    }
}

fn float_field(text: &str) -> JsonField {
    JsonField {
        text: text.to_string(),
        node: JsonNode::Num { int_value: None },
    }
}

fn record(fields: Vec<(&str, JsonField)>) -> JsonRecord {
    JsonRecord {
        fields: fields
            .into_iter()
            .map(|(k, v)| (k.to_string(), v))
            .collect(),
    }
}

fn category(id: &str, name: &str) -> JsonRecord {
    record(vec![("category_id", sfield(id)), ("category_name", sfield(name))])
}

fn stream(name: &str, category_id: &str, stream_id: i64) -> JsonRecord {
    record(vec![
        ("name", sfield(name)),
        ("category_id", sfield(category_id)),
        ("stream_id", nfield(stream_id)),
    ])
}

#[test]
fn live_url_synthesis() {
    let cats = JsonPayload::Records(vec![category("7", "News")]);
    let streams = JsonPayload::Records(vec![stream("CNN", "7", 42)]);
    let mut cnt: i32 = 0;
    let groups = parse_xtream(
        &mut cnt,
        XtreamCluster::Live,
        &cats,
        "http://p.example",
        "u",
        "p",
        &streams,
    )
    .unwrap()
    .unwrap();
    assert_eq!(groups.len(), 1);
    assert_eq!(groups[0].channels.len(), 1);
    let header = &groups[0].channels[0].header;
    assert_eq!(header.url, "http://p.example/live/u/p/42.ts");
    assert_eq!(header.id, "42");
    assert_eq!(header.name, "CNN");
    assert_eq!(header.group, "News");
    assert_eq!(header.item_type, PlaylistItemType::Live);
    assert!(!header.series_fetched);
}

#[test]
fn video_url_defaults_to_mp4() {
    let cats = JsonPayload::Records(vec![category("1", "Movies")]);
    let streams = JsonPayload::Records(vec![stream("Film", "1", 42)]);
    let mut cnt: i32 = 0;
    let groups = parse_xtream(
        &mut cnt,
        XtreamCluster::Video,
        &cats,
        "http://p.example",
        "u",
        "p",
        &streams,
    )
    .unwrap()
    .unwrap();
    let header = &groups[0].channels[0].header;
    assert_eq!(header.url, "http://p.example/movie/u/p/42.mp4");
    assert_eq!(header.item_type, PlaylistItemType::Movie);
}

#[test]
fn video_url_uses_container_extension() {
    let cats = JsonPayload::Records(vec![category("1", "Movies")]);
    let mut rec = stream("Film", "1", 9);
    rec.fields.push(("container_extension".to_string(), sfield("mkv")));
    let streams = JsonPayload::Records(vec![rec]);
    let mut cnt: i32 = 0;
    let groups = parse_xtream(
        &mut cnt,
        XtreamCluster::Video,
        &cats,
        "http://h",
        "a",
        "b",
        &streams,
    )
    .unwrap()
    .unwrap();
    assert_eq!(groups[0].channels[0].header.url, "http://h/movie/a/b/9.mkv");
}

#[test]
fn direct_source_used_verbatim() {
    let cats = JsonPayload::Records(vec![category("1", "News")]);
    let mut rec = stream("CNN", "1", 42);
    rec.fields
        .push(("direct_source".to_string(), sfield("http://direct.example/x")));
    let streams = JsonPayload::Records(vec![rec]);
    let mut cnt: i32 = 0;
    let groups = parse_xtream(
        &mut cnt,
        XtreamCluster::Live,
        &cats,
        "http://p.example",
        "u",
        "p",
        &streams,
    )
    .unwrap()
    .unwrap();
    assert_eq!(groups[0].channels[0].header.url, "http://direct.example/x");
}

#[test]
fn series_url_deep_links_into_player_api() {
    let cats = JsonPayload::Records(vec![category("3", "Shows")]);
    let mut rec = record(vec![
        ("name", sfield("Show")),
        ("category_id", sfield("3")),
    ]);
    rec.fields.push(("series_id".to_string(), nfield(77)));
    let streams = JsonPayload::Records(vec![rec]);
    let mut cnt: i32 = 0;
    let groups = parse_xtream(
        &mut cnt,
        XtreamCluster::Series,
        &cats,
        "http://h",
        "u",
        "p",
        &streams,
    )
    .unwrap()
    .unwrap();
    let header = &groups[0].channels[0].header;
    assert_eq!(
        header.url,
        "http://h/player_api.php?username=u&password=p&action=get_series_info&series_id=77"
    );
    assert_eq!(header.item_type, PlaylistItemType::SeriesInfo);
    assert_eq!(header.id, "77");
}

#[test]
fn unmatched_stream_is_dropped() {
    let cats = JsonPayload::Records(vec![category("7", "News")]);
    let streams = JsonPayload::Records(vec![
        stream("CNN", "7", 1),
        stream("Orphan", "999", 2),
    ]);
    let mut cnt: i32 = 0;
    let groups = parse_xtream(
        &mut cnt,
        XtreamCluster::Live,
        &cats,
        "http://h",
        "u",
        "p",
        &streams,
    )
    .unwrap()
    .unwrap();
    assert_eq!(groups.len(), 1);
    assert_eq!(groups[0].channels.len(), 1);
    assert_eq!(groups[0].channels[0].header.name, "CNN");
}

#[test]
fn empty_categories_still_emitted() {
    let cats = JsonPayload::Records(vec![category("1", "A"), category("2", "B")]);
    let streams = JsonPayload::Records(vec![stream("X", "2", 5)]);
    let mut cnt: i32 = 0;
    let groups = parse_xtream(
        &mut cnt,
        XtreamCluster::Live,
        &cats,
        "http://h",
        "u",
        "p",
        &streams,
    )
    .unwrap()
    .unwrap();
    assert_eq!(groups.len(), 2);
    assert_eq!(groups[0].title, "A");
    assert!(groups[0].channels.is_empty());
    assert_eq!(groups[1].title, "B");
    assert_eq!(groups[1].channels.len(), 1);
}

#[test]
fn normalizing_twice_differs_only_in_group_ids() {
    let cats = JsonPayload::Records(vec![category("1", "A"), category("2", "B")]);
    let streams = JsonPayload::Records(vec![stream("X", "1", 5), stream("Y", "2", 6)]);
    let mut c1: i32 = 0;
    let r1 = parse_xtream(&mut c1, XtreamCluster::Live, &cats, "http://h", "u", "p", &streams)
        .unwrap()
        .unwrap();
    let mut c2: i32 = 100;
    let r2 = parse_xtream(&mut c2, XtreamCluster::Live, &cats, "http://h", "u", "p", &streams)
        .unwrap()
        .unwrap();
    assert_eq!(r1.len(), r2.len());
    for (g1, g2) in r1.iter().zip(r2.iter()) {
        assert_eq!(g1.id + 100, g2.id);
        assert_eq!(g1.title, g2.title);
        assert_eq!(g1.channels, g2.channels);
    }
    assert_eq!(c1, 2);
    assert_eq!(c2, 102);
}

#[test]
fn group_ids_assigned_from_counter() {
    let cats = JsonPayload::Records(vec![category("1", "A"), category("2", "B")]);
    let streams = JsonPayload::Records(vec![]);
    let mut cnt: i32 = 10;
    let groups = parse_xtream(
        &mut cnt,
        XtreamCluster::Live,
        &cats,
        "http://h",
        "u",
        "p",
        &streams,
    )
    .unwrap()
    .unwrap();
    assert_eq!(groups[0].id, 11);
    assert_eq!(groups[1].id, 12);
    assert_eq!(cnt, 12);
}

#[test]
fn malformed_category_payload_is_notify_error() {
    let cats = JsonPayload::Other;
    let streams = JsonPayload::Records(vec![]);
    let mut cnt: i32 = 0;
    let err = parse_xtream(
        &mut cnt,
        XtreamCluster::Live,
        &cats,
        "http://h",
        "u",
        "p",
        &streams,
    )
    .unwrap_err();
    assert_eq!(err.kind, M3uFilterErrorKind::Notify);
    assert_eq!(cnt, 0);
}

#[test]
fn category_without_id_is_notify_error() {
    let cats = JsonPayload::Records(vec![record(vec![("category_name", sfield("A"))])]);
    let err = process_category(&cats).unwrap_err();
    assert_eq!(err.kind, M3uFilterErrorKind::Notify);
}

#[test]
fn float_stream_id_is_notify_error() {
    let streams = JsonPayload::Records(vec![record(vec![
        ("name", sfield("X")),
        ("category_id", sfield("1")),
        ("stream_id", float_field("4.5")),
    ])]);
    let err = process_streams(&XtreamCluster::Live, &streams).unwrap_err();
    assert_eq!(err.kind, M3uFilterErrorKind::Notify);
}

#[test]
fn stream_id_may_arrive_as_string() {
    let streams = JsonPayload::Records(vec![record(vec![
        ("name", sfield("X")),
        ("category_id", sfield("1")),
        ("stream_id", sfield("42")),
    ])]);
    let list = process_streams(&XtreamCluster::Live, &streams).unwrap();
    assert_eq!(list[0].stream_id, Some(42));
    assert_eq!(list[0].get_stream_id(), "42");
}

#[test]
fn unparsable_string_stream_id_is_none() {
    let streams = JsonPayload::Records(vec![record(vec![
        ("name", sfield("X")),
        ("category_id", sfield("1")),
        ("stream_id", sfield("abc")),
    ])]);
    let list = process_streams(&XtreamCluster::Live, &streams).unwrap();
    assert_eq!(list[0].stream_id, None);
    assert_eq!(list[0].get_stream_id(), "");
}

#[test]
fn missing_ids_give_empty_item_id() {
    let cats = JsonPayload::Records(vec![category("1", "A")]);
    let streams = JsonPayload::Records(vec![record(vec![
        ("name", sfield("X")),
        ("category_id", sfield("1")),
    ])]);
    let mut cnt: i32 = 0;
    let groups = parse_xtream(
        &mut cnt,
        XtreamCluster::Live,
        &cats,
        "http://h",
        "u",
        "p",
        &streams,
    )
    .unwrap()
    .unwrap();
    assert_eq!(groups[0].channels[0].header.id, "");
}

#[test]
fn additional_properties_collected_in_order() {
    let mut rec = stream("X", "1", 5);
    rec.fields.push(("plot".to_string(), sfield("story")));
    rec.fields.push(("rating".to_string(), float_field("4.5")));
    rec.fields.push(("tv_archive".to_string(), nfield(1)));
    rec.fields.push((
        "backdrop_path".to_string(),
        JsonField {
            text: "[\"a\",\"b\"]".to_string(),
            node: JsonNode::Arr(vec![
                JsonItem::Str("a".to_string()),
                JsonItem::Str("b".to_string()),
            ]),
        },
    ));
    let streams = JsonPayload::Records(vec![rec]);
    let list = process_streams(&XtreamCluster::Live, &streams).unwrap();
    let props = list[0].get_additional_properties().unwrap();
    assert_eq!(
        props,
        vec![
            (
                "backdrop_path".to_string(),
                PropertyValue::List(vec!["a".to_string()])
            ),
            ("plot".to_string(), PropertyValue::Text("story".to_string())),
            ("rating".to_string(), PropertyValue::Num("4.5".to_string())),
            ("tv_archive".to_string(), PropertyValue::Int(1)),
        ]
    );
}

#[test]
fn no_optional_fields_means_no_properties() {
    let streams = JsonPayload::Records(vec![stream("X", "1", 5)]);
    let list = process_streams(&XtreamCluster::Live, &streams).unwrap();
    assert_eq!(list[0].get_additional_properties(), None);
}

#[test]
fn rating_as_string_kept_when_numeric() {
    let mut rec = stream("X", "1", 5);
    rec.fields.push(("rating".to_string(), sfield(" 4.50 ")));
    let streams = JsonPayload::Records(vec![rec]);
    let list = process_streams(&XtreamCluster::Live, &streams).unwrap();
    assert_eq!(list[0].rating, Some("4.50".to_string()));

    let mut rec2 = stream("X", "1", 5);
    rec2.fields.push(("rating".to_string(), sfield("n/a")));
    let streams2 = JsonPayload::Records(vec![rec2]);
    let list2 = process_streams(&XtreamCluster::Video, &streams2).unwrap();
    assert_eq!(list2[0].rating, None);
}

#[test]
fn tolerant_string_fields_fall_back_to_rendering() {
    let mut rec = record(vec![("category_id", nfield(7))]);
    rec.fields
        .push(("category_name".to_string(), sfield("News")));
    let cats = JsonPayload::Records(vec![rec]);
    let list = process_category(&cats).unwrap();
    assert_eq!(list[0].category_id, "7");
    assert_eq!(list[0].category_name, "News");
}

fn episode(id: &str, title: &str) -> JsonRecord {
    record(vec![("id", sfield(id)), ("title", sfield(title))])
}

#[test]
fn series_episodes_flattened_in_season_order() {
    let info = SeriesInfoPayload::Seasons(vec![
        ("1".to_string(), vec![episode("100", "S1E1"), episode("101", "S1E2")]),
        ("2".to_string(), vec![episode("200", "S2E1")]),
    ]);
    let items = parse_series_info(&info, "My Show", "http://h", "u", "p")
        .unwrap()
        .unwrap();
    assert_eq!(items.len(), 3);
    let names: Vec<&str> = items.iter().map(|i| i.header.name.as_str()).collect();
    assert_eq!(names, vec!["S1E1", "S1E2", "S2E1"]);
    let h = &items[0].header;
    assert_eq!(h.url, "http://h/series/u/p/100.mp4");
    assert_eq!(h.group, "My Show");
    assert_eq!(h.item_type, PlaylistItemType::Series);
    assert_eq!(h.xtream_cluster, XtreamCluster::Series);
}

#[test]
fn series_episode_extension_and_direct_source() {
    let mut with_ext = episode("5", "E");
    with_ext
        .fields
        .push(("container_extension".to_string(), sfield("mkv")));
    let mut with_direct = episode("6", "F");
    with_direct
        .fields
        .push(("direct_source".to_string(), sfield("http://d/x")));
    let info = SeriesInfoPayload::Seasons(vec![(
        "1".to_string(),
        vec![with_ext, with_direct],
    )]);
    let items = parse_series_info(&info, "G", "http://h", "u", "p")
        .unwrap()
        .unwrap();
    assert_eq!(items[0].header.url, "http://h/series/u/p/5.mkv");
    assert_eq!(items[1].header.url, "http://d/x");
}

#[test]
fn series_info_with_no_episodes_is_none() {
    let info = SeriesInfoPayload::Seasons(vec![("1".to_string(), vec![])]);
    assert_eq!(parse_series_info(&info, "G", "http://h", "u", "p").unwrap(), None);
}

#[test]
fn malformed_series_info_is_notify_error() {
    let err = parse_series_info(&SeriesInfoPayload::Other, "G", "http://h", "u", "p").unwrap_err();
    assert_eq!(err.kind, M3uFilterErrorKind::Notify);
}

#[test]
fn duplicate_category_ids_attach_streams_to_the_first() {
    let cats = JsonPayload::Records(vec![category("1", "First"), category("1", "Second")]);
    let streams = JsonPayload::Records(vec![stream("X", "1", 5)]);
    let mut cnt: i32 = 0;
    let groups = parse_xtream(
        &mut cnt,
        XtreamCluster::Live,
        &cats,
        "http://h",
        "u",
        "p",
        &streams,
    )
    .unwrap()
    .unwrap();
    assert_eq!(groups.len(), 2);
    assert_eq!(groups[0].channels.len(), 1);
    assert!(groups[1].channels.is_empty());
}
