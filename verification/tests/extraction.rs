use yt_search::extract::ExtractError;
use yt_search::extract::extract;

fn video_item(name: &str, length: Option<&str>, url: &str, owner: &str, published: &str) -> String {
    let length_part = match length {
        Some(l) => format!("\"lengthText\":{{\"simpleText\":\"{}\"}},", l),
        None => String::new(),
    };
    format!(
        "{{\"videoRenderer\":{{\"title\":{{\"runs\":[{{\"text\":\"{}\"}}]}},{}\
         \"navigationEndpoint\":{{\"commandMetadata\":{{\"webCommandMetadata\":{{\"url\":\"{}\"}}}}}},\
         \"ownerText\":{{\"runs\":[{{\"text\":\"{}\"}}]}},\
         \"publishedTimeText\":{{\"simpleText\":\"{}\"}}}}}}",
        name, length_part, url, owner, published
    )
}

fn playlist_item(name: &str, url: &str, published: &str, count: &str, owner: &str) -> String {
    format!(
        "{{\"playlistRenderer\":{{\"title\":{{\"simpleText\":\"{}\"}},\
         \"navigationEndpoint\":{{\"commandMetadata\":{{\"webCommandMetadata\":{{\"url\":\"{}\"}}}}}},\
         \"publishedTimeText\":{{\"simpleText\":\"{}\"}},\
         \"videoCountText\":{{\"runs\":[{{\"text\":\"{}\"}}]}},\
         \"shortBylineText\":{{\"runs\":[{{\"text\":\"{}\"}}]}}}}}}",
        name, url, published, count, owner
    )
}

fn page_with_items(items: &[String]) -> String {
    let joined = items.join(",");
    let doc = format!(
        "{{\"contents\":{{\"twoColumnSearchResultsRenderer\":{{\"primaryContents\":\
         {{\"sectionListRenderer\":{{\"contents\":[{{\"itemSectionRenderer\":\
         {{\"contents\":[{}]}}}}]}}}}}}}}}}",
        joined
    );
    format!(
        "<html>window[\"ytInitialData\"] = {};abcdewindow[\"ytInitialPlayerResponse\"] = null;</html>",
        doc
    )
}

#[test]
fn extracts_all_records_in_document_order() {
    let items = vec![
        video_item("First Video", Some("12:34"), "/watch?v=one", "Chan A", "3 years ago"),
        playlist_item("Cool List", "/playlist?list=ABC", "1 year ago", "50+ videos", "Chan B"),
        video_item("Second Video", Some("0:59"), "/watch?v=two", "Chan C", "2 days ago"),
    ];
    let page = page_with_items(&items);
    let (videos, playlists) = extract(&page).expect("a well-formed page extracts");
    assert_eq!(videos.len(), 2);
    assert_eq!(playlists.len(), 1);
    assert_eq!(videos[0].name(), "First Video");
    assert_eq!(videos[0].length(), "12:34");
    assert_eq!(videos[0].url(), "/watch?v=one");
    assert_eq!(videos[0].owner(), "Chan A");
    assert_eq!(videos[0].published(), "3 years ago");
    assert_eq!(videos[1].name(), "Second Video");
    assert_eq!(playlists[0].name(), "Cool List");
    assert_eq!(playlists[0].url(), "/playlist?list=ABC");
    assert_eq!(playlists[0].video_count(), "50+ videos");
    assert_eq!(playlists[0].owner(), "Chan B");
}

#[test]
fn record_missing_duration_is_dropped_not_fatal() {
    let items = vec![
        video_item("Kept", Some("1:00"), "/watch?v=a", "A", "now"),
        video_item("Dropped", None, "/watch?v=b", "B", "now"),
        video_item("Also Kept", Some("2:00"), "/watch?v=c", "C", "now"),
    ];
    let page = page_with_items(&items);
    let (videos, playlists) = extract(&page).expect("the page still extracts");
    assert_eq!(videos.len(), 2);
    assert_eq!(videos[0].name(), "Kept");
    assert_eq!(videos[1].name(), "Also Kept");
    assert_eq!(playlists.len(), 0);
}

#[test]
fn missing_results_container_is_a_shape_error_not_empty_success() {
    let page = "<html>window[\"ytInitialData\"] = {\"contents\":{}};abcdewindow[\"ytInitialPlayerResponse\"] = null;</html>";
    assert!(matches!(extract(page), Err(ExtractError::UnexpectedShape)));
}

#[test]
fn missing_data_marker_fails() {
    let page = "<html>no markers at all</html>";
    assert!(matches!(extract(page), Err(ExtractError::MarkerNotFound)));
}

#[test]
fn missing_end_marker_fails() {
    let page = "<html>window[\"ytInitialData\"] = {\"contents\":{}}; no closing block</html>";
    assert!(matches!(extract(page), Err(ExtractError::MarkerNotFound)));
}

#[test]
fn malformed_json_fails() {
    let page = "<html>window[\"ytInitialData\"] = {not json!;abcdewindow[\"ytInitialPlayerResponse\"] = null;</html>";
    assert!(matches!(extract(page), Err(ExtractError::MalformedJson)));
}

#[test]
fn empty_results_container_is_an_empty_success() {
    let page = page_with_items(&[]);
    let (videos, playlists) = extract(&page).expect("an empty page extracts");
    assert_eq!(videos.len(), 0);
    assert_eq!(playlists.len(), 0);
}
