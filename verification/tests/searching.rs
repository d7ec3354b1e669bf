use yt_search::extract::ExtractError;
use yt_search::records::Playlist;
use yt_search::records::Video;
use yt_search::search::SearchError;
use yt_search::search::SearchFilter;
use yt_search::search::build_query;
use yt_search::search::merge_pages;
use yt_search::search::merge_results;
use yt_search::search::page_queries;

fn video(tag: &str) -> Video {
    Video::new(
        format!("Video {}", tag),
        "1:00".to_string(),
        format!("/watch?v={}", tag),
        "o".to_string(),
        "now".to_string(),
    )
}

fn playlist(tag: &str) -> Playlist {
    Playlist::new(
        format!("List {}", tag),
        format!("/playlist?list={}", tag),
        "now".to_string(),
        "3 videos".to_string(),
        "o".to_string(),
    )
}

fn page(videos: &[&str], playlists: &[&str]) -> (Vec<Video>, Vec<Playlist>) {
    (
        videos.iter().map(|t| video(t)).collect(),
        playlists.iter().map(|t| playlist(t)).collect(),
    )
}

fn sorted_urls_of(videos: &[Video], playlists: &[Playlist]) -> (Vec<String>, Vec<String>) {
    let mut vs: Vec<String> = videos.iter().map(|v| v.url().to_string()).collect();
    let mut ps: Vec<String> = playlists.iter().map(|p| p.url().to_string()).collect();
    vs.sort();
    ps.sort();
    (vs, ps)
}

#[test]
fn query_carries_term_page_and_filter_code() {
    let q = build_query("cats", 2, SearchFilter::Video);
    assert_eq!(q.len(), 3);
    assert_eq!(q[0], ("search_query".to_string(), "cats".to_string()));
    assert_eq!(q[1], ("p".to_string(), "2".to_string()));
    assert_eq!(q[2], ("sp".to_string(), "EgIQAQ%3D%3D".to_string()));
    let q = build_query("cats", 1, SearchFilter::Channel);
    assert_eq!(q[2].1, "EgIQAg%3D%3D");
    let q = build_query("cats", 1, SearchFilter::Playlist);
    assert_eq!(q[2].1, "EgIQAw%3D%3D");
    let q = build_query("cats", 3, SearchFilter::Unfiltered);
    assert_eq!(q.len(), 2);
}

#[test]
fn one_query_per_page_starting_at_one() {
    let queries = page_queries("dogs", 3, SearchFilter::Unfiltered);
    assert_eq!(queries.len(), 3);
    for (i, q) in queries.iter().enumerate() {
        assert_eq!(q.len(), 2);
        assert_eq!(q[0], ("search_query".to_string(), "dogs".to_string()));
        assert_eq!(q[1], ("p".to_string(), format!("{}", i + 1)));
    }
}

#[test]
fn merge_keeps_page_order_and_within_page_order() {
    let pages = vec![
        page(&["a", "b"], &["x"]),
        page(&[], &["y", "z"]),
        page(&["c"], &[]),
    ];
    let (videos, playlists) = merge_pages(pages);
    let vs: Vec<&str> = videos.iter().map(|v| v.url()).collect();
    let ps: Vec<&str> = playlists.iter().map(|p| p.url()).collect();
    assert_eq!(vs, vec!["/watch?v=a", "/watch?v=b", "/watch?v=c"]);
    assert_eq!(ps, vec!["/playlist?list=x", "/playlist?list=y", "/playlist?list=z"]);
}

#[test]
fn merges_of_three_pages_in_any_completion_order_hold_the_same_records() {
    let one_order = vec![
        page(&["a", "b"], &["x"]),
        page(&["c"], &["y"]),
        page(&["d"], &[]),
    ];
    let other_order = vec![
        page(&["d"], &[]),
        page(&["a", "b"], &["x"]),
        page(&["c"], &["y"]),
    ];
    let (v1, p1) = merge_pages(one_order);
    let (v2, p2) = merge_pages(other_order);
    assert_eq!(sorted_urls_of(&v1, &p1), sorted_urls_of(&v2, &p2));
    assert_ne!(
        v1.iter().map(|v| v.url().to_string()).collect::<Vec<_>>(),
        v2.iter().map(|v| v.url().to_string()).collect::<Vec<_>>()
    );
}

#[test]
fn one_failed_page_fails_the_whole_run() {
    let pages = vec![
        Ok(page(&["a"], &[])),
        Err(SearchError::Extraction(ExtractError::MarkerNotFound)),
        Ok(page(&["b"], &[])),
    ];
    match merge_results(pages) {
        Err(SearchError::Extraction(ExtractError::MarkerNotFound)) => {},
        _ => panic!("the first failure propagates"),
    }
    let pages = vec![Ok(page(&["a"], &[])), Err(SearchError::Transport)];
    assert!(matches!(merge_results(pages), Err(SearchError::Transport)));
}

#[test]
fn all_pages_ok_merge_into_one_result_set() {
    let pages = vec![Ok(page(&["a"], &["x"])), Ok(page(&["b"], &[]))];
    let (videos, playlists) = merge_results(pages).expect("all pages succeeded");
    assert_eq!(videos.len(), 2);
    assert_eq!(playlists.len(), 1);
    assert_eq!(videos[1].url(), "/watch?v=b");
}
