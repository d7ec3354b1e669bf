use yt_search::records::Playlist;
use yt_search::records::Video;
use yt_search::records::data_to_string;
use yt_search::select::Chosen;
use yt_search::select::PromptStep;
use yt_search::select::SelectionError;
use yt_search::select::prompt_step;
use yt_search::select::resolve_selection;
use yt_search::select::selection_output;

fn video(n: u32) -> Video {
    Video::new(
        format!("Video {}", n),
        format!("{}:00", n),
        format!("/watch?v=v{}", n),
        format!("Owner {}", n),
        "1 year ago".to_string(),
    )
}

fn playlist(n: u32) -> Playlist {
    Playlist::new(
        format!("List {}", n),
        format!("/playlist?list=p{}", n),
        "2 years ago".to_string(),
        format!("{} videos", n),
        format!("Owner {}", n),
    )
}

#[test]
fn rendered_line_resolves_back_to_its_own_record() {
    let videos: Vec<Video> = (0..3).map(video).collect();
    let playlists: Vec<Playlist> = (0..2).map(playlist).collect();
    let (video_lines, playlist_lines) = data_to_string(&videos, &playlists);
    for (i, line) in video_lines.iter().enumerate() {
        assert_eq!(
            resolve_selection(line, videos.len(), playlists.len()),
            Ok(Chosen::VideoAt(i))
        );
        let out = selection_output(&videos, &playlists, line, false).unwrap();
        assert_eq!(out, videos[i].to_string());
    }
    for (i, line) in playlist_lines.iter().enumerate() {
        assert_eq!(
            resolve_selection(line, videos.len(), playlists.len()),
            Ok(Chosen::PlaylistAt(i))
        );
        let out = selection_output(&videos, &playlists, line, false).unwrap();
        assert_eq!(out, playlists[i].to_string());
    }
}

#[test]
fn index_past_the_end_is_out_of_range_never_a_wrong_record() {
    assert_eq!(
        resolve_selection("V3", 3, 2),
        Err(SelectionError::IndexOutOfRange)
    );
    assert_eq!(
        resolve_selection("p2 whatever trails", 3, 2),
        Err(SelectionError::IndexOutOfRange)
    );
    assert_eq!(resolve_selection("V2", 3, 2), Ok(Chosen::VideoAt(2)));
    assert_eq!(resolve_selection("P1", 3, 2), Ok(Chosen::PlaylistAt(1)));
}

#[test]
fn malformed_tokens_are_invalid() {
    assert_eq!(resolve_selection("", 3, 2), Err(SelectionError::InvalidToken));
    assert_eq!(resolve_selection("Zx", 3, 2), Err(SelectionError::InvalidToken));
    assert_eq!(resolve_selection("V", 3, 2), Err(SelectionError::InvalidToken));
    assert_eq!(resolve_selection("Vx7", 3, 2), Err(SelectionError::InvalidToken));
    assert_eq!(
        resolve_selection("X2 padded line", 3, 2),
        Err(SelectionError::InvalidToken)
    );
    assert_eq!(
        resolve_selection("V99999999999999999999999", 3, 2),
        Err(SelectionError::InvalidToken)
    );
}

#[test]
fn prompt_accepts_the_third_attempt() {
    assert!(matches!(prompt_step(""), PromptStep::NoChoice));
    assert!(matches!(prompt_step("Zx"), PromptStep::Again));
    match prompt_step("V2") {
        PromptStep::Accepted(t) => assert_eq!(t, "V2"),
        _ => panic!("a well-formed token is accepted"),
    }
}

#[test]
fn prompt_trims_whitespace_and_empty_means_no_selection() {
    assert!(matches!(prompt_step("  \t \n"), PromptStep::NoChoice));
    match prompt_step("  p0 \n") {
        PromptStep::Accepted(t) => assert_eq!(t, "p0"),
        _ => panic!("a padded token is accepted after trimming"),
    }
    assert!(matches!(prompt_step(" 12 "), PromptStep::Again));
}

#[test]
fn url_only_output_prepends_the_origin() {
    let videos: Vec<Video> = vec![video(7)];
    let playlists = vec![Playlist::new(
        "ABC List".to_string(),
        "/playlist?list=ABC".to_string(),
        "1 year ago".to_string(),
        "50+ videos".to_string(),
        "Chan".to_string(),
    )];
    let out = selection_output(&videos, &playlists, "P0", true).unwrap();
    assert_eq!(out, "https://youtube.com/playlist?list=ABC");
    let out = selection_output(&videos, &playlists, "v0", true).unwrap();
    assert_eq!(out, "https://youtube.com/watch?v=v7");
}
