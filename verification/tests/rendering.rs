use yt_search::numerals::parse_index;
use yt_search::numerals::u64_to_dec;
use yt_search::records::Playlist;
use yt_search::records::Video;
use yt_search::records::data_to_string;

#[test]
fn video_line_pads_each_column() {
    let v = Video::new(
        "A Name".to_string(),
        "12:34".to_string(),
        "/watch?v=abc".to_string(),
        "Chan".to_string(),
        "3 years ago".to_string(),
    );
    let expected = format!("{:<100} {:<60} {:<30} {:<10}", "A Name", "Chan", "3 years ago", "12:34");
    assert_eq!(v.to_string(), expected);
}

#[test]
fn playlist_line_ends_with_the_video_count() {
    let p = Playlist::new(
        "A List".to_string(),
        "/playlist?list=x".to_string(),
        "1 year ago".to_string(),
        "50+ videos".to_string(),
        "Chan".to_string(),
    );
    let expected = format!(
        "{:<100} {:<60} {:<30} {:<10}",
        "A List", "Chan", "1 year ago", "50+ videos"
    );
    assert_eq!(p.to_string(), expected);
}

#[test]
fn overlong_fields_are_kept_whole() {
    let long = "x".repeat(140);
    let v = Video::new(
        long.clone(),
        "0:01".to_string(),
        "/watch".to_string(),
        "o".to_string(),
        "now".to_string(),
    );
    assert!(v.to_string().starts_with(&long));
}

#[test]
fn entries_carry_tokens_in_sequence_order() {
    let videos: Vec<Video> = (0..11)
        .map(|n| {
            Video::new(
                format!("V{}", n),
                "1:00".to_string(),
                format!("/watch?v={}", n),
                "o".to_string(),
                "now".to_string(),
            )
        })
        .collect();
    let playlists: Vec<Playlist> = (0..2)
        .map(|n| {
            Playlist::new(
                format!("L{}", n),
                format!("/playlist?list={}", n),
                "now".to_string(),
                "3 videos".to_string(),
                "o".to_string(),
            )
        })
        .collect();
    let (video_lines, playlist_lines) = data_to_string(&videos, &playlists);
    assert_eq!(video_lines.len(), 11);
    assert_eq!(playlist_lines.len(), 2);
    for (i, line) in video_lines.iter().enumerate() {
        assert!(line.starts_with(&format!("V{} ", i)));
        assert!(line.ends_with('\n'));
        assert_eq!(line, &format!("V{} {}\n", i, videos[i].to_string()));
    }
    assert!(playlist_lines[1].starts_with("P1 "));
    assert_eq!(playlist_lines[0], format!("P0 {}\n", playlists[0].to_string()));
}

#[test]
fn decimal_rendering_and_parsing_round_trip() {
    assert_eq!(u64_to_dec(0), "0");
    assert_eq!(u64_to_dec(7), "7");
    assert_eq!(u64_to_dec(12034), "12034");
    assert_eq!(parse_index("0"), Some(0));
    assert_eq!(parse_index("12034"), Some(12034));
    assert_eq!(parse_index(""), None);
    assert_eq!(parse_index("1a2"), None);
    assert_eq!(parse_index("99999999999999999999999999"), None);
    for n in [0u64, 1, 9, 10, 99, 100, 4096] {
        assert_eq!(parse_index(&u64_to_dec(n)), Some(n as usize));
    }
}
