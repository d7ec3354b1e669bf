//! Extraction of result records from one result page: locating the
//! embedded JSON document between its two markers, parsing it, walking the
//! fixed path to the results container, and reading the renderer nodes.

use crate::jsondata::JsonNode;
use crate::jsondata::json_doc_of;
use crate::jsondata::json_element;
use crate::jsondata::json_member;
use crate::jsondata::json_text;
use crate::jsondata::parse_json_text;
use crate::records::Playlist;
use crate::records::PlaylistView;
use crate::records::Video;
use crate::records::VideoView;
use crate::scan::is_first_match;
use crate::scan::lemma_first_match_unique;
use crate::scan::find_first;
use crate::scan::str_to_chars;
use crate::scan::tail_chars;
use vstd::prelude::*;
use vstd::string::*;

verus! {

/// Why a page yields no records: a marker of the embedded document is
/// absent (or the document's span is empty), the document is not valid
/// JSON, or the fixed path to the results container is broken.
#[derive(Clone, Copy, Debug, PartialEq, Eq, Structural)]
pub enum ExtractError {
    MarkerNotFound,
    MalformedJson,
    UnexpectedShape,
}

/// The marker that opens the embedded initial-data assignment.
pub open spec fn data_marker() -> Seq<char> {
    "ytInitialData"@
}

/// The marker of the sibling block that follows the assignment.
pub open spec fn end_marker() -> Seq<char> {
    "window[\"ytInitialPlayerResponse\"]"@
}

/// How far past the data marker the JSON text begins (the rest of the
/// assignment head), and how far before the end marker it stops (the
/// statement terminator).
pub open spec fn head_skip() -> int {
    17
}

pub open spec fn tail_trim() -> int {
    6
}

/// The embedded JSON text of a page: the text between the two markers,
/// head and terminator dropped. `None` when either marker is absent or the
/// span between them is malformed (head past the end, terminator missing).
pub open spec fn embedded_json(s: Seq<char>) -> Option<Seq<char>> {
    if exists|i: int| is_first_match(s, data_marker(), i) {
        let i = choose|i: int| is_first_match(s, data_marker(), i);
        if i + head_skip() <= s.len() {
            let tail = s.subrange(i + head_skip(), s.len() as int);
            if exists|j: int| is_first_match(tail, end_marker(), j) {
                let j = choose|j: int| is_first_match(tail, end_marker(), j);
                if j >= tail_trim() {
                    Option::Some(tail.subrange(0, j - tail_trim()))
                } else {
                    Option::None
                }
            } else {
                Option::None
            }
        } else {
            Option::None
        }
    } else {
        Option::None
    }
}

/// Member `key` of a node that may itself be absent.
pub open spec fn step_member(o: Option<JsonNode>, key: Seq<char>) -> Option<JsonNode> {
    match o {
        Option::Some(n) => json_member(n, key),
        Option::None => Option::None,
    }
}

/// Element `i` of a node that may itself be absent.
pub open spec fn step_element(o: Option<JsonNode>, i: int) -> Option<JsonNode> {
    match o {
        Option::Some(n) => json_element(n, i),
        Option::None => Option::None,
    }
}

/// The text of a string leaf that may be absent or not a string.
pub open spec fn text_at(o: Option<JsonNode>) -> Option<Seq<char>> {
    match o {
        Option::Some(n) => json_text(n),
        Option::None => Option::None,
    }
}

/// The results container of a parsed page document: the fixed path of
/// object members and one array index down to the search results content
/// list. `None` as soon as one step is absent.
pub open spec fn results_container(root: JsonNode) -> Option<JsonNode> {
    let a = step_member(Option::Some(root), "contents"@);
    let b = step_member(a, "twoColumnSearchResultsRenderer"@);
    let c = step_member(b, "primaryContents"@);
    let d = step_member(c, "sectionListRenderer"@);
    let e = step_member(d, "contents"@);
    let f = step_element(e, 0);
    let g = step_member(f, "itemSectionRenderer"@);
    step_member(g, "contents"@)
}

/// The items of the results container. A container that is not an array
/// holds no items; a missing container is the structural failure.
pub open spec fn result_items(root: JsonNode) -> Option<Seq<JsonNode>> {
    match results_container(root) {
        Option::Some(JsonNode::Array(items)) => Option::Some(items@),
        Option::Some(_) => Option::Some(Seq::<JsonNode>::empty()),
        Option::None => Option::None,
    }
}

/// The text of the first run of a runs-style text node.
pub open spec fn runs_text(o: Option<JsonNode>) -> Option<Seq<char>> {
    text_at(step_member(step_element(step_member(o, "runs"@), 0), "text"@))
}

/// The text of a simple-text node.
pub open spec fn simple_text(o: Option<JsonNode>) -> Option<Seq<char>> {
    text_at(step_member(o, "simpleText"@))
}

/// The relative URL below a node's navigation endpoint.
pub open spec fn endpoint_url(o: Option<JsonNode>) -> Option<Seq<char>> {
    let a = step_member(o, "navigationEndpoint"@);
    let b = step_member(a, "commandMetadata"@);
    let c = step_member(b, "webCommandMetadata"@);
    text_at(step_member(c, "url"@))
}

/// The fields of one video renderer node, when every required leaf is
/// present as a string: title text, duration text, relative URL, owner
/// text and relative-time text.
pub open spec fn video_fields(vr: JsonNode) -> Option<VideoView> {
    let name = runs_text(step_member(Option::Some(vr), "title"@));
    let length = simple_text(step_member(Option::Some(vr), "lengthText"@));
    let url = endpoint_url(Option::Some(vr));
    let owner = runs_text(step_member(Option::Some(vr), "ownerText"@));
    let published = simple_text(step_member(Option::Some(vr), "publishedTimeText"@));
    if name is Some && length is Some && url is Some && owner is Some && published is Some {
        Option::Some(
            VideoView {
                name: name->0,
                length: length->0,
                url: url->0,
                owner: owner->0,
                published: published->0,
            },
        )
    } else {
        Option::None
    }
}

/// The fields of one playlist renderer node, when every required leaf is
/// present as a string.
pub open spec fn playlist_fields(pr: JsonNode) -> Option<PlaylistView> {
    let name = simple_text(step_member(Option::Some(pr), "title"@));
    let url = endpoint_url(Option::Some(pr));
    let published = simple_text(step_member(Option::Some(pr), "publishedTimeText"@));
    let video_count = runs_text(step_member(Option::Some(pr), "videoCountText"@));
    let owner = runs_text(step_member(Option::Some(pr), "shortBylineText"@));
    if name is Some && url is Some && published is Some && video_count is Some && owner is Some {
        Option::Some(
            PlaylistView {
                name: name->0,
                url: url->0,
                published: published->0,
                video_count: video_count->0,
                owner: owner->0,
            },
        )
    } else {
        Option::None
    }
}

/// The video record one result item yields: its video renderer's fields,
/// when the item carries such a renderer and no required leaf is missing.
pub open spec fn item_video(item: JsonNode) -> Option<VideoView> {
    match json_member(item, "videoRenderer"@) {
        Option::Some(vr) => video_fields(vr),
        Option::None => Option::None,
    }
}

pub open spec fn item_playlist(item: JsonNode) -> Option<PlaylistView> {
    match json_member(item, "playlistRenderer"@) {
        Option::Some(pr) => playlist_fields(pr),
        Option::None => Option::None,
    }
}

/// All video records of a page's items, in document order; an item whose
/// renderer lacks a required leaf contributes nothing.
pub open spec fn extracted_videos(items: Seq<JsonNode>) -> Seq<VideoView>
    decreases items.len(),
{
    if items.len() == 0 {
        Seq::empty()
    } else {
        extracted_videos(items.drop_last()) + (match item_video(items.last()) {
            Option::Some(v) => seq![v],
            Option::None => Seq::empty(),
        })
    }
}

pub open spec fn extracted_playlists(items: Seq<JsonNode>) -> Seq<PlaylistView>
    decreases items.len(),
{
    if items.len() == 0 {
        Seq::empty()
    } else {
        extracted_playlists(items.drop_last()) + (match item_playlist(items.last()) {
            Option::Some(p) => seq![p],
            Option::None => Seq::empty(),
        })
    }
}

/// The node an optional reference stands for.
pub open spec fn deref_opt(o: Option<&JsonNode>) -> Option<JsonNode> {
    match o {
        Option::Some(n) => Option::Some(*n),
        Option::None => Option::None,
    }
}

fn member_then<'a>(o: Option<&'a JsonNode>, key: &str) -> (r: Option<&'a JsonNode>)
    ensures
        deref_opt(r) == step_member(deref_opt(o), key@),
{
    match o {
        Some(n) => n.member(key),
        None => None,
    }
}

fn element_then<'a>(o: Option<&'a JsonNode>, i: usize) -> (r: Option<&'a JsonNode>)
    ensures
        deref_opt(r) == step_element(deref_opt(o), i as int),
{
    match o {
        Some(n) => n.element(i),
        None => None,
    }
}

fn text_then(o: Option<&JsonNode>) -> (r: Option<String>)
    ensures
        match r {
            Option::Some(s) => text_at(deref_opt(o)) == Option::Some(s@),
            Option::None => text_at(deref_opt(o)) is None,
        },
{
    match o {
        Some(n) => match n.text() {
            Some(s) => Some(s.clone()),
            None => None,
        },
        None => None,
    }
}

fn runs_text_of(o: Option<&JsonNode>) -> (r: Option<String>)
    ensures
        match r {
            Option::Some(s) => runs_text(deref_opt(o)) == Option::Some(s@),
            Option::None => runs_text(deref_opt(o)) is None,
        },
{
    text_then(member_then(element_then(member_then(o, "runs"), 0), "text"))
}

fn simple_text_of(o: Option<&JsonNode>) -> (r: Option<String>)
    ensures
        match r {
            Option::Some(s) => simple_text(deref_opt(o)) == Option::Some(s@),
            Option::None => simple_text(deref_opt(o)) is None,
        },
{
    text_then(member_then(o, "simpleText"))
}

fn endpoint_url_of(o: Option<&JsonNode>) -> (r: Option<String>)
    ensures
        match r {
            Option::Some(s) => endpoint_url(deref_opt(o)) == Option::Some(s@),
            Option::None => endpoint_url(deref_opt(o)) is None,
        },
{
    let a = member_then(o, "navigationEndpoint");
    let b = member_then(a, "commandMetadata");
    let c = member_then(b, "webCommandMetadata");
    text_then(member_then(c, "url"))
}

/// The video record of one video renderer node, `None` when a required
/// leaf is missing so that the record is dropped.
fn video_from(vr: &JsonNode) -> (r: Option<Video>)
    ensures
        match r {
            Option::Some(v) => video_fields(*vr) == Option::Some(v@),
            Option::None => video_fields(*vr) is None,
        },
{
    let name = runs_text_of(member_then(Some(vr), "title"));
    let length = simple_text_of(member_then(Some(vr), "lengthText"));
    let url = endpoint_url_of(Some(vr));
    let owner = runs_text_of(member_then(Some(vr), "ownerText"));
    let published = simple_text_of(member_then(Some(vr), "publishedTimeText"));
    match (name, length, url, owner, published) {
        (Some(name), Some(length), Some(url), Some(owner), Some(published)) => Some(
            Video::new(name, length, url, owner, published),
        ),
        _ => None,
    }
}

/// The playlist record of one playlist renderer node.
fn playlist_from(pr: &JsonNode) -> (r: Option<Playlist>)
    ensures
        match r {
            Option::Some(p) => playlist_fields(*pr) == Option::Some(p@),
            Option::None => playlist_fields(*pr) is None,
        },
{
    let name = simple_text_of(member_then(Some(pr), "title"));
    let url = endpoint_url_of(Some(pr));
    let published = simple_text_of(member_then(Some(pr), "publishedTimeText"));
    let video_count = runs_text_of(member_then(Some(pr), "videoCountText"));
    let owner = runs_text_of(member_then(Some(pr), "shortBylineText"));
    match (name, url, published, video_count, owner) {
        (Some(name), Some(url), Some(published), Some(video_count), Some(owner)) => Some(
            Playlist::new(name, url, published, video_count, owner),
        ),
        _ => None,
    }
}

/// Walk the results container: one record per renderer node whose required
/// leaves are all present, in document order; the rest are skipped.
fn collect_records(items: &Vec<JsonNode>) -> (r: (Vec<Video>, Vec<Playlist>))
    ensures
        r.0@.map_values(|v: Video| v@) == extracted_videos(items@),
        r.1@.map_values(|p: Playlist| p@) == extracted_playlists(items@),
{
    let mut videos: Vec<Video> = Vec::new();
    let mut playlists: Vec<Playlist> = Vec::new();
    let mut i: usize = 0;
    proof {
        assert(items@.subrange(0, 0) =~= Seq::<JsonNode>::empty());
        assert(videos@.map_values(|v: Video| v@) =~= extracted_videos(items@.subrange(0, 0)));
        assert(playlists@.map_values(|p: Playlist| p@) =~= extracted_playlists(
            items@.subrange(0, 0),
        ));
    }
    while i < items.len()
        invariant
            0 <= i <= items@.len(),
            videos@.map_values(|v: Video| v@) == extracted_videos(items@.subrange(0, i as int)),
            playlists@.map_values(|p: Playlist| p@) == extracted_playlists(
                items@.subrange(0, i as int),
            ),
        decreases items@.len() - i,
    {
        let ghost pre = items@.subrange(0, i as int);
        let ghost cur = items@.subrange(0, i as int + 1);
        proof {
            assert(cur.drop_last() =~= pre);
            assert(cur.last() == items@[i as int]);
        }
        match items[i].member("videoRenderer") {
            Some(vr) => {
                match video_from(vr) {
                    Some(v) => {
                        let ghost old_vs = videos@.map_values(|x: Video| x@);
                        videos.push(v);
                        proof {
                            assert(videos@.map_values(|x: Video| x@) =~= old_vs.push(v@));
                            assert(extracted_videos(cur) =~= old_vs.push(v@));
                        }
                    },
                    None => {
                        proof {
                            assert(extracted_videos(cur) =~= extracted_videos(pre));
                        }
                    },
                }
            },
            None => {
                proof {
                    assert(extracted_videos(cur) =~= extracted_videos(pre));
                }
            },
        }
        match items[i].member("playlistRenderer") {
            Some(pr) => {
                match playlist_from(pr) {
                    Some(p) => {
                        let ghost old_ps = playlists@.map_values(|x: Playlist| x@);
                        playlists.push(p);
                        proof {
                            assert(playlists@.map_values(|x: Playlist| x@) =~= old_ps.push(p@));
                            assert(extracted_playlists(cur) =~= old_ps.push(p@));
                        }
                    },
                    None => {
                        proof {
                            assert(extracted_playlists(cur) =~= extracted_playlists(pre));
                        }
                    },
                }
            },
            None => {
                proof {
                    assert(extracted_playlists(cur) =~= extracted_playlists(pre));
                }
            },
        }
        i = i + 1;
    }
    proof {
        assert(items@.subrange(0, items@.len() as int) =~= items@);
    }
    (videos, playlists)
}

/// Extract the result records of one page body. Fails with
/// `MarkerNotFound` when the embedded document's span cannot be located,
/// `MalformedJson` when its text does not parse, and `UnexpectedShape`
/// when the path to the results container is broken; a single renderer
/// node with a missing leaf only drops that record.
pub fn extract(page_body: &str) -> (r: Result<(Vec<Video>, Vec<Playlist>), ExtractError>)
    ensures
        ({
            match embedded_json(page_body@) {
                Option::None => r is Err && r->Err_0 == ExtractError::MarkerNotFound,
                Option::Some(t) => match json_doc_of(t) {
                    Option::None => r is Err && r->Err_0 == ExtractError::MalformedJson,
                    Option::Some(root) => match result_items(root) {
                        Option::None => r is Err && r->Err_0 == ExtractError::UnexpectedShape,
                        Option::Some(items) => r is Ok && r->Ok_0.0@.map_values(|v: Video| v@)
                            == extracted_videos(items) && r->Ok_0.1@.map_values(
                            |p: Playlist| p@,
                        ) == extracted_playlists(items),
                    },
                },
            }
        }),
{
    let chars = str_to_chars(page_body);
    let marker = str_to_chars("ytInitialData");
    let start = match find_first(&chars, &marker) {
        Some(i) => i,
        None => {
            return Err(ExtractError::MarkerNotFound);
        },
    };
    proof {
        assert(is_first_match(page_body@, data_marker(), start as int));
        let i0 = choose|i: int| is_first_match(page_body@, data_marker(), i);
        lemma_first_match_unique(page_body@, data_marker(), i0, start as int);
    }
    let n = chars.len();
    if n - start < 17 {
        return Err(ExtractError::MarkerNotFound);
    }
    let tail = tail_chars(&chars, start + 17);
    let end_mark = str_to_chars("window[\"ytInitialPlayerResponse\"]");
    let endpos = match find_first(&tail, &end_mark) {
        Some(j) => j,
        None => {
            return Err(ExtractError::MarkerNotFound);
        },
    };
    proof {
        assert(is_first_match(tail@, end_marker(), endpos as int));
        let j0 = choose|j: int| is_first_match(tail@, end_marker(), j);
        lemma_first_match_unique(tail@, end_marker(), j0, endpos as int);
    }
    if endpos < 6 {
        return Err(ExtractError::MarkerNotFound);
    }
    let text = page_body.substring_char(start + 17, start + 17 + (endpos - 6));
    proof {
        let s = page_body@;
        let i0 = choose|i: int| is_first_match(s, data_marker(), i);
        assert(i0 == start as int);
        assert(i0 + head_skip() <= s.len());
        let tl = s.subrange(i0 + head_skip(), s.len() as int);
        assert(tl =~= tail@);
        assert(is_first_match(tl, end_marker(), endpos as int));
        let j0 = choose|j: int| is_first_match(tl, end_marker(), j);
        lemma_first_match_unique(tl, end_marker(), j0, endpos as int);
        assert(j0 == endpos as int);
        assert(j0 >= tail_trim());
        assert(text@ =~= tl.subrange(0, j0 - tail_trim()));
        assert(embedded_json(s) == Option::Some(tl.subrange(0, j0 - tail_trim())));
    }
    let root = match parse_json_text(text) {
        Some(root) => root,
        None => {
            return Err(ExtractError::MalformedJson);
        },
    };
    let a = member_then(Some(&root), "contents");
    let b = member_then(a, "twoColumnSearchResultsRenderer");
    let c = member_then(b, "primaryContents");
    let d = member_then(c, "sectionListRenderer");
    let e = member_then(d, "contents");
    let f = element_then(e, 0);
    let g = member_then(f, "itemSectionRenderer");
    let container = match member_then(g, "contents") {
        Some(container) => container,
        None => {
            return Err(ExtractError::UnexpectedShape);
        },
    };
    match container {
        JsonNode::Array(items) => Ok(collect_records(items)),
        _ => {
            let no_videos: Vec<Video> = Vec::new();
            let no_playlists: Vec<Playlist> = Vec::new();
            proof {
                let empty_items = Seq::<JsonNode>::empty();
                assert(result_items(root) == Option::Some(empty_items));
                assert(no_videos@.map_values(|v: Video| v@) =~= extracted_videos(empty_items));
                assert(no_playlists@.map_values(|p: Playlist| p@) =~= extracted_playlists(
                    empty_items,
                ));
            }
            Ok((no_videos, no_playlists))
        },
    }
}

} // verus!
