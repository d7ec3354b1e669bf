//! The two result record shapes, `Video` and `Playlist`, and their
//! canonical single-line text rendering.

use crate::numerals::dec_digits;
use crate::numerals::u64_to_dec;
use vstd::prelude::*;
use vstd::string::*;

verus! {

/// `n` space characters.
pub open spec fn spaces(n: nat) -> Seq<char> {
    Seq::new(n, |i: int| ' ')
}

/// Left-aligned padding of `s` to width `w`: spaces are appended until the
/// width is reached; a longer text is kept whole, never truncated.
pub open spec fn pad(s: Seq<char>, w: nat) -> Seq<char> {
    if s.len() >= w {
        s
    } else {
        s + spaces((w - s.len()) as nat)
    }
}

/// The canonical line body of a video: name, owner, published and duration,
/// each left-aligned in its fixed column, separated by single spaces.
pub open spec fn video_line(v: VideoView) -> Seq<char> {
    pad(v.name, 100) + seq![' '] + pad(v.owner, 60) + seq![' '] + pad(v.published, 30)
        + seq![' '] + pad(v.length, 10)
}

/// The canonical line body of a playlist: name, owner, published and video
/// count, in the same columns as a video line.
pub open spec fn playlist_line(p: PlaylistView) -> Seq<char> {
    pad(p.name, 100) + seq![' '] + pad(p.owner, 60) + seq![' '] + pad(p.published, 30)
        + seq![' '] + pad(p.video_count, 10)
}

/// The full rendered line of the video at position `i`: token `V{i}`, one
/// space, the line body, and a terminating newline.
pub open spec fn video_entry(i: nat, v: VideoView) -> Seq<char> {
    seq!['V'] + dec_digits(i) + seq![' '] + video_line(v) + seq!['\n']
}

/// The full rendered line of the playlist at position `i`, with token `P{i}`.
pub open spec fn playlist_entry(i: nat, p: PlaylistView) -> Seq<char> {
    seq!['P'] + dec_digits(i) + seq![' '] + playlist_line(p) + seq!['\n']
}

/// Pad `s` with trailing spaces to `w` characters.
fn pad_to(s: &str, w: usize) -> (r: String)
    ensures
        r@ == pad(s@, w as nat),
{
    let n = s.unicode_len();
    let mut r = String::from_str(s);
    if n >= w {
        return r;
    }
    let mut k = n;
    proof {
        assert(r@ =~= s@ + spaces(0));
    }
    while k < w
        invariant
            n == s@.len(),
            n <= k <= w,
            r@ == s@ + spaces((k - n) as nat),
        decreases w - k,
    {
        r.append(" ");
        proof {
            reveal_strlit(" ");
            assert(r@ =~= s@ + spaces((k + 1 - n) as nat));
        }
        k = k + 1;
    }
    r
}

/// Mathematical value of a `Video`: its five text fields as char sequences.
pub struct VideoView {
    pub name: Seq<char>,
    pub length: Seq<char>,
    pub url: Seq<char>,
    pub owner: Seq<char>,
    pub published: Seq<char>,
}

/// Mathematical value of a `Playlist`.
pub struct PlaylistView {
    pub name: Seq<char>,
    pub url: Seq<char>,
    pub published: Seq<char>,
    pub video_count: Seq<char>,
    pub owner: Seq<char>,
}

/// One video search result. Immutable once constructed.
pub struct Video {
    name: String,
    length: String,
    url: String,
    owner: String,
    published: String,
}

/// One playlist search result. Immutable once constructed.
pub struct Playlist {
    name: String,
    url: String,
    published: String,
    video_count: String,
    owner: String,
}

impl View for Video {
    type V = VideoView;

    closed spec fn view(&self) -> VideoView {
        VideoView {
            name: self.name@,
            length: self.length@,
            url: self.url@,
            owner: self.owner@,
            published: self.published@,
        }
    }
}

impl View for Playlist {
    type V = PlaylistView;

    closed spec fn view(&self) -> PlaylistView {
        PlaylistView {
            name: self.name@,
            url: self.url@,
            published: self.published@,
            video_count: self.video_count@,
            owner: self.owner@,
        }
    }
}

impl Video {
    pub fn new(
        name: String,
        length: String,
        url: String,
        owner: String,
        published: String,
    ) -> (r: Self)
        ensures
            r@ == (VideoView {
                name: name@,
                length: length@,
                url: url@,
                owner: owner@,
                published: published@,
            }),
    {
        Video { name, length, url, owner, published }
    }

    pub fn url(&self) -> (r: &str)
        ensures
            r@ == self@.url,
    {
        self.url.as_str()
    }

    /// The one-line rendering of this video's fields.
    pub fn to_string(&self) -> (r: String)
        ensures
            r@ == video_line(self@),
    {
        let mut r = pad_to(self.name.as_str(), 100);
        r.append(" ");
        let owner = pad_to(self.owner.as_str(), 60);
        r.append(owner.as_str());
        r.append(" ");
        let published = pad_to(self.published.as_str(), 30);
        r.append(published.as_str());
        r.append(" ");
        let length = pad_to(self.length.as_str(), 10);
        r.append(length.as_str());
        proof {
            reveal_strlit(" ");
            assert(r@ =~= video_line(self@));
        }
        r
    }

    pub fn name(&self) -> (r: &str)
        ensures
            r@ == self@.name,
    {
        self.name.as_str()
    }

    pub fn owner(&self) -> (r: &str)
        ensures
            r@ == self@.owner,
    {
        self.owner.as_str()
    }

    pub fn published(&self) -> (r: &str)
        ensures
            r@ == self@.published,
    {
        self.published.as_str()
    }

    pub fn length(&self) -> (r: &str)
        ensures
            r@ == self@.length,
    {
        self.length.as_str()
    }
}

impl Playlist {
    pub fn new(
        name: String,
        url: String,
        published: String,
        video_count: String,
        owner: String,
    ) -> (r: Self)
        ensures
            r@ == (PlaylistView {
                name: name@,
                url: url@,
                published: published@,
                video_count: video_count@,
                owner: owner@,
            }),
    {
        Playlist { name, url, published, video_count, owner }
    }

    pub fn url(&self) -> (r: &str)
        ensures
            r@ == self@.url,
    {
        self.url.as_str()
    }

    /// The one-line rendering of this playlist's fields.
    pub fn to_string(&self) -> (r: String)
        ensures
            r@ == playlist_line(self@),
    {
        let mut r = pad_to(self.name.as_str(), 100);
        r.append(" ");
        let owner = pad_to(self.owner.as_str(), 60);
        r.append(owner.as_str());
        r.append(" ");
        let published = pad_to(self.published.as_str(), 30);
        r.append(published.as_str());
        r.append(" ");
        let video_count = pad_to(self.video_count.as_str(), 10);
        r.append(video_count.as_str());
        proof {
            reveal_strlit(" ");
            assert(r@ =~= playlist_line(self@));
        }
        r
    }

    pub fn name(&self) -> (r: &str)
        ensures
            r@ == self@.name,
    {
        self.name.as_str()
    }

    pub fn owner(&self) -> (r: &str)
        ensures
            r@ == self@.owner,
    {
        self.owner.as_str()
    }

    pub fn published(&self) -> (r: &str)
        ensures
            r@ == self@.published,
    {
        self.published.as_str()
    }

    pub fn video_count(&self) -> (r: &str)
        ensures
            r@ == self@.video_count,
    {
        self.video_count.as_str()
    }
}

/// Render every record as its full line, token included: the corpus handed
/// to the chooser, videos first, then playlists, each in sequence order.
pub fn data_to_string(video_list: &Vec<Video>, playlist_list: &Vec<Playlist>) -> (r: (
    Vec<String>,
    Vec<String>,
))
    ensures
        r.0@.len() == video_list@.len(),
        r.1@.len() == playlist_list@.len(),
        forall|i: int|
            0 <= i < video_list@.len() ==> #[trigger] r.0@[i]@ == video_entry(
                i as nat,
                video_list@[i]@,
            ),
        forall|i: int|
            0 <= i < playlist_list@.len() ==> #[trigger] r.1@[i]@ == playlist_entry(
                i as nat,
                playlist_list@[i]@,
            ),
{
    let mut videos_as_string: Vec<String> = Vec::new();
    let mut i: usize = 0;
    while i < video_list.len()
        invariant
            0 <= i <= video_list@.len(),
            videos_as_string@.len() == i,
            forall|j: int|
                0 <= j < i ==> #[trigger] videos_as_string@[j]@ == video_entry(
                    j as nat,
                    video_list@[j]@,
                ),
        decreases video_list@.len() - i,
    {
        let mut line = String::from_str("V");
        let index = u64_to_dec(i as u64);
        line.append(index.as_str());
        line.append(" ");
        let body = video_list[i].to_string();
        line.append(body.as_str());
        line.append("\n");
        proof {
            reveal_strlit("V");
            reveal_strlit(" ");
            reveal_strlit("\n");
            assert(line@ =~= video_entry(i as nat, video_list@[i as int]@));
        }
        videos_as_string.push(line);
        i = i + 1;
    }
    let mut playlists_as_string: Vec<String> = Vec::new();
    let mut i: usize = 0;
    while i < playlist_list.len()
        invariant
            0 <= i <= playlist_list@.len(),
            playlists_as_string@.len() == i,
            forall|j: int|
                0 <= j < i ==> #[trigger] playlists_as_string@[j]@ == playlist_entry(
                    j as nat,
                    playlist_list@[j]@,
                ),
        decreases playlist_list@.len() - i,
    {
        let mut line = String::from_str("P");
        let index = u64_to_dec(i as u64);
        line.append(index.as_str());
        line.append(" ");
        let body = playlist_list[i].to_string();
        line.append(body.as_str());
        line.append("\n");
        proof {
            reveal_strlit("P");
            reveal_strlit(" ");
            reveal_strlit("\n");
            assert(line@ =~= playlist_entry(i as nat, playlist_list@[i as int]@));
        }
        playlists_as_string.push(line);
        i = i + 1;
    }
    (videos_as_string, playlists_as_string)
}

} // verus!
