//! The selection protocol: parsing a selection line back to the record it
//! names, the output for a resolved selection, and one step of the
//! built-in prompt.

use crate::numerals::all_digits;
use crate::numerals::dec_digits;
use crate::numerals::digits_value;
use crate::numerals::is_digit;
use crate::numerals::lemma_dec_digits_roundtrip;
use crate::numerals::parse_index;
use crate::records::Playlist;
use crate::records::Video;
use crate::records::playlist_line;
use crate::records::video_line;
use crate::scan::find_first;
use crate::scan::is_first_match;
use crate::scan::is_ws;
use crate::scan::lemma_first_match_unique;
use crate::scan::matches_at;
use crate::scan::str_to_chars;
use crate::scan::trim_spec;
use crate::scan::trim_ws;
use vstd::prelude::*;
use vstd::string::*;

verus! {

/// Why a selection line names no record: its token is malformed, or the
/// index it carries is past the end of the relevant sequence.
#[derive(Clone, Copy, Debug, PartialEq, Eq, Structural)]
pub enum SelectionError {
    InvalidToken,
    IndexOutOfRange,
}

/// The record a selection resolves to: a position in the videos sequence
/// or one in the playlists sequence.
#[derive(Clone, Copy, Debug, PartialEq, Eq, Structural)]
pub enum Chosen {
    VideoAt(usize),
    PlaylistAt(usize),
}

/// The token of a selection line: everything before the first space, or
/// the whole line when it has none.
pub open spec fn token_of(line: Seq<char>) -> Seq<char> {
    if exists|i: int| is_first_match(line, seq![' '], i) {
        let i = choose|i: int| is_first_match(line, seq![' '], i);
        line.subrange(0, i)
    } else {
        line
    }
}

pub open spec fn is_video_prefix(c: char) -> bool {
    c == 'v' || c == 'V'
}

pub open spec fn is_playlist_prefix(c: char) -> bool {
    c == 'p' || c == 'P'
}

/// What a selection line resolves to over `nv` videos and `np` playlists:
/// the token must be a type prefix followed by a parsable index, and the
/// index must fall inside the sequence the prefix names.
pub open spec fn resolution(line: Seq<char>, nv: nat, np: nat) -> Result<
    Chosen,
    SelectionError,
> {
    let tok = token_of(line);
    if tok.len() < 2 {
        Result::Err(SelectionError::InvalidToken)
    } else {
        let rest = tok.subrange(1, tok.len() as int);
        if !(all_digits(rest) && digits_value(rest) <= usize::MAX) {
            Result::Err(SelectionError::InvalidToken)
        } else {
            let idx = digits_value(rest);
            if is_playlist_prefix(tok[0]) {
                if idx < np {
                    Result::Ok(Chosen::PlaylistAt(idx as usize))
                } else {
                    Result::Err(SelectionError::IndexOutOfRange)
                }
            } else if is_video_prefix(tok[0]) {
                if idx < nv {
                    Result::Ok(Chosen::VideoAt(idx as usize))
                } else {
                    Result::Err(SelectionError::IndexOutOfRange)
                }
            } else {
                Result::Err(SelectionError::InvalidToken)
            }
        }
    }
}

/// Resolve a selection line against the counts of the current result set.
pub fn resolve_selection(selection: &str, video_count: usize, playlist_count: usize) -> (r:
    Result<Chosen, SelectionError>)
    ensures
        r == resolution(selection@, video_count as nat, playlist_count as nat),
{
    let chars = str_to_chars(selection);
    let space = str_to_chars(" ");
    proof {
        reveal_strlit(" ");
        assert(space@ =~= seq![' ']);
    }
    let tok_end = match find_first(&chars, &space) {
        Some(i) => {
            proof {
                assert(is_first_match(selection@, seq![' '], i as int));
                let i0 = choose|j: int| is_first_match(selection@, seq![' '], j);
                lemma_first_match_unique(selection@, seq![' '], i0, i as int);
            }
            i
        },
        None => chars.len(),
    };
    let token = selection.substring_char(0, tok_end);
    proof {
        assert(token@ =~= token_of(selection@));
    }
    let tok_len = token.unicode_len();
    if tok_len < 2 {
        return Err(SelectionError::InvalidToken);
    }
    let rest = token.substring_char(1, tok_len);
    let idx = match parse_index(rest) {
        Some(idx) => idx,
        None => {
            return Err(SelectionError::InvalidToken);
        },
    };
    let first = token.get_char(0);
    if first == 'p' || first == 'P' {
        if idx < playlist_count {
            Ok(Chosen::PlaylistAt(idx))
        } else {
            Err(SelectionError::IndexOutOfRange)
        }
    } else if first == 'v' || first == 'V' {
        if idx < video_count {
            Ok(Chosen::VideoAt(idx))
        } else {
            Err(SelectionError::IndexOutOfRange)
        }
    } else {
        Err(SelectionError::InvalidToken)
    }
}

/// The base origin that a relative record URL is appended to.
pub open spec fn base_origin() -> Seq<char> {
    "https://youtube.com"@
}

/// The text printed for a selection: the record's absolute URL when
/// URL-only output is configured, its full rendered line body otherwise.
pub fn selection_output(
    videos: &Vec<Video>,
    playlists: &Vec<Playlist>,
    selection: &str,
    url_only: bool,
) -> (r: Result<String, SelectionError>)
    ensures
        ({
            match resolution(selection@, videos@.len() as nat, playlists@.len() as nat) {
                Result::Ok(Chosen::VideoAt(i)) => r is Ok && (if url_only {
                    r->Ok_0@ == base_origin() + videos@[i as int]@.url
                } else {
                    r->Ok_0@ == video_line(videos@[i as int]@)
                }),
                Result::Ok(Chosen::PlaylistAt(i)) => r is Ok && (if url_only {
                    r->Ok_0@ == base_origin() + playlists@[i as int]@.url
                } else {
                    r->Ok_0@ == playlist_line(playlists@[i as int]@)
                }),
                Result::Err(e) => r is Err && r->Err_0 == e,
            }
        }),
{
    match resolve_selection(selection, videos.len(), playlists.len()) {
        Ok(Chosen::VideoAt(i)) => {
            if url_only {
                let mut s = String::from_str("https://youtube.com");
                s.append(videos[i].url());
                Ok(s)
            } else {
                Ok(videos[i].to_string())
            }
        },
        Ok(Chosen::PlaylistAt(i)) => {
            if url_only {
                let mut s = String::from_str("https://youtube.com");
                s.append(playlists[i].url());
                Ok(s)
            } else {
                Ok(playlists[i].to_string())
            }
        },
        Err(e) => Err(e),
    }
}

/// The token of a rendered entry line is everything before the first
/// space: the type prefix and the decimal index.
proof fn lemma_entry_token(prefix: char, i: nat, body: Seq<char>)
    requires
        !is_ws(prefix),
        !is_digit(prefix),
    ensures
        token_of(seq![prefix] + dec_digits(i) + seq![' '] + body + seq!['\n']) == seq![prefix]
            + dec_digits(i),
{
    let d = dec_digits(i);
    let line = seq![prefix] + d + seq![' '] + body + seq!['\n'];
    lemma_dec_digits_roundtrip(i);
    let sp = 1 + d.len() as int;
    assert(line[sp] == ' ');
    assert(line.subrange(sp, sp + 1) =~= seq![' ']);
    assert(matches_at(line, seq![' '], sp));
    assert forall|j: int| 0 <= j < sp implies !matches_at(line, seq![' '], j) by {
        if matches_at(line, seq![' '], j) {
            assert(line.subrange(j, j + 1)[0] == line[j]);
            assert(line[j] == ' ');
            if j == 0 {
                assert(line[0] == prefix);
            } else {
                assert(line[j] == d[j - 1]);
                assert(is_digit(d[j - 1]));
                assert(' ' as u32 == 32);
            }
        }
    }
    assert(is_first_match(line, seq![' '], sp));
    let i0 = choose|k: int| is_first_match(line, seq![' '], k);
    lemma_first_match_unique(line, seq![' '], i0, sp);
    assert(token_of(line) == line.subrange(0, sp));
    assert(line.subrange(0, sp) =~= seq![prefix] + d);
}

/// Round trip of the line protocol, video side: the token rendered for
/// position `i` resolves back to exactly that video when `i` is in range,
/// and to the range error — never a wrong record — when it is not.
pub proof fn lemma_video_token_roundtrip(v: crate::records::VideoView, i: nat, nv: nat, np: nat)
    requires
        i <= usize::MAX,
    ensures
        i < nv ==> crate::records::video_entry(i, v).len() > 0 && resolution(
            crate::records::video_entry(i, v),
            nv,
            np,
        ) == Result::<Chosen, SelectionError>::Ok(Chosen::VideoAt(i as usize)),
        i >= nv ==> resolution(crate::records::video_entry(i, v), nv, np) == Result::<
            Chosen,
            SelectionError,
        >::Err(SelectionError::IndexOutOfRange),
{
    let d = dec_digits(i);
    let body = crate::records::video_line(v);
    let line = crate::records::video_entry(i, v);
    assert(line == seq!['V'] + d + seq![' '] + body + seq!['\n']);
    lemma_dec_digits_roundtrip(i);
    assert('V' as u32 == 86);
    lemma_entry_token('V', i, body);
    let tok = token_of(line);
    assert(tok == seq!['V'] + d);
    assert(tok.len() >= 2);
    assert(tok[0] == 'V');
    assert(tok.subrange(1, tok.len() as int) =~= d);
    assert(is_video_prefix(tok[0]) && !is_playlist_prefix(tok[0]));
    assert(digits_value(d) == i);
}

/// Round trip of the line protocol, playlist side.
pub proof fn lemma_playlist_token_roundtrip(
    p: crate::records::PlaylistView,
    i: nat,
    nv: nat,
    np: nat,
)
    requires
        i <= usize::MAX,
    ensures
        i < np ==> resolution(crate::records::playlist_entry(i, p), nv, np) == Result::<
            Chosen,
            SelectionError,
        >::Ok(Chosen::PlaylistAt(i as usize)),
        i >= np ==> resolution(crate::records::playlist_entry(i, p), nv, np) == Result::<
            Chosen,
            SelectionError,
        >::Err(SelectionError::IndexOutOfRange),
{
    let d = dec_digits(i);
    let body = crate::records::playlist_line(p);
    let line = crate::records::playlist_entry(i, p);
    assert(line == seq!['P'] + d + seq![' '] + body + seq!['\n']);
    lemma_dec_digits_roundtrip(i);
    assert('P' as u32 == 80);
    lemma_entry_token('P', i, body);
    let tok = token_of(line);
    assert(tok == seq!['P'] + d);
    assert(tok.len() >= 2);
    assert(tok[0] == 'P');
    assert(tok.subrange(1, tok.len() as int) =~= d);
    assert(is_playlist_prefix(tok[0]));
    assert(digits_value(d) == i);
}

/// One step of the built-in prompt: an empty (trimmed) line means no
/// selection, a well-formed token is accepted, anything else re-prompts.
pub enum PromptStep {
    NoChoice,
    Accepted(String),
    Again,
}

/// A well-formed prompt token: a video or playlist prefix followed by a
/// nonempty digit string whose value fits an index.
pub open spec fn valid_token(t: Seq<char>) -> bool {
    &&& t.len() >= 2
    &&& (is_video_prefix(t[0]) || is_playlist_prefix(t[0]))
    &&& all_digits(t.subrange(1, t.len() as int))
    &&& digits_value(t.subrange(1, t.len() as int)) <= usize::MAX
}

/// Classify one line of prompt input, whitespace trimmed.
pub fn prompt_step(line: &str) -> (r: PromptStep)
    ensures
        ({
            let t = trim_spec(line@);
            if t.len() == 0 {
                r is NoChoice
            } else if valid_token(t) {
                r matches PromptStep::Accepted(s) && s@ == t
            } else {
                r is Again
            }
        }),
{
    let t = trim_ws(line);
    let n = t.as_str().unicode_len();
    if n == 0 {
        return PromptStep::NoChoice;
    }
    if n < 2 {
        return PromptStep::Again;
    }
    let first = t.as_str().get_char(0);
    if !(first == 'p' || first == 'P' || first == 'v' || first == 'V') {
        return PromptStep::Again;
    }
    let rest = t.as_str().substring_char(1, n);
    match parse_index(rest) {
        Some(_) => PromptStep::Accepted(t),
        None => PromptStep::Again,
    }
}

} // verus!
