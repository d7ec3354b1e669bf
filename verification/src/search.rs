//! The coordinator's pure half: the query a page fetch uses, and the
//! single-threaded merge of per-page results that the concurrent join
//! hands back in completion order.

use crate::extract::ExtractError;
use crate::numerals::dec_digits;
use crate::numerals::u64_to_dec;
use crate::records::Playlist;
use crate::records::Video;
use vstd::prelude::*;
use vstd::seq_lib::lemma_multiset_commutative;
use vstd::string::*;

verus! {

/// The search-scope restriction: one of three fixed opaque query values,
/// or no restriction at all.
#[derive(Clone, Copy, Debug, PartialEq, Eq, Structural)]
pub enum SearchFilter {
    Video,
    Playlist,
    Channel,
    Unfiltered,
}

/// The opaque query parameter value of each filter; an unrestricted
/// search omits the parameter.
pub open spec fn filter_code(f: SearchFilter) -> Option<Seq<char>> {
    match f {
        SearchFilter::Video => Option::Some("EgIQAQ%3D%3D"@),
        SearchFilter::Channel => Option::Some("EgIQAg%3D%3D"@),
        SearchFilter::Playlist => Option::Some("EgIQAw%3D%3D"@),
        SearchFilter::Unfiltered => Option::None,
    }
}

/// Why a whole search run fails: a page fetch failed on the wire, or a
/// fetched page could not be extracted.
#[derive(Clone, Copy, Debug, PartialEq, Eq, Structural)]
pub enum SearchError {
    Transport,
    Extraction(ExtractError),
}

/// `params` is the query of the fetch for `page`: the search term, the
/// page number in decimal, and the filter code when there is one.
pub open spec fn query_of(
    params: Seq<(String, String)>,
    term: Seq<char>,
    page: nat,
    f: SearchFilter,
) -> bool {
    &&& params.len() == (if filter_code(f) is Some {
        3int
    } else {
        2int
    })
    &&& params[0].0@ == "search_query"@ && params[0].1@ == term
    &&& params[1].0@ == "p"@ && params[1].1@ == dec_digits(page)
    &&& (filter_code(f) is Some ==> params[2].0@ == "sp"@ && params[2].1@ == filter_code(f)->0)
}

/// The query parameters of the fetch for `page`.
pub fn build_query(term: &str, page: u64, filter: SearchFilter) -> (r: Vec<(String, String)>)
    ensures
        query_of(r@, term@, page as nat, filter),
{
    let mut r: Vec<(String, String)> = Vec::new();
    r.push((String::from_str("search_query"), String::from_str(term)));
    r.push((String::from_str("p"), u64_to_dec(page)));
    match filter {
        SearchFilter::Video => {
            r.push((String::from_str("sp"), String::from_str("EgIQAQ%3D%3D")));
        },
        SearchFilter::Channel => {
            r.push((String::from_str("sp"), String::from_str("EgIQAg%3D%3D")));
        },
        SearchFilter::Playlist => {
            r.push((String::from_str("sp"), String::from_str("EgIQAw%3D%3D")));
        },
        SearchFilter::Unfiltered => {},
    }
    r
}

/// The queries of one whole search: one per page number `1..=pages`, all
/// built before the concurrent fetches are scheduled.
pub fn page_queries(term: &str, pages: u64, filter: SearchFilter) -> (r: Vec<Vec<(String, String)>>)
    ensures
        r@.len() == pages as nat,
        forall|i: int| 0 <= i < pages ==> query_of(#[trigger] r@[i]@, term@, (i + 1) as nat, filter),
{
    let mut r: Vec<Vec<(String, String)>> = Vec::new();
    let mut p: u64 = 0;
    while p < pages
        invariant
            0 <= p <= pages,
            r@.len() == p as nat,
            forall|i: int| 0 <= i < p ==> query_of(#[trigger] r@[i]@, term@, (i + 1) as nat, filter),
        decreases pages - p,
    {
        r.push(build_query(term, p + 1, filter));
        p = p + 1;
    }
    r
}

/// The videos of a merged result set: each page's videos in turn, pages
/// taken in the order the concurrent join completed them.
pub open spec fn merged_videos(pages: Seq<(Vec<Video>, Vec<Playlist>)>) -> Seq<Video>
    decreases pages.len(),
{
    if pages.len() == 0 {
        Seq::empty()
    } else {
        merged_videos(pages.drop_last()) + pages.last().0@
    }
}

pub open spec fn merged_playlists(pages: Seq<(Vec<Video>, Vec<Playlist>)>) -> Seq<Playlist>
    decreases pages.len(),
{
    if pages.len() == 0 {
        Seq::empty()
    } else {
        merged_playlists(pages.drop_last()) + pages.last().1@
    }
}

/// Merge per-page results into the two flat sequences, in the given
/// (completion) order; within one page, document order is kept.
pub fn merge_pages(pages: Vec<(Vec<Video>, Vec<Playlist>)>) -> (r: (Vec<Video>, Vec<Playlist>))
    ensures
        r.0@ == merged_videos(pages@),
        r.1@ == merged_playlists(pages@),
{
    let ghost orig = pages@;
    let mut pages = pages;
    let mut videos: Vec<Video> = Vec::new();
    let mut playlists: Vec<Playlist> = Vec::new();
    let ghost k: int = 0;
    while pages.len() > 0
        invariant
            0 <= k <= orig.len(),
            pages@ == orig.subrange(k, orig.len() as int),
            videos@ == merged_videos(orig.subrange(0, k)),
            playlists@ == merged_playlists(orig.subrange(0, k)),
        decreases pages@.len(),
    {
        let (mut vs, mut ps) = pages.remove(0);
        proof {
            assert(orig.subrange(k, orig.len() as int)[0] == orig[k]);
            assert(pages@ =~= orig.subrange(k + 1, orig.len() as int));
            assert(orig.subrange(0, k + 1).drop_last() =~= orig.subrange(0, k));
            assert(orig.subrange(0, k + 1).last() == orig[k]);
        }
        videos.append(&mut vs);
        playlists.append(&mut ps);
        proof {
            k = k + 1;
        }
    }
    proof {
        assert(orig.subrange(0, orig.len() as int) =~= orig);
    }
    (videos, playlists)
}

/// The per-page payloads of outcomes that all succeeded.
pub open spec fn page_payloads(
    pages: Seq<Result<(Vec<Video>, Vec<Playlist>), SearchError>>,
) -> Seq<(Vec<Video>, Vec<Playlist>)>
    decreases pages.len(),
{
    if pages.len() == 0 {
        Seq::empty()
    } else {
        page_payloads(pages.drop_last()).push(pages.last()->Ok_0)
    }
}

/// Fail-fast merge of per-page outcomes: the merged result set when every
/// page succeeded, the first failure in completion order otherwise.
pub fn merge_results(pages: Vec<Result<(Vec<Video>, Vec<Playlist>), SearchError>>) -> (r: Result<
    (Vec<Video>, Vec<Playlist>),
    SearchError,
>)
    ensures
        (forall|i: int| 0 <= i < pages@.len() ==> pages@[i] is Ok) <==> r is Ok,
        r is Err ==> exists|i: int|
            0 <= i < pages@.len() && pages@[i] is Err && pages@[i]->Err_0 == r->Err_0 && (
            forall|j: int| 0 <= j < i ==> pages@[j] is Ok),
        r is Ok ==> r->Ok_0.0@ == merged_videos(page_payloads(pages@)) && r->Ok_0.1@
            == merged_playlists(page_payloads(pages@)),
{
    let mut i: usize = 0;
    while i < pages.len()
        invariant
            0 <= i <= pages@.len(),
            forall|j: int| 0 <= j < i ==> pages@[j] is Ok,
        decreases pages@.len() - i,
    {
        match &pages[i] {
            Ok(_) => {},
            Err(e) => {
                return Err(*e);
            },
        }
        i = i + 1;
    }
    let ghost all = pages@;
    let mut ok_pages: Vec<(Vec<Video>, Vec<Playlist>)> = Vec::new();
    let mut rest = pages;
    let ghost k: int = 0;
    while rest.len() > 0
        invariant
            0 <= k <= all.len(),
            rest@ == all.subrange(k, all.len() as int),
            forall|j: int| 0 <= j < all.len() ==> all[j] is Ok,
            ok_pages@ == page_payloads(all.subrange(0, k)),
        decreases rest@.len(),
    {
        proof {
            assert(all.subrange(k, all.len() as int)[0] == all[k]);
        }
        match rest.remove(0) {
            Ok(page) => {
                proof {
                    assert(rest@ =~= all.subrange(k + 1, all.len() as int));
                    assert(all.subrange(0, k + 1).drop_last() =~= all.subrange(0, k));
                    assert(all.subrange(0, k + 1).last() == all[k]);
                }
                ok_pages.push(page);
                proof {
                    k = k + 1;
                }
            },
            Err(_) => {
                proof {
                    assert(all[k] is Ok);
                    assert(false);
                }
            },
        }
    }
    proof {
        assert(all.subrange(0, all.len() as int) =~= all);
    }
    Ok(merge_pages(ok_pages))
}

/// Taking one page out of a merge removes exactly that page's records, as
/// multisets.
proof fn lemma_merged_remove(pages: Seq<(Vec<Video>, Vec<Playlist>)>, i: int)
    requires
        0 <= i < pages.len(),
    ensures
        merged_videos(pages).to_multiset() == merged_videos(pages.remove(i)).to_multiset().add(
            pages[i].0@.to_multiset(),
        ),
        merged_playlists(pages).to_multiset() == merged_playlists(
            pages.remove(i),
        ).to_multiset().add(pages[i].1@.to_multiset()),
    decreases pages.len(),
{
    broadcast use vstd::multiset::group_multiset_axioms;

    let t = pages.drop_last();
    let x = pages.last();
    lemma_multiset_commutative(merged_videos(t), x.0@);
    lemma_multiset_commutative(merged_playlists(t), x.1@);
    if i == pages.len() - 1 {
        assert(pages.remove(i) =~= t);
        assert(merged_videos(pages).to_multiset() =~= merged_videos(t).to_multiset().add(
            x.0@.to_multiset(),
        ));
        assert(merged_playlists(pages).to_multiset() =~= merged_playlists(t).to_multiset().add(
            x.1@.to_multiset(),
        ));
    } else {
        lemma_merged_remove(t, i);
        let s = pages.remove(i);
        assert(s.drop_last() =~= t.remove(i));
        assert(s.last() == x);
        lemma_multiset_commutative(merged_videos(t.remove(i)), x.0@);
        lemma_multiset_commutative(merged_playlists(t.remove(i)), x.1@);
        assert(merged_videos(pages).to_multiset() =~= merged_videos(s).to_multiset().add(
            pages[i].0@.to_multiset(),
        ));
        assert(merged_playlists(pages).to_multiset() =~= merged_playlists(s).to_multiset().add(
            pages[i].1@.to_multiset(),
        ));
    }
}

/// Completion order does not matter: two runs that complete the same
/// per-page results in different orders merge to the same multiset of
/// video records and the same multiset of playlist records.
pub proof fn lemma_merge_completion_order(
    pages1: Seq<(Vec<Video>, Vec<Playlist>)>,
    pages2: Seq<(Vec<Video>, Vec<Playlist>)>,
)
    requires
        pages1.to_multiset() == pages2.to_multiset(),
    ensures
        merged_videos(pages1).to_multiset() == merged_videos(pages2).to_multiset(),
        merged_playlists(pages1).to_multiset() == merged_playlists(pages2).to_multiset(),
    decreases pages1.len(),
{
    broadcast use vstd::multiset::group_multiset_axioms;

    pages1.to_multiset_ensures();
    pages2.to_multiset_ensures();
    if pages1.len() == 0 {
        assert(pages2.to_multiset().len() == 0);
        assert(pages2.len() == 0);
    } else {
        let x = pages1.last();
        let p1 = pages1.drop_last();
        p1.to_multiset_ensures();
        assert(pages1 =~= p1.push(x));
        assert(pages1.to_multiset() == p1.push(x).to_multiset());
        assert(p1.push(x).to_multiset() =~= p1.to_multiset().insert(x));
        assert(pages2.to_multiset().count(x) > 0);
        assert(pages2.contains(x));
        let i = choose|i: int| 0 <= i < pages2.len() && pages2[i] == x;
        let p2 = pages2.remove(i);
        p2.to_multiset_ensures();
        assert(p2.to_multiset() =~= pages2.to_multiset().remove(x));
        assert(p1.to_multiset() =~= p2.to_multiset());
        lemma_merge_completion_order(p1, p2);
        lemma_multiset_commutative(merged_videos(p1), x.0@);
        lemma_multiset_commutative(merged_playlists(p1), x.1@);
        assert(merged_videos(pages1).to_multiset() =~= merged_videos(p1).to_multiset().add(
            x.0@.to_multiset(),
        ));
        assert(merged_playlists(pages1).to_multiset() =~= merged_playlists(
            p1,
        ).to_multiset().add(x.1@.to_multiset()));
        lemma_merged_remove(pages2, i);
    }
}

} // verus!
