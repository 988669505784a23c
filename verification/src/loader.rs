//! The loaded collection of documents: which documents enter it, in which
//! order they stand, and that no two of them share a slug.

use crate::content::{lemma_post_views_push, post_views, Post, PostView};
use crate::text::{lemma_lex_total, lemma_lex_transitive, lex_lt, precedes, same_text, to_chars};
use vstd::prelude::*;

verus! {

/// The documents that are built: all of them where drafts are built too,
/// else those that are no drafts. Their order is kept.
pub open spec fn kept(candidates: Seq<PostView>, include_drafts: bool) -> Seq<PostView>
    decreases candidates.len(),
{
    if candidates.len() == 0 {
        Seq::empty()
    } else if include_drafts || !candidates.last().is_draft() {
        kept(candidates.drop_last(), include_drafts).push(candidates.last())
    } else {
        kept(candidates.drop_last(), include_drafts)
    }
}

/// A draft is built exactly where drafts are built; every other document
/// is built always. Nothing is built that was not handed in.
pub proof fn lemma_kept(candidates: Seq<PostView>, include_drafts: bool)
    ensures
        forall|k: int|
            0 <= k < kept(candidates, include_drafts).len() ==> candidates.contains(
                #[trigger] kept(candidates, include_drafts)[k],
            ) && (include_drafts || !kept(candidates, include_drafts)[k].is_draft()),
        forall|i: int|
            0 <= i < candidates.len() && (include_drafts || !(#[trigger] candidates[i]).is_draft())
                ==> kept(candidates, include_drafts).contains(candidates[i]),
        include_drafts ==> kept(candidates, include_drafts) == candidates,
        kept(candidates, include_drafts).len() <= candidates.len(),
    decreases candidates.len(),
{
    if candidates.len() > 0 {
        let head = candidates.drop_last();
        lemma_kept(head, include_drafts);
        let r = kept(candidates, include_drafts);
        let before = kept(head, include_drafts);
        assert forall|k: int| 0 <= k < r.len() implies candidates.contains(#[trigger] r[k]) && (
        include_drafts || !r[k].is_draft()) by {
            if k < before.len() {
                assert(head.contains(before[k]));
                let i = choose|i: int| 0 <= i < head.len() && head[i] == before[k];
                assert(candidates[i] == r[k]);
            } else {
                assert(candidates[candidates.len() - 1] == r[k]);
            }
        }
        assert forall|i: int|
            0 <= i < candidates.len() && (include_drafts || !(#[trigger] candidates[i]).is_draft())
            implies r.contains(candidates[i]) by {
            if i < head.len() {
                assert(head[i] == candidates[i]);
                assert(before.contains(head[i]));
                let k = choose|k: int| 0 <= k < before.len() && before[k] == head[i];
                assert(r[k] == candidates[i]);
            } else {
                assert(r[r.len() - 1] == candidates[i]);
            }
        }
        if include_drafts {
            assert(r =~= candidates);
        }
    } else {
        assert(kept(candidates, include_drafts) =~= candidates);
    }
}

/// How many documents at the head of `posts` are not older than `date`:
/// their own date is not before it.
pub open spec fn not_older(posts: Seq<PostView>, date: Seq<char>) -> nat
    decreases posts.len(),
{
    if posts.len() > 0 && !lex_lt(posts[0].front_matter.date, date) {
        1 + not_older(posts.skip(1), date)
    } else {
        0
    }
}

/// `posts` with `post` put behind the documents that are not older.
pub open spec fn with_post(posts: Seq<PostView>, post: PostView) -> Seq<PostView> {
    posts.insert(not_older(posts, post.front_matter.date) as int, post)
}

/// `posts` with each of `more` put at its place, one after the other.
pub open spec fn with_posts(posts: Seq<PostView>, more: Seq<PostView>) -> Seq<PostView>
    decreases more.len(),
{
    if more.len() == 0 {
        posts
    } else {
        with_post(with_posts(posts, more.drop_last()), more.last())
    }
}

/// Whether the documents stand newest first: no document's date is before
/// the date of one that follows it.
pub open spec fn newest_first(posts: Seq<PostView>) -> bool {
    forall|i: int, j: int|
        0 <= i < j < posts.len() ==> !lex_lt(
            (#[trigger] posts[i]).front_matter.date,
            (#[trigger] posts[j]).front_matter.date,
        )
}

pub proof fn lemma_not_older(posts: Seq<PostView>, date: Seq<char>)
    ensures
        not_older(posts, date) <= posts.len(),
        forall|k: int|
            0 <= k < not_older(posts, date) ==> !lex_lt((#[trigger] posts[k]).front_matter.date, date),
        not_older(posts, date) < posts.len() ==> lex_lt(
            posts[not_older(posts, date) as int].front_matter.date,
            date,
        ),
    decreases posts.len(),
{
    if posts.len() > 0 && !lex_lt(posts[0].front_matter.date, date) {
        lemma_not_older(posts.skip(1), date);
        let k = not_older(posts.skip(1), date);
        assert forall|j: int| 0 <= j < 1 + k implies !lex_lt(
            (#[trigger] posts[j]).front_matter.date,
            date,
        ) by {
            if j > 0 {
                assert(posts.skip(1)[j - 1] == posts[j]);
            }
        }
        if 1 + k < posts.len() {
            assert(posts.skip(1)[k as int] == posts[1 + k as int]);
        }
    }
}

/// Putting a document at its place keeps the order newest first, keeps
/// every document that was there, in the same order, and adds the one.
pub proof fn lemma_with_post(posts: Seq<PostView>, post: PostView)
    requires
        newest_first(posts),
    ensures
        newest_first(with_post(posts, post)),
        with_post(posts, post).len() == posts.len() + 1,
        with_post(posts, post).to_multiset() == posts.to_multiset().insert(post),
{
    let date = post.front_matter.date;
    lemma_not_older(posts, date);
    let at = not_older(posts, date) as int;
    let r = with_post(posts, post);
    assert forall|i: int, j: int| 0 <= i < j < r.len() implies !lex_lt(
        (#[trigger] r[i]).front_matter.date,
        (#[trigger] r[j]).front_matter.date,
    ) by {
        if j < at {
            assert(r[i] == posts[i] && r[j] == posts[j]);
        } else if j == at {
            assert(r[i] == posts[i]);
            assert(!lex_lt(posts[i].front_matter.date, date));
        } else {
            assert(r[j] == posts[j - 1]);
            let later = posts[j - 1].front_matter.date;
            if i < at {
                assert(r[i] == posts[i]);
            } else if i > at {
                assert(r[i] == posts[i - 1]);
            } else if lex_lt(date, later) {
                // the document at `at` is older than the new one, and
                // those behind it are not newer than it
                if at < j - 1 {
                    assert(!lex_lt(posts[at].front_matter.date, later));
                    lemma_lex_transitive(posts[at].front_matter.date, date, later);
                } else {
                    crate::text::lemma_lex_asymmetric(date, later);
                }
            }
        }
    }
    vstd::seq_lib::to_multiset_insert(posts, at, post);
}

/// Loading keeps the order newest first and adds exactly the documents
/// handed in.
pub proof fn lemma_with_posts(posts: Seq<PostView>, more: Seq<PostView>)
    requires
        newest_first(posts),
    ensures
        newest_first(with_posts(posts, more)),
        with_posts(posts, more).len() == posts.len() + more.len(),
        with_posts(posts, more).to_multiset() == posts.to_multiset().add(more.to_multiset()),
    decreases more.len(),
{
    broadcast use vstd::seq_lib::group_to_multiset_ensures;

    if more.len() > 0 {
        lemma_with_posts(posts, more.drop_last());
        lemma_with_post(with_posts(posts, more.drop_last()), more.last());
        assert(more =~= more.drop_last().push(more.last()));
        assert(with_posts(posts, more).to_multiset() =~= posts.to_multiset().add(
            more.to_multiset(),
        ));
    } else {
        assert(more.to_multiset() =~= vstd::multiset::Multiset::<PostView>::empty());
        assert(with_posts(posts, more).to_multiset() =~= posts.to_multiset().add(
            more.to_multiset(),
        ));
    }
}

/// Whether the slug of document `j` is that of a document before it.
pub open spec fn repeats_at(posts: Seq<PostView>, j: int) -> bool {
    exists|i: int| 0 <= i < j && (#[trigger] posts[i]).slug == posts[j].slug
}

/// The index of the first document at or after `from` whose slug is that
/// of a document before it, or the number of documents.
pub open spec fn first_repeat(posts: Seq<PostView>, from: int) -> int
    decreases posts.len() - from,
{
    if from < 0 || from >= posts.len() {
        posts.len() as int
    } else if repeats_at(posts, from) {
        from
    } else {
        first_repeat(posts, from + 1)
    }
}

/// Whether no two of the documents share a slug.
pub open spec fn distinct_slugs(posts: Seq<PostView>) -> bool {
    forall|i: int, j: int|
        0 <= i < j < posts.len() ==> (#[trigger] posts[i]).slug != (#[trigger] posts[j]).slug
}

/// Where no document repeats a slug, no two documents share one.
pub proof fn lemma_first_repeat(posts: Seq<PostView>, from: int)
    requires
        0 <= from,
    ensures
        from <= first_repeat(posts, from) || first_repeat(posts, from) == posts.len(),
        first_repeat(posts, from) <= posts.len(),
        first_repeat(posts, from) < posts.len() ==> repeats_at(posts, first_repeat(posts, from)),
        forall|j: int| from <= j < first_repeat(posts, from) ==> !repeats_at(posts, j),
    decreases posts.len() - from,
{
    if from < posts.len() && !repeats_at(posts, from) {
        lemma_first_repeat(posts, from + 1);
    }
}

/// The error for a slug that two documents share: its message is
/// `Duplicate slug: ` and the slug.
pub open spec fn duplicate_slug_message(slug: Seq<char>) -> Seq<char> {
    "Duplicate slug: "@ + slug
}

/// The documents of `candidates` that are built, in their order.
pub fn keep(candidates: Vec<Post>, include_drafts: bool) -> (r: Vec<Post>)
    ensures
        post_views(r@) == kept(post_views(candidates@), include_drafts),
{
    let ghost all = post_views(candidates@);
    let mut out: Vec<Post> = Vec::new();
    assert(post_views(out@) =~= Seq::<PostView>::empty());
    assert(all.take(0) =~= Seq::<PostView>::empty());
    for post in it: candidates
        invariant
            all == post_views(it.seq()),
            post_views(out@) == kept(all.take(it.index() as int), include_drafts),
    {
        proof {
            assert(all.take(it.index() + 1).drop_last() =~= all.take(it.index() as int));
            assert(all.take(it.index() + 1).last() == post@);
        }
        if include_drafts || !post.is_draft() {
            proof {
                lemma_post_views_push(out@, post);
            }
            out.push(post);
        }
    }
    assert(all.take(all.len() as int) =~= all);
    out
}

/// The index of the first document whose slug is that of a document
/// before it, or the number of documents.
pub fn find_repeat(slugs: &Vec<Vec<char>>) -> (r: usize)
    ensures
        r <= slugs@.len(),
        r < slugs@.len() ==> exists|i: int| 0 <= i < r && (#[trigger] slugs@[i])@ == slugs@[r as int]@,
        forall|i: int, j: int|
            0 <= i < j < r ==> (#[trigger] slugs@[i])@ != (#[trigger] slugs@[j])@,
{
    let mut j: usize = 0;
    while j < slugs.len()
        invariant
            j <= slugs@.len(),
            forall|i: int, k: int|
                0 <= i < k < j ==> (#[trigger] slugs@[i])@ != (#[trigger] slugs@[k])@,
        decreases slugs@.len() - j,
    {
        let mut i: usize = 0;
        while i < j
            invariant
                i <= j < slugs@.len(),
                forall|k: int| 0 <= k < i ==> (#[trigger] slugs@[k])@ != slugs@[j as int]@,
                forall|i: int, k: int|
                    0 <= i < k < j ==> (#[trigger] slugs@[i])@ != (#[trigger] slugs@[k])@,
            decreases j - i,
        {
            if same_text(&slugs[i], &slugs[j]) {
                return j;
            }
            i += 1;
        }
        j += 1;
    }
    j
}

/// Puts `post` into `posts`, behind the documents that are not older.
pub fn insert_post(posts: &mut Vec<Post>, post: Post)
    ensures
        post_views(final(posts)@) == with_post(post_views(old(posts)@), post@),
{
    let ghost all = post_views(posts@);
    let date = to_chars(post.front_matter.date.as_str());
    let mut at: usize = 0;
    assert(all.skip(0) =~= all);
    while at < posts.len() && !precedes(&to_chars(posts[at].front_matter.date.as_str()), &date)
        invariant
            at <= posts@.len(),
            posts@ == old(posts)@,
            all == post_views(posts@),
            date@ == post@.front_matter.date,
            not_older(all, date@) == at + not_older(all.skip(at as int), date@),
        decreases posts@.len() - at,
    {
        assert(all.skip(at as int)[0] == posts@[at as int]@);
        assert(all.skip(at as int).skip(1) =~= all.skip(at + 1));
        at += 1;
    }
    proof {
        if at < posts@.len() {
            assert(all.skip(at as int)[0] == posts@[at as int]@);
        }
    }
    posts.insert(at, post);
    assert(post_views(posts@) =~= all.insert(at as int, post@));
}

/// Puts each of `more` into `posts`, one after the other.
pub fn insert_posts(posts: &mut Vec<Post>, more: Vec<Post>)
    ensures
        post_views(final(posts)@) == with_posts(post_views(old(posts)@), post_views(more@)),
{
    let ghost all = post_views(more@);
    let ghost start = post_views(posts@);
    assert(all.take(0) =~= Seq::<PostView>::empty());
    for post in it: more
        invariant
            all == post_views(it.seq()),
            post_views(posts@) == with_posts(start, all.take(it.index() as int)),
    {
        proof {
            assert(all.take(it.index() + 1).drop_last() =~= all.take(it.index() as int));
            assert(all.take(it.index() + 1).last() == post@);
        }
        insert_post(posts, post);
    }
    assert(all.take(all.len() as int) =~= all);
}

/// Loading adds the documents handed in and no other.
pub proof fn lemma_with_posts_members(posts: Seq<PostView>, more: Seq<PostView>)
    ensures
        forall|x: PostView|
            #[trigger] with_posts(posts, more).contains(x) <==> posts.contains(x) || more.contains(x),
    decreases more.len(),
{
    if more.len() > 0 {
        let head = more.drop_last();
        let before = with_posts(posts, head);
        lemma_with_posts_members(posts, head);
        lemma_not_older(before, more.last().front_matter.date);
        let at = not_older(before, more.last().front_matter.date) as int;
        let r = with_posts(posts, more);
        assert(r == before.insert(at, more.last()));
        assert(r.len() == before.len() + 1);
        assert forall|x: PostView| #[trigger] r.contains(x) implies posts.contains(x)
            || more.contains(x) by {
            let k = choose|k: int| 0 <= k < r.len() && r[k] == x;
            if k == at {
                assert(more[more.len() - 1] == x);
            } else {
                if k < at {
                    assert(before[k] == x);
                } else {
                    assert(before[k - 1] == x);
                }
                assert(before.contains(x));
                if !posts.contains(x) {
                    assert(head.contains(x));
                    let j = choose|j: int| 0 <= j < head.len() && head[j] == x;
                    assert(more[j] == x);
                }
            }
        }
        assert forall|x: PostView| posts.contains(x) || more.contains(x) implies #[trigger] r.contains(
            x,
        ) by {
            if x == more.last() {
                assert(r[at] == x);
            } else {
                if !posts.contains(x) {
                    let j = choose|j: int| 0 <= j < more.len() && more[j] == x;
                    assert(head[j] == x);
                    assert(head.contains(x));
                }
                assert(before.contains(x));
                let k = choose|k: int| 0 <= k < before.len() && before[k] == x;
                if k < at {
                    assert(r[k] == x);
                } else {
                    assert(r[k + 1] == x);
                }
            }
        }
    }
}

/// Where no two of the documents at hand and handed in share a slug, no
/// two of the loaded documents do.
pub proof fn lemma_with_posts_distinct(posts: Seq<PostView>, more: Seq<PostView>)
    requires
        distinct_slugs(posts + more),
    ensures
        distinct_slugs(with_posts(posts, more)),
    decreases more.len(),
{
    let all = posts + more;
    if more.len() > 0 {
        let head = more.drop_last();
        let before = with_posts(posts, head);
        assert(distinct_slugs(posts + head)) by {
            assert forall|i: int, j: int| 0 <= i < j < (posts + head).len() implies (#[trigger] (posts
                + head)[i]).slug != (#[trigger] (posts + head)[j]).slug by {
                assert((posts + head)[i] == all[i]);
                assert((posts + head)[j] == all[j]);
            }
        }
        lemma_with_posts_distinct(posts, head);
        lemma_with_posts_members(posts, head);
        let last = more.last();
        assert(all[all.len() - 1] == last);
        assert forall|k: int| 0 <= k < before.len() implies (#[trigger] before[k]).slug
            != last.slug by {
            assert(before.contains(before[k]));
            if posts.contains(before[k]) {
                let i = choose|i: int| 0 <= i < posts.len() && posts[i] == before[k];
                assert(all[i] == before[k]);
            } else {
                let i = choose|i: int| 0 <= i < head.len() && head[i] == before[k];
                assert(all[posts.len() + i] == before[k]);
            }
        }
        let at = not_older(before, last.front_matter.date) as int;
        lemma_not_older(before, last.front_matter.date);
        let r = with_posts(posts, more);
        assert forall|i: int, j: int| 0 <= i < j < r.len() implies (#[trigger] r[i]).slug != (
        #[trigger] r[j]).slug by {
            let a = if i < at {
                i
            } else {
                i - 1
            };
            let b = if j < at {
                j
            } else {
                j - 1
            };
            if i != at && j != at {
                assert(r[i] == before[a] && r[j] == before[b]);
            } else if i == at {
                assert(r[j] == before[b]);
            } else {
                assert(r[i] == before[a]);
            }
        }
    } else {
        assert(all =~= posts);
    }
}

/// What marks the first repeated slug: a document that repeats one, with
/// none before it that does.
pub proof fn lemma_first_repeat_is(posts: Seq<PostView>, at: int)
    requires
        0 <= at <= posts.len(),
        at < posts.len() ==> repeats_at(posts, at),
        forall|j: int| 0 <= j < at ==> !repeats_at(posts, j),
    ensures
        first_repeat(posts, 0) == at,
        at == posts.len() ==> distinct_slugs(posts),
{
    lemma_first_repeat(posts, 0);
    if at == posts.len() {
        assert forall|i: int, j: int| 0 <= i < j < posts.len() implies (#[trigger] posts[i]).slug != (
        #[trigger] posts[j]).slug by {
            if posts[i].slug == posts[j].slug {
                assert(repeats_at(posts, j));
            }
        }
    }
}

/// Documents with different dates that stand newest first stand in
/// strictly descending order of their dates.
pub proof fn lemma_newest_first_strict(posts: Seq<PostView>)
    requires
        newest_first(posts),
        forall|i: int, j: int|
            0 <= i < j < posts.len() ==> (#[trigger] posts[i]).front_matter.date != (
            #[trigger] posts[j]).front_matter.date,
    ensures
        forall|i: int, j: int|
            0 <= i < j < posts.len() ==> lex_lt(
                (#[trigger] posts[j]).front_matter.date,
                (#[trigger] posts[i]).front_matter.date,
            ),
{
    assert forall|i: int, j: int| 0 <= i < j < posts.len() implies lex_lt(
        (#[trigger] posts[j]).front_matter.date,
        (#[trigger] posts[i]).front_matter.date,
    ) by {
        lemma_lex_total(posts[i].front_matter.date, posts[j].front_matter.date);
    }
}

} // verus!
