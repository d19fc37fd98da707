//! The order of posts: newest first, and posts of one moment in the order
//! in which they came.

use vstd::prelude::*;
use crate::post::{Post, Timestamp};

verus! {

/// When a post was published.
pub open spec fn published_at(post: Post) -> Timestamp {
    post.meta.published_at
}

/// How many posts at the head of `posts` are newer than `at`.
pub open spec fn lead(posts: Seq<Post>, at: Timestamp) -> nat
    decreases posts.len(),
{
    if posts.len() > 0 && at.before(published_at(posts[0])) {
        1 + lead(posts.drop_first(), at)
    } else {
        0
    }
}

/// `posts` with `post` put behind the newer posts at its head.
pub open spec fn placed(posts: Seq<Post>, post: Post) -> Seq<Post> {
    posts.insert(lead(posts, published_at(post)) as int, post)
}

/// The posts from the newest to the oldest; posts of the same moment stay in
/// the order in which they stand in `posts`.
pub open spec fn newest_first(posts: Seq<Post>) -> Seq<Post>
    decreases posts.len(),
{
    if posts.len() == 0 {
        posts
    } else {
        placed(newest_first(posts.drop_first()), posts[0])
    }
}

/// Whether no post stands before a newer one.
pub open spec fn descending(posts: Seq<Post>) -> bool {
    forall|i: int, j: int|
        0 <= i < j < posts.len() ==> !published_at(#[trigger] posts[i]).before(
            published_at(#[trigger] posts[j]),
        )
}

/// A sequence with one more element holds that element once more, and
/// every other as often as before.
proof fn lemma_insert_counts(posts: Seq<Post>, at: int, post: Post)
    requires
        0 <= at <= posts.len(),
    ensures
        posts.insert(at, post).to_multiset() == posts.to_multiset().insert(post),
{
    let out = posts.insert(at, post);
    out.to_multiset_ensures();
    assert(out.remove(at) =~= posts);
    assert(out[at] == post);
    assert(out.contains(post));
    assert(out.to_multiset() =~= posts.to_multiset().insert(post));
}

/// The posts that `lead` counts are newer than `at`, and the one behind
/// them is not.
pub proof fn lemma_lead(posts: Seq<Post>, at: Timestamp)
    ensures
        lead(posts, at) <= posts.len(),
        forall|i: int| 0 <= i < lead(posts, at) ==> at.before(published_at(#[trigger] posts[i])),
        lead(posts, at) < posts.len() ==> !at.before(published_at(posts[lead(posts, at) as int])),
    decreases posts.len(),
{
    if posts.len() > 0 && at.before(published_at(posts[0])) {
        let rest = posts.drop_first();
        lemma_lead(rest, at);
        assert forall|i: int| 0 <= i < lead(posts, at) implies at.before(
            published_at(#[trigger] posts[i]),
        ) by {
            if i > 0 {
                assert(posts[i] == rest[i - 1]);
            }
        }
        if lead(posts, at) < posts.len() {
            assert(posts[lead(posts, at) as int] == rest[lead(rest, at) as int]);
        }
    }
}

/// Placing a post into posts that descend leaves them descending, with the
/// post behind every post of its own moment.
pub proof fn lemma_placed_descends(posts: Seq<Post>, post: Post)
    requires
        descending(posts),
    ensures
        descending(placed(posts, post)),
        placed(posts, post).to_multiset() == posts.to_multiset().insert(post),
{
    let at = published_at(post);
    let p = lead(posts, at) as int;
    let out = placed(posts, post);
    lemma_lead(posts, at);
    assert forall|i: int, j: int| 0 <= i < j < out.len() implies !published_at(
        #[trigger] out[i],
    ).before(published_at(#[trigger] out[j])) by {
        if j == p {
            assert(out[i] == posts[i]);
        } else if i == p {
            assert(out[j] == posts[j - 1]);
            if p < j - 1 {
                assert(!published_at(posts[p]).before(published_at(posts[j - 1])));
            }
        } else {
            let a = if i < p {
                i
            } else {
                i - 1
            };
            let b = if j < p {
                j
            } else {
                j - 1
            };
            assert(out[i] == posts[a] && out[j] == posts[b]);
        }
    }
    lemma_insert_counts(posts, p, post);
}

/// Sorting gives the same posts, each as often as before, from the newest
/// to the oldest.
pub proof fn lemma_newest_first(posts: Seq<Post>)
    ensures
        descending(newest_first(posts)),
        newest_first(posts).to_multiset() == posts.to_multiset(),
        newest_first(posts).len() == posts.len(),
    decreases posts.len(),
{
    if posts.len() > 0 {
        let rest = posts.drop_first();
        lemma_newest_first(rest);
        lemma_placed_descends(newest_first(rest), posts[0]);
        assert(rest.insert(0, posts[0]) =~= posts);
        lemma_insert_counts(rest, 0, posts[0]);
        lemma_lead(newest_first(rest), published_at(posts[0]));
    }
}

/// Whether a post was published at the moment `at`.
pub open spec fn at_moment(at: Timestamp) -> spec_fn(Post) -> bool {
    |post: Post| published_at(post) == at
}

/// Posts of which none is of the moment hold none of the moment.
proof fn lemma_none_at_moment(posts: Seq<Post>, at: Timestamp)
    requires
        forall|i: int| 0 <= i < posts.len() ==> published_at(#[trigger] posts[i]) != at,
    ensures
        posts.filter(at_moment(at)) == Seq::<Post>::empty(),
{
    let found = posts.filter(at_moment(at));
    if found.len() > 0 {
        posts.lemma_filter_pred(at_moment(at), 0);
        assert(found.contains(found[0]));
        posts.lemma_filter_contains_rev(at_moment(at), found[0]);
        let k = choose|k: int| 0 <= k < posts.len() && posts[k] == found[0];
        assert(published_at(posts[k]) != at);
    }
    assert(found =~= Seq::<Post>::empty());
}

/// One post is of the moment or not.
proof fn lemma_one_at_moment(post: Post, at: Timestamp)
    ensures
        seq![post].filter(at_moment(at)) == if published_at(post) == at {
            seq![post]
        } else {
            Seq::<Post>::empty()
        },
{
    let none = Seq::<Post>::empty();
    none.lemma_filter_len(at_moment(at));
    none.lemma_filter_push(post, at_moment(at));
    assert(none.push(post) =~= seq![post]);
    assert(none.filter(at_moment(at)) =~= none);
    assert(none.push(post) =~= seq![post]);
}

/// A post that is placed stands ahead of the posts of its own moment.
proof fn lemma_placed_keeps_moment(posts: Seq<Post>, post: Post, at: Timestamp)
    ensures
        placed(posts, post).filter(at_moment(at)) == seq![post].filter(at_moment(at))
            + posts.filter(at_moment(at)),
{
    let moment = at_moment(at);
    let p = lead(posts, published_at(post)) as int;
    lemma_lead(posts, published_at(post));
    let head = posts.subrange(0, p);
    let tail = posts.subrange(p, posts.len() as int);
    assert(posts =~= head + tail);
    assert(placed(posts, post) =~= (head + seq![post]) + tail);
    Seq::filter_distributes_over_add(head, tail, moment);
    Seq::filter_distributes_over_add(head + seq![post], tail, moment);
    Seq::filter_distributes_over_add(head, seq![post], moment);
    lemma_one_at_moment(post, at);
    if published_at(post) == at {
        assert forall|i: int| 0 <= i < head.len() implies published_at(#[trigger] head[i])
            != at by {
            assert(head[i] == posts[i]);
        }
        lemma_none_at_moment(head, at);
        assert((head.filter(moment) + seq![post]) + tail.filter(moment) =~= seq![post] + (
        head.filter(moment) + tail.filter(moment)));
    } else {
        assert((head.filter(moment) + Seq::<Post>::empty()) + tail.filter(moment) =~= Seq::<
            Post,
        >::empty() + (head.filter(moment) + tail.filter(moment)));
    }
}

/// Sorting keeps the posts of one moment in the order in which they came.
pub proof fn lemma_same_moment_keeps_order(posts: Seq<Post>, at: Timestamp)
    ensures
        newest_first(posts).filter(at_moment(at)) == posts.filter(at_moment(at)),
    decreases posts.len(),
{
    if posts.len() > 0 {
        let rest = posts.drop_first();
        lemma_same_moment_keeps_order(rest, at);
        lemma_placed_keeps_moment(newest_first(rest), posts[0], at);
        assert(posts =~= seq![posts[0]] + rest);
        Seq::filter_distributes_over_add(seq![posts[0]], rest, at_moment(at));
    }
}

/// Where `post` goes among posts that are already in order.
fn position(posts: &Vec<Post>, post: &Post) -> (at: usize)
    ensures
        at == lead(posts@, published_at(*post)),
{
    let mut at: usize = 0;
    assert(posts@.subrange(0, posts@.len() as int) =~= posts@);
    while at < posts.len() && post.meta.published_at.is_before(&posts[at].meta.published_at)
        invariant
            at <= posts.len(),
            lead(posts@, published_at(*post)) == at + lead(
                posts@.subrange(at as int, posts@.len() as int),
                published_at(*post),
            ),
        decreases posts.len() - at,
    {
        assert(posts@.subrange(at as int, posts@.len() as int).drop_first() =~= posts@.subrange(
            at + 1,
            posts@.len() as int,
        ));
        at += 1;
    }
    at
}

/// Sorts posts from the newest to the oldest, keeping posts of the same
/// moment in their order.
pub fn sort_newest_first(posts: Vec<Post>) -> (sorted: Vec<Post>)
    ensures
        sorted@ == newest_first(posts@),
{
    let mut rest = posts;
    let mut sorted: Vec<Post> = Vec::new();
    let ghost all = posts@;
    assert(all.subrange(all.len() as int, all.len() as int) =~= Seq::<Post>::empty());
    while rest.len() > 0
        invariant
            rest@ == all.subrange(0, rest.len() as int),
            rest.len() <= all.len(),
            sorted@ == newest_first(all.subrange(rest.len() as int, all.len() as int)),
        decreases rest.len(),
    {
        let ghost before = rest.len() as int;
        let post = rest.pop().unwrap();
        let at = position(&sorted, &post);
        proof {
            lemma_lead(sorted@, published_at(post));
            let tail = all.subrange(before - 1, all.len() as int);
            assert(tail.drop_first() =~= all.subrange(before, all.len() as int));
            assert(tail[0] == post);
            assert(rest@ =~= all.subrange(0, before - 1));
        }
        sorted.insert(at, post);
    }
    assert(all.subrange(0, all.len() as int) =~= all);
    sorted
}

} // verus!
