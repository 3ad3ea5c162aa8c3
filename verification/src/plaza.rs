//! The plaza (company message board) statistics: post and comment totals
//! and the most active contributors.
use vstd::prelude::*;
use crate::text::str_eq;

verus! {

/// The most posts the statistics look at (the newest ones).
pub const PLAZA_STATS_POST_CAP: usize = 10000;

/// What the statistics read of a post.
#[derive(Clone, Debug)]
pub struct PlazaPostSummary {
    pub author_name: String,
    pub author_type: String,
    pub comments_count: i32,
    /// The post was created on the current (UTC) day.
    pub posted_today: bool,
}

/// A contributor (an author name and author type) and how many posts it wrote.
#[derive(Clone, Debug)]
pub struct Contributor {
    pub name: String,
    pub author_type: String,
    pub posts: i64,
}

/// The plaza statistics.
#[derive(Clone, Debug)]
pub struct PlazaStats {
    pub total_posts: i64,
    pub total_comments: i64,
    pub today_posts: i64,
    pub top_contributors: Vec<Contributor>,
}

/// Post `p` was written by the contributor `(name, ty)`.
pub open spec fn written_by(p: PlazaPostSummary, name: Seq<char>, ty: Seq<char>) -> bool {
    p.author_name@ == name && p.author_type@ == ty
}

/// How many of the posts the contributor `(name, ty)` wrote.
pub open spec fn posts_by(posts: Seq<PlazaPostSummary>, name: Seq<char>, ty: Seq<char>) -> nat
    decreases posts.len(),
{
    if posts.len() == 0 {
        0
    } else {
        posts_by(posts.drop_last(), name, ty) + (if written_by(posts.last(), name, ty) { 1nat } else { 0nat })
    }
}

/// The comments on all the posts.
pub open spec fn comment_total(posts: Seq<PlazaPostSummary>) -> int
    decreases posts.len(),
{
    if posts.len() == 0 {
        0
    } else {
        comment_total(posts.drop_last()) + posts.last().comments_count
    }
}

/// How many of the posts were written today.
pub open spec fn today_count(posts: Seq<PlazaPostSummary>) -> nat
    decreases posts.len(),
{
    if posts.len() == 0 {
        0
    } else {
        today_count(posts.drop_last()) + (if posts.last().posted_today { 1nat } else { 0nat })
    }
}

/// Two contributor entries name the same contributor.
pub open spec fn same_contributor(a: Contributor, b: Contributor) -> bool {
    a.name@ == b.name@ && a.author_type@ == b.author_type@
}

/// Some entry of `r` is the author of post `p`.
pub open spec fn listed(r: Seq<Contributor>, p: PlazaPostSummary) -> bool {
    exists|i: int| 0 <= i < r.len() && written_by(p, #[trigger] r[i].name@, r[i].author_type@)
}

/// `r` lists the (at most five) contributors with the most posts, most
/// posts first: each entry is a distinct author of some posts, with its
/// exact number of posts, and any author left out has no more posts than
/// the last one listed (and is left out only when five are listed). Among
/// authors with equally many posts, which ones are listed is not fixed.
pub open spec fn is_top_contributors(r: Seq<Contributor>, posts: Seq<PlazaPostSummary>) -> bool {
    &&& r.len() <= 5
    &&& forall|i: int|
        0 <= i < r.len() ==> (#[trigger] r[i]).posts as int == posts_by(posts, r[i].name@, r[i].author_type@)
            && r[i].posts >= 1
    &&& forall|i: int, j: int| 0 <= i < j < r.len() ==> !same_contributor(#[trigger] r[i], #[trigger] r[j])
    &&& forall|i: int, j: int| 0 <= i < j < r.len() ==> (#[trigger] r[i]).posts >= (#[trigger] r[j]).posts
    &&& forall|k: int|
        0 <= k < posts.len() && !listed(r, #[trigger] posts[k]) ==> r.len() == 5 && posts_by(
            posts,
            posts[k].author_name@,
            posts[k].author_type@,
        ) <= r[4].posts
}

proof fn lemma_posts_by_positive(posts: Seq<PlazaPostSummary>, name: Seq<char>, ty: Seq<char>)
    requires
        posts_by(posts, name, ty) > 0,
    ensures
        exists|k: int| 0 <= k < posts.len() && written_by(#[trigger] posts[k], name, ty),
    decreases posts.len(),
{
    if !written_by(posts.last(), name, ty) {
        lemma_posts_by_positive(posts.drop_last(), name, ty);
        let k = choose|k: int| 0 <= k < posts.len() - 1 && written_by(#[trigger] posts.drop_last()[k], name, ty);
        assert(posts.drop_last()[k] == posts[k]);
    } else {
        assert(written_by(posts[posts.len() - 1], name, ty));
    }
}

proof fn lemma_posts_by_bound(posts: Seq<PlazaPostSummary>, name: Seq<char>, ty: Seq<char>)
    ensures
        posts_by(posts, name, ty) <= posts.len(),
    decreases posts.len(),
{
    if posts.len() > 0 {
        lemma_posts_by_bound(posts.drop_last(), name, ty);
    }
}

fn copy_contributor(c: &Contributor, posts: i64) -> (r: Contributor)
    ensures
        r.name@ == c.name@,
        r.author_type@ == c.author_type@,
        r.posts == posts,
{
    Contributor { name: c.name.clone(), author_type: c.author_type.clone(), posts }
}

/// The authors of the posts, each once in order of first post, with their
/// numbers of posts.
fn group_contributors(posts: &Vec<PlazaPostSummary>) -> (g: Vec<Contributor>)
    requires
        posts@.len() <= PLAZA_STATS_POST_CAP,
    ensures
        forall|a: int|
            0 <= a < g@.len() ==> (#[trigger] g@[a]).posts as int == posts_by(posts@, g@[a].name@, g@[a].author_type@)
                && g@[a].posts >= 1,
        forall|a: int, b: int| 0 <= a < b < g@.len() ==> !same_contributor(#[trigger] g@[a], #[trigger] g@[b]),
        forall|k: int|
            0 <= k < posts@.len() ==> exists|a: int|
                0 <= a < g@.len() && written_by(#[trigger] posts@[k], #[trigger] g@[a].name@, g@[a].author_type@),
{
    let mut groups: Vec<Contributor> = Vec::new();
    let mut i: usize = 0;
    while i < posts.len()
        invariant
            i <= posts@.len() <= PLAZA_STATS_POST_CAP,
            forall|a: int|
                0 <= a < groups@.len() ==> (#[trigger] groups@[a]).posts as int == posts_by(
                    posts@.take(i as int),
                    groups@[a].name@,
                    groups@[a].author_type@,
                ) && groups@[a].posts >= 1,
            forall|a: int, b: int| 0 <= a < b < groups@.len() ==> !same_contributor(#[trigger] groups@[a], #[trigger] groups@[b]),
            forall|k: int|
                0 <= k < i ==> exists|a: int|
                    0 <= a < groups@.len() && written_by(#[trigger] posts@[k], #[trigger] groups@[a].name@, groups@[a].author_type@),
        decreases posts.len() - i,
    {
        let ghost pre = posts@.take(i as int);
        let ghost cur = posts@.take(i + 1);
        assert(cur.drop_last() =~= pre);
        assert(cur.last() == posts@[i as int]);
        let p = &posts[i];
        let mut j: usize = 0;
        let mut found: Option<usize> = None;
        while j < groups.len()
            invariant
                j <= groups@.len(),
                found is None ==> forall|a: int| 0 <= a < j ==> !written_by(*p, #[trigger] groups@[a].name@, groups@[a].author_type@),
                found matches Some(f) ==> f < groups@.len() && written_by(*p, groups@[f as int].name@, groups@[f as int].author_type@),
            decreases groups.len() - j,
        {
            if found.is_none() && str_eq(groups[j].name.as_str(), p.author_name.as_str()) && str_eq(
                groups[j].author_type.as_str(),
                p.author_type.as_str(),
            ) {
                found = Some(j);
            }
            j = j + 1;
        }
        let ghost before = groups@;
        match found {
            Some(f) => {
                proof {
                    lemma_posts_by_bound(pre, groups@[f as int].name@, groups@[f as int].author_type@);
                }
                let updated = copy_contributor(&groups[f], groups[f].posts + 1);
                groups.set(f, updated);
                proof {
                    assert forall|a: int| 0 <= a < groups@.len() implies (#[trigger] groups@[a]).posts as int == posts_by(
                        cur,
                        groups@[a].name@,
                        groups@[a].author_type@,
                    ) && groups@[a].posts >= 1 by {
                        if a != f {
                            assert(groups@[a] == before[a]);
                            assert(!same_contributor(before[a], before[f as int]) || a == f);
                            if a < f {
                                assert(!same_contributor(before[a], before[f as int]));
                            } else {
                                assert(!same_contributor(before[f as int], before[a]));
                            }
                        }
                    }
                    assert forall|a: int, b: int| 0 <= a < b < groups@.len() implies !same_contributor(
                        #[trigger] groups@[a],
                        #[trigger] groups@[b],
                    ) by {
                        assert(!same_contributor(before[a], before[b]));
                    }
                    assert forall|k: int| 0 <= k < i + 1 implies exists|a: int|
                        0 <= a < groups@.len() && written_by(#[trigger] posts@[k], #[trigger] groups@[a].name@, groups@[a].author_type@) by {
                        if k < i {
                            let a = choose|a: int|
                                0 <= a < before.len() && written_by(#[trigger] posts@[k], #[trigger] before[a].name@, before[a].author_type@);
                            assert(groups@[a].name@ == before[a].name@);
                        } else {
                            assert(written_by(posts@[k], groups@[f as int].name@, groups@[f as int].author_type@));
                        }
                    }
                }
            },
            None => {
                proof {
                    if posts_by(pre, p.author_name@, p.author_type@) > 0 {
                        lemma_posts_by_positive(pre, p.author_name@, p.author_type@);
                        let k = choose|k: int| 0 <= k < pre.len() && written_by(#[trigger] pre[k], p.author_name@, p.author_type@);
                        assert(pre[k] == posts@[k]);
                        let a = choose|a: int|
                            0 <= a < before.len() && written_by(#[trigger] posts@[k], #[trigger] before[a].name@, before[a].author_type@);
                        assert(written_by(*p, before[a].name@, before[a].author_type@));
                    }
                }
                groups.push(Contributor { name: p.author_name.clone(), author_type: p.author_type.clone(), posts: 1 });
                proof {
                    assert forall|a: int| 0 <= a < groups@.len() implies (#[trigger] groups@[a]).posts as int == posts_by(
                        cur,
                        groups@[a].name@,
                        groups@[a].author_type@,
                    ) && groups@[a].posts >= 1 by {
                        if a < before.len() {
                            assert(groups@[a] == before[a]);
                            assert(!written_by(*p, before[a].name@, before[a].author_type@));
                        }
                    }
                    assert forall|a: int, b: int| 0 <= a < b < groups@.len() implies !same_contributor(
                        #[trigger] groups@[a],
                        #[trigger] groups@[b],
                    ) by {
                        if b < before.len() {
                            assert(!same_contributor(before[a], before[b]));
                        } else {
                            assert(!written_by(*p, before[a].name@, before[a].author_type@));
                        }
                    }
                    assert forall|k: int| 0 <= k < i + 1 implies exists|a: int|
                        0 <= a < groups@.len() && written_by(#[trigger] posts@[k], #[trigger] groups@[a].name@, groups@[a].author_type@) by {
                        if k < i {
                            let a = choose|a: int|
                                0 <= a < before.len() && written_by(#[trigger] posts@[k], #[trigger] before[a].name@, before[a].author_type@);
                            assert(groups@[a] == before[a]);
                        } else {
                            assert(written_by(posts@[k], groups@[before.len() as int].name@, groups@[before.len() as int].author_type@));
                        }
                    }
                }
            },
        }
        i = i + 1;
    }
    assert(posts@.take(posts@.len() as int) =~= posts@);
    groups
}

/// The position of an untaken group with the most posts (the first such),
/// or `None` when every group is taken.
fn best_untaken(groups: &Vec<Contributor>, taken: &Vec<bool>) -> (r: Option<usize>)
    requires
        taken@.len() == groups@.len(),
    ensures
        r is None ==> forall|a: int| 0 <= a < groups@.len() ==> #[trigger] taken@[a],
        r matches Some(b) ==> b < groups@.len() && !taken@[b as int] && forall|a: int|
            0 <= a < groups@.len() && !taken@[a] ==> #[trigger] groups@[a].posts <= groups@[b as int].posts,
{
    let mut best: Option<usize> = None;
    let mut a: usize = 0;
    while a < groups.len()
        invariant
            taken@.len() == groups@.len(),
            a <= groups@.len(),
            best is None ==> forall|m: int| 0 <= m < a ==> #[trigger] taken@[m],
            best matches Some(b) ==> b < a && !taken@[b as int] && forall|m: int|
                0 <= m < a && !taken@[m] ==> #[trigger] groups@[m].posts <= groups@[b as int].posts,
        decreases groups.len() - a,
    {
        if !taken[a] {
            match best {
                None => {
                    best = Some(a);
                },
                Some(b) => {
                    if groups[a].posts > groups[b].posts {
                        best = Some(a);
                    }
                },
            }
        }
        a = a + 1;
    }
    best
}

/// The (at most five) contributors with the most posts, most posts first.
pub fn top_contributors(posts: &Vec<PlazaPostSummary>) -> (r: Vec<Contributor>)
    requires
        posts@.len() <= PLAZA_STATS_POST_CAP,
    ensures
        is_top_contributors(r@, posts@),
{
    let groups = group_contributors(posts);
    let mut taken: Vec<bool> = Vec::new();
    let mut t: usize = 0;
    while t < groups.len()
        invariant
            t <= groups@.len(),
            taken@.len() == t,
            forall|a: int| 0 <= a < t ==> !(#[trigger] taken@[a]),
        decreases groups.len() - t,
    {
        taken.push(false);
        t = t + 1;
    }
    let mut out: Vec<Contributor> = Vec::new();
    let ghost mut chosen: Seq<int> = Seq::empty();
    let mut done = false;
    while out.len() < 5 && !done
        invariant
            taken@.len() == groups@.len(),
            out@.len() <= 5,
            chosen.len() == out@.len(),
            forall|i: int|
                0 <= i < out@.len() ==> 0 <= #[trigger] chosen[i] < groups@.len() && taken@[chosen[i]]
                    && out@[i].name@ == groups@[chosen[i]].name@ && out@[i].author_type@ == groups@[chosen[i]].author_type@
                    && out@[i].posts == groups@[chosen[i]].posts,
            forall|i: int, j: int| 0 <= i < j < out@.len() ==> #[trigger] chosen[i] != #[trigger] chosen[j],
            forall|a: int| 0 <= a < groups@.len() && #[trigger] taken@[a] ==> exists|i: int| 0 <= i < out@.len() && chosen[i] == a,
            forall|i: int, j: int| 0 <= i < j < out@.len() ==> (#[trigger] out@[i]).posts >= (#[trigger] out@[j]).posts,
            out@.len() > 0 ==> forall|a: int|
                0 <= a < groups@.len() && !taken@[a] ==> #[trigger] groups@[a].posts <= out@[out@.len() - 1].posts,
            done ==> forall|a: int| 0 <= a < groups@.len() ==> #[trigger] taken@[a],
        decreases 5 - out@.len(), (if done { 0int } else { 1int }),
    {
        match best_untaken(&groups, &taken) {
            None => {
                done = true;
            },
            Some(b) => {
                let ghost before = out@;
                let ghost taken_before = taken@;
                let ghost chosen_before = chosen;
                out.push(copy_contributor(&groups[b], groups[b].posts));
                taken.set(b, true);
                proof {
                    chosen = chosen.push(b as int);
                    assert forall|a: int| 0 <= a < groups@.len() && #[trigger] taken@[a] implies exists|i: int|
                        0 <= i < out@.len() && chosen[i] == a by {
                        if a != b {
                            assert(taken_before[a]);
                            let i = choose|i: int| 0 <= i < before.len() && chosen_before[i] == a;
                            assert(chosen[i] == a);
                        } else {
                            assert(chosen[before.len() as int] == a);
                        }
                    }
                    assert forall|i: int, j: int| 0 <= i < j < out@.len() implies #[trigger] chosen[i] != #[trigger] chosen[j] by {
                        if j == before.len() {
                            assert(taken_before[chosen[i]]);
                        }
                    }
                    assert forall|i: int, j: int| 0 <= i < j < out@.len() implies (#[trigger] out@[i]).posts >= (#[trigger] out@[j]).posts by {
                        if j == before.len() && i < j {
                            assert(!taken_before[b as int]);
                            assert(out@[i].posts == before[i].posts);
                            if before.len() > 0 {
                                assert(groups@[b as int].posts <= before[before.len() - 1].posts);
                                if i < before.len() - 1 {
                                    assert(before[i].posts >= before[before.len() - 1].posts);
                                }
                            }
                        }
                    }
                }
            },
        }
    }
    proof {
        let r = out@;
        assert forall|k: int| 0 <= k < posts@.len() && !listed(r, #[trigger] posts@[k]) implies r.len() == 5 && posts_by(
            posts@,
            posts@[k].author_name@,
            posts@[k].author_type@,
        ) <= r[4].posts by {
            let a = choose|a: int|
                0 <= a < groups@.len() && written_by(#[trigger] posts@[k], #[trigger] groups@[a].name@, groups@[a].author_type@);
            if taken@[a] {
                let i = choose|i: int| 0 <= i < out@.len() && chosen[i] == a;
                assert(written_by(posts@[k], r[i].name@, r[i].author_type@));
            }
            assert(!taken@[a]);
        }
        assert forall|i: int, j: int| 0 <= i < j < r.len() implies !same_contributor(#[trigger] r[i], #[trigger] r[j]) by {
            let (ci, cj) = (chosen[i], chosen[j]);
            if ci < cj {
                assert(!same_contributor(groups@[ci], groups@[cj]));
            } else {
                assert(!same_contributor(groups@[cj], groups@[ci]));
            }
        }
        assert forall|i: int| 0 <= i < r.len() implies (#[trigger] r[i]).posts as int == posts_by(posts@, r[i].name@, r[i].author_type@)
            && r[i].posts >= 1 by {
            assert(groups@[chosen[i]].posts as int == posts_by(posts@, groups@[chosen[i]].name@, groups@[chosen[i]].author_type@));
        }
    }
    out
}

/// The plaza statistics of the given posts (at most `PLAZA_STATS_POST_CAP`,
/// the newest): how many posts, how many comments on them, how many were
/// posted today, and the top contributors.
pub fn plaza_stats(posts: &Vec<PlazaPostSummary>) -> (r: PlazaStats)
    requires
        posts@.len() <= PLAZA_STATS_POST_CAP,
    ensures
        r.total_posts == posts@.len(),
        r.total_comments as int == comment_total(posts@),
        r.today_posts as int == today_count(posts@),
        is_top_contributors(r.top_contributors@, posts@),
{
    let mut comments: i64 = 0;
    let mut today: i64 = 0;
    let mut i: usize = 0;
    while i < posts.len()
        invariant
            i <= posts@.len() <= PLAZA_STATS_POST_CAP,
            comments as int == comment_total(posts@.take(i as int)),
            -0x8000_0000 * i <= comments <= 0x7fff_ffff * i,
            today as int == today_count(posts@.take(i as int)),
            0 <= today <= i,
        decreases posts.len() - i,
    {
        assert(posts@.take(i + 1).drop_last() =~= posts@.take(i as int));
        assert(posts@.take(i + 1).last() == posts@[i as int]);
        let p = &posts[i];
        comments = comments + p.comments_count as i64;
        if p.posted_today {
            today = today + 1;
        }
        i = i + 1;
    }
    assert(posts@.take(posts@.len() as int) =~= posts@);
    PlazaStats {
        total_posts: posts.len() as i64,
        total_comments: comments,
        today_posts: today,
        top_contributors: top_contributors(posts),
    }
}

} // verus!
