//! Control releases of a scope: publishing a new release supersedes the
//! published one, and rolling back retires the published release and
//! re-publishes the most recent superseded one.
use vstd::prelude::*;
use crate::observation::owned;
use crate::text::str_eq;

verus! {

/// The state of a release.
#[derive(Clone, Debug)]
pub enum ReleaseStatus {
    Published,
    Superseded,
    RolledBack,
    /// Any other stored status; no rule changes it.
    Other(String),
}

/// A release of a scope. A scope's releases are kept in the order they
/// were created.
#[derive(Clone, Debug)]
pub struct ReleaseRecord {
    pub release_id: String,
    pub version: String,
    pub status: ReleaseStatus,
}

impl ReleaseStatus {
    /// The status as stored.
    pub open spec fn text(self) -> Seq<char> {
        match self {
            ReleaseStatus::Published => "published"@,
            ReleaseStatus::Superseded => "superseded"@,
            ReleaseStatus::RolledBack => "rolled_back"@,
            ReleaseStatus::Other(s) => s@,
        }
    }

    /// The status as stored.
    pub fn as_str(&self) -> (r: &str)
        ensures
            r@ == self.text(),
    {
        match self {
            ReleaseStatus::Published => "published",
            ReleaseStatus::Superseded => "superseded",
            ReleaseStatus::RolledBack => "rolled_back",
            ReleaseStatus::Other(s) => s.as_str(),
        }
    }

    /// Reads a stored status.
    pub fn parse(s: &str) -> (r: ReleaseStatus)
        ensures
            r is Published <==> s@ == "published"@,
            r is Superseded <==> s@ == "superseded"@,
            r is RolledBack <==> s@ == "rolled_back"@,
            r matches ReleaseStatus::Other(t) ==> t@ == s@,
            r.text() == s@,
    {
        proof {
            reveal_strlit("published");
            reveal_strlit("superseded");
            reveal_strlit("rolled_back");
            assert("published"@.len() != "superseded"@.len());
            assert("published"@.len() != "rolled_back"@.len());
            assert("superseded"@.len() != "rolled_back"@.len());
        }
        if str_eq(s, "published") {
            ReleaseStatus::Published
        } else if str_eq(s, "superseded") {
            ReleaseStatus::Superseded
        } else if str_eq(s, "rolled_back") {
            ReleaseStatus::RolledBack
        } else {
            ReleaseStatus::Other(owned(s))
        }
    }
}

/// `r` with status `s`.
pub open spec fn with_status(r: ReleaseRecord, s: ReleaseStatus) -> ReleaseRecord {
    ReleaseRecord { release_id: r.release_id, version: r.version, status: s }
}

/// The record has the published (`published`) or superseded status.
pub open spec fn has_status(r: ReleaseRecord, published: bool) -> bool {
    if published {
        r.status is Published
    } else {
        r.status is Superseded
    }
}

/// The position of the most recent published (or superseded) release.
pub open spec fn last_with(log: Seq<ReleaseRecord>, published: bool) -> Option<int>
    decreases log.len(),
{
    if log.len() == 0 {
        None
    } else if has_status(log.last(), published) {
        Some(log.len() - 1)
    } else {
        last_with(log.drop_last(), published)
    }
}

/// The version in effect: that of the most recent published release.
pub open spec fn current_version(log: Seq<ReleaseRecord>) -> Option<Seq<char>> {
    match last_with(log, true) {
        Some(p) => Some(log[p].version@),
        None => None,
    }
}

/// Publishing: every published release becomes superseded, and the new
/// release is appended as published.
pub open spec fn publish_spec(log: Seq<ReleaseRecord>, release_id: String, version: String) -> Seq<ReleaseRecord> {
    log.map_values(|r: ReleaseRecord| if r.status is Published { with_status(r, ReleaseStatus::Superseded) } else { r })
        .push(ReleaseRecord { release_id, version, status: ReleaseStatus::Published })
}

/// Rolling back: the most recent published release is rolled back and the
/// most recent superseded one is published again; nothing changes when no
/// release is published.
pub open spec fn rollback_spec(log: Seq<ReleaseRecord>) -> Seq<ReleaseRecord> {
    match last_with(log, true) {
        None => log,
        Some(p) => {
            let rolled = log.update(p, with_status(log[p], ReleaseStatus::RolledBack));
            match last_with(rolled, false) {
                None => rolled,
                Some(s) => rolled.update(s, with_status(rolled[s], ReleaseStatus::Published)),
            }
        },
    }
}

/// The positions of the most recent published and superseded releases are
/// what `last_with` says.
pub proof fn lemma_last_with(log: Seq<ReleaseRecord>, published: bool)
    ensures
        last_with(log, published) matches Some(i) ==> 0 <= i < log.len() && has_status(log[i], published)
            && forall|j: int| i < j < log.len() ==> !has_status(#[trigger] log[j], published),
        last_with(log, published) is None ==> forall|j: int| 0 <= j < log.len() ==> !has_status(#[trigger] log[j], published),
    decreases log.len(),
{
    if log.len() > 0 && !has_status(log.last(), published) {
        let prev = log.drop_last();
        lemma_last_with(prev, published);
        match last_with(prev, published) {
            Some(i) => {
                assert(prev[i] == log[i]);
                assert forall|j: int| i < j < log.len() implies !has_status(#[trigger] log[j], published) by {
                    if j < log.len() - 1 {
                        assert(prev[j] == log[j]);
                    }
                }
            },
            None => {
                assert forall|j: int| 0 <= j < log.len() implies !has_status(#[trigger] log[j], published) by {
                    if j < log.len() - 1 {
                        assert(prev[j] == log[j]);
                    }
                }
            },
        }
    }
}

/// `last_with` is the most recent position with the status.
pub proof fn lemma_last_with_unique(log: Seq<ReleaseRecord>, published: bool, i: int)
    requires
        0 <= i < log.len(),
        has_status(log[i], published),
        forall|j: int| i < j < log.len() ==> !has_status(#[trigger] log[j], published),
    ensures
        last_with(log, published) == Some(i),
    decreases log.len(),
{
    if i < log.len() - 1 {
        assert(!has_status(log[log.len() - 1], published));
        assert forall|j: int| i < j < log.len() - 1 implies !has_status(#[trigger] log.drop_last()[j], published) by {
            assert(log.drop_last()[j] == log[j]);
        }
        lemma_last_with_unique(log.drop_last(), published, i);
    }
}

fn find_last(log: &Vec<ReleaseRecord>, published: bool) -> (r: Option<usize>)
    ensures
        r matches Some(i) ==> last_with(log@, published) == Some(i as int) && i < log@.len(),
        r is None ==> last_with(log@, published) is None,
{
    proof {
        lemma_last_with(log@, published);
    }
    let mut i: usize = log.len();
    while i > 0
        invariant
            i <= log@.len(),
            forall|j: int| i <= j < log@.len() ==> !has_status(#[trigger] log@[j], published),
        decreases i,
    {
        let hit = match log[i - 1].status {
            ReleaseStatus::Published => published,
            ReleaseStatus::Superseded => !published,
            _ => false,
        };
        if hit {
            proof {
                lemma_last_with_unique(log@, published, i - 1);
            }
            return Some(i - 1);
        }
        i = i - 1;
    }
    None
}

/// Publishes a new release of the scope.
pub fn publish_release(log: Vec<ReleaseRecord>, release_id: String, version: String) -> (r: Vec<ReleaseRecord>)
    ensures
        r@ == publish_spec(log@, release_id, version),
{
    let ghost all = log@;
    let ghost mapped = all.map_values(
        |r: ReleaseRecord| if r.status is Published { with_status(r, ReleaseStatus::Superseded) } else { r },
    );
    let mut out: Vec<ReleaseRecord> = Vec::new();
    let mut rest = log;
    let n = rest.len();
    let mut i: usize = 0;
    while rest.len() > 0
        invariant
            i + rest@.len() == all.len(),
            all.len() == n,
            rest@ == all.subrange(i as int, all.len() as int),
            mapped == all.map_values(
                |r: ReleaseRecord| if r.status is Published { with_status(r, ReleaseStatus::Superseded) } else { r },
            ),
            out@ == mapped.take(i as int),
        decreases rest@.len(),
    {
        let r = rest.remove(0);
        assert(r == all[i as int]);
        assert(rest@ =~= all.subrange(i + 1, all.len() as int));
        let updated = match r.status {
            ReleaseStatus::Published => ReleaseRecord {
                release_id: r.release_id,
                version: r.version,
                status: ReleaseStatus::Superseded,
            },
            _ => r,
        };
        assert(updated == mapped[i as int]);
        out.push(updated);
        assert(out@ =~= mapped.take(i + 1));
        i = i + 1;
    }
    assert(mapped.take(n as int) =~= mapped);
    out.push(ReleaseRecord { release_id, version, status: ReleaseStatus::Published });
    out
}

/// Rolls back the scope's published release: returns the releases after the
/// rollback and the id of the release rolled back (`None` when no release
/// is published).
pub fn rollback_release(log: Vec<ReleaseRecord>) -> (r: (Vec<ReleaseRecord>, Option<String>))
    ensures
        r.0@ == rollback_spec(log@),
        match last_with(log@, true) {
            Some(p) => r.1 matches Some(id) && id@ == log@[p].release_id@,
            None => r.1 is None,
        },
{
    let ghost all = log@;
    let p = match find_last(&log, true) {
        None => {
            return (log, None);
        },
        Some(p) => p,
    };
    let rolled_id = log[p].release_id.clone();
    let ghost rolled = all.update(p as int, with_status(all[p as int], ReleaseStatus::RolledBack));
    proof {
        lemma_last_with(all, true);
        lemma_last_with(all, false);
        lemma_last_with(rolled, false);
        assert forall|j: int| 0 <= j < all.len() implies has_status(#[trigger] rolled[j], false) == has_status(all[j], false) by {
            if j != p {
                assert(rolled[j] == all[j]);
            }
        }
        match last_with(all, false) {
            Some(x) => {
                lemma_last_with_unique(rolled, false, x);
            },
            None => {
                match last_with(rolled, false) {
                    Some(y) => {
                        assert(has_status(rolled[y], false));
                        assert(has_status(all[y], false));
                    },
                    None => {},
                }
            },
        }
        assert(last_with(rolled, false) == last_with(all, false));
    }
    let s = find_last(&log, false);
    let ghost target = match s {
        Some(s) => rolled.update(s as int, with_status(rolled[s as int], ReleaseStatus::Published)),
        None => rolled,
    };
    let mut out: Vec<ReleaseRecord> = Vec::new();
    let mut rest = log;
    let n = rest.len();
    let mut i: usize = 0;
    while rest.len() > 0
        invariant
            i + rest@.len() == all.len(),
            all.len() == n,
            p < n,
            target.len() == n,
            s matches Some(x) ==> x < n && x != p,
            rest@ == all.subrange(i as int, all.len() as int),
            rolled == all.update(p as int, with_status(all[p as int], ReleaseStatus::RolledBack)),
            target == (match s {
                Some(x) => rolled.update(x as int, with_status(rolled[x as int], ReleaseStatus::Published)),
                None => rolled,
            }),
            out@ == target.take(i as int),
        decreases rest@.len(),
    {
        let r = rest.remove(0);
        assert(r == all[i as int]);
        assert(rest@ =~= all.subrange(i + 1, all.len() as int));
        let republish = match s {
            Some(x) => x == i,
            None => false,
        };
        let updated = if i == p {
            ReleaseRecord { release_id: r.release_id, version: r.version, status: ReleaseStatus::RolledBack }
        } else if republish {
            ReleaseRecord { release_id: r.release_id, version: r.version, status: ReleaseStatus::Published }
        } else {
            r
        };
        out.push(updated);
        assert(out@ =~= target.take(i + 1));
        i = i + 1;
    }
    assert(target.take(n as int) =~= target);
    (out, Some(rolled_id))
}

/// The version in effect for a scope's releases.
pub fn current_release_version(log: &Vec<ReleaseRecord>) -> (r: Option<String>)
    ensures
        match current_version(log@) {
            Some(v) => r matches Some(s) && s@ == v,
            None => r is None,
        },
{
    match find_last(log, true) {
        Some(p) => Some(log[p].version.clone()),
        None => None,
    }
}

/// A scope's releases are well formed: at most one is published, every
/// superseded release is older than the published one, and superseded
/// releases exist only while one is published.
pub open spec fn releases_well_formed(log: Seq<ReleaseRecord>) -> bool {
    &&& forall|i: int, j: int|
        0 <= i < log.len() && 0 <= j < log.len() && (#[trigger] log[i]).status is Published
            && (#[trigger] log[j]).status is Published ==> i == j
    &&& forall|i: int, j: int|
        0 <= i < log.len() && 0 <= j < log.len() && (#[trigger] log[i]).status is Superseded
            && (#[trigger] log[j]).status is Published ==> i < j
    &&& (exists|i: int| 0 <= i < log.len() && (#[trigger] log[i]).status is Superseded) ==> exists|j: int|
        0 <= j < log.len() && (#[trigger] log[j]).status is Published
}

} // verus!
