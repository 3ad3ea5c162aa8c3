//! Choosing which stored agent rows to load: agent names are unique without
//! regard to letter case, and an agent needs a well-formed UUID and a stored
//! record that decodes.
use vstd::prelude::*;
use crate::policy::contains_name;
use crate::text::{lower, to_lower};

verus! {

/// The identifying columns of a stored agent row, and whether its stored
/// manifest and state decode.
#[derive(Clone, Debug)]
pub struct AgentRowKey {
    pub id: String,
    pub name: String,
    pub decodes: bool,
}

/// Whether `text` is accepted by `uuid::Uuid::parse_str`.
pub uninterp spec fn uuid_text_parses(text: Seq<char>) -> bool;

/// `uuid::Uuid::parse_str(text).is_ok()`: whether the text is a UUID in one
/// of the forms the parser accepts, named `uuid_text_parses`.
#[verifier::external_body]
fn uuid_parses(text: &str) -> (r: bool)
    ensures
        r == uuid_text_parses(text@),
{
    uuid::Uuid::parse_str(text).is_ok()
}

/// Row `i` claims its name: no earlier row has the same name up to case.
/// A row claims its name whether or not it is then loaded.
pub open spec fn claims_name(rows: Seq<AgentRowKey>, i: int) -> bool {
    forall|j: int| 0 <= j < i ==> lower(#[trigger] rows[j].name@) != lower(rows[i].name@)
}

/// Row `i` is loaded: it claims its name, its id is a UUID and its stored
/// manifest and state decode.
pub open spec fn row_loaded(rows: Seq<AgentRowKey>, i: int) -> bool {
    claims_name(rows, i) && uuid_text_parses(rows[i].id@) && rows[i].decodes
}

/// The positions of the rows that are loaded, in row order.
pub open spec fn loaded_rows(rows: Seq<AgentRowKey>) -> Seq<int>
    decreases rows.len(),
{
    if rows.len() == 0 {
        Seq::empty()
    } else {
        let prev = loaded_rows(rows.drop_last());
        if row_loaded(rows, rows.len() - 1) {
            prev.push(rows.len() - 1)
        } else {
            prev
        }
    }
}

/// The rows to load, in order: the first row with each name (compared
/// without regard to case) claims that name, later rows with the same name
/// are skipped, and a row whose id is not a UUID, or whose manifest or state
/// does not decode, is skipped without giving its name up.
pub fn select_agent_rows(rows: &Vec<AgentRowKey>) -> (r: Vec<usize>)
    ensures
        r@.len() == loaded_rows(rows@).len(),
        forall|k: int| 0 <= k < r@.len() ==> r@[k] as int == #[trigger] loaded_rows(rows@)[k],
{
    let mut seen: Vec<String> = Vec::new();
    let mut out: Vec<usize> = Vec::new();
    let mut i: usize = 0;
    while i < rows.len()
        invariant
            i <= rows.len(),
            forall|j: int| 0 <= j < i ==> seen.deep_view().contains(lower(#[trigger] rows@[j].name@)),
            forall|m: int|
                #![trigger seen.deep_view()[m]]
                0 <= m < seen.deep_view().len() ==> exists|j: int|
                    0 <= j < i && lower(#[trigger] rows@[j].name@) == seen.deep_view()[m],
            out@.len() == loaded_rows(rows@.take(i as int)).len(),
            forall|k: int| 0 <= k < out@.len() ==> out@[k] as int == #[trigger] loaded_rows(rows@.take(i as int))[k],
        decreases rows.len() - i,
    {
        let ghost pre = rows@.take(i as int);
        let ghost cur = rows@.take(i + 1);
        assert(cur.drop_last() =~= pre);
        assert forall|j: int| 0 <= j <= i implies #[trigger] cur[j] == rows@[j] by {}
        let row = &rows[i];
        let name_lc = to_lower(row.name.as_str());
        let ghost before = loaded_rows(pre);
        if contains_name(&seen, name_lc.as_str()) {
            proof {
                let m = choose|m: int| 0 <= m < seen.deep_view().len() && seen.deep_view()[m] == name_lc@;
                let j = choose|j: int| 0 <= j < i && lower(#[trigger] rows@[j].name@) == seen.deep_view()[m];
                assert(cur[j] == rows@[j]);
                assert(!claims_name(cur, i as int));
            }
        } else {
            proof {
                assert forall|j: int| 0 <= j < i implies lower(#[trigger] cur[j].name@) != lower(cur[i as int].name@) by {
                    assert(cur[j] == rows@[j]);
                    assert(seen.deep_view().contains(lower(rows@[j].name@)));
                }
                assert(claims_name(cur, i as int));
            }
            let ghost seen_before = seen.deep_view();
            seen.push(name_lc);
            proof {
                assert(seen.deep_view() =~= seen_before.push(lower(rows@[i as int].name@)));
                assert forall|j: int| 0 <= j <= i implies seen.deep_view().contains(lower(#[trigger] rows@[j].name@)) by {
                    if j < i {
                        let m = choose|m: int| 0 <= m < seen_before.len() && seen_before[m] == lower(rows@[j].name@);
                        assert(seen.deep_view()[m] == lower(rows@[j].name@));
                    } else {
                        assert(seen.deep_view()[seen_before.len() as int] == lower(rows@[j].name@));
                    }
                }
                assert forall|m: int| #![trigger seen.deep_view()[m]] 0 <= m < seen.deep_view().len() implies exists|j: int|
                    0 <= j < i + 1 && lower(#[trigger] rows@[j].name@) == seen.deep_view()[m] by {
                    if m < seen_before.len() {
                        assert(seen.deep_view()[m] == seen_before[m]);
                    } else {
                        assert(lower(rows@[i as int].name@) == seen.deep_view()[m]);
                    }
                }
            }
            if uuid_parses(row.id.as_str()) && row.decodes {
                out.push(i);
                proof {
                    assert(loaded_rows(cur) == before.push(i as int));
                }
            }
        }
        i = i + 1;
        proof {
            assert forall|k: int| 0 <= k < out@.len() implies out@[k] as int == #[trigger] loaded_rows(rows@.take(i as int))[k] by {
                if k < before.len() {
                    assert(loaded_rows(cur)[k] == before[k]);
                }
            }
        }
    }
    assert(rows@.take(rows@.len() as int) =~= rows@);
    out
}

} // verus!
