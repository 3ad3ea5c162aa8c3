//! SQL text for the filtered store queries: which conditions a query
//! carries, in what order, and which values are bound to its numbered
//! placeholders.
use vstd::prelude::*;
use crate::observation::owned;
use crate::text::{decimal, lower, opt_str_view, opt_string_view, push_str, to_lower, usize_to_decimal};

verus! {

/// The SQL dialect of the backing database.
#[derive(Clone, Copy, Debug, PartialEq, Eq)]
pub enum SqlDialect {
    /// Placeholders `?1`, `?2`, ...
    Sqlite,
    /// Placeholders `$1`, `$2`, ...
    Postgres,
}

/// A value bound to a placeholder.
#[derive(Clone, Debug)]
pub enum SqlParam {
    Text(String),
    Integer(i64),
    /// The memory filter's minimum confidence, a real number that the
    /// caller binds.
    MinConfidence,
}

/// What a bound value stands for.
pub enum BoundValue {
    Text(Seq<char>),
    Integer(int),
    MinConfidence,
}

impl View for SqlParam {
    type V = BoundValue;

    open spec fn view(&self) -> BoundValue {
        match self {
            SqlParam::Text(s) => BoundValue::Text(s@),
            SqlParam::Integer(n) => BoundValue::Integer(*n as int),
            SqlParam::MinConfidence => BoundValue::MinConfidence,
        }
    }
}

/// A query: its text and the values for its placeholders, in order.
#[derive(Clone, Debug)]
pub struct SqlQuery {
    pub sql: String,
    pub params: Vec<SqlParam>,
}

/// The views of a list of bound values.
pub open spec fn bound(ps: Seq<SqlParam>) -> Seq<BoundValue> {
    ps.map_values(|p: SqlParam| p@)
}

/// The text of placeholder number `n`.
pub open spec fn placeholder(d: SqlDialect, n: nat) -> Seq<char> {
    match d {
        SqlDialect::Sqlite => seq!['?'] + decimal(n),
        SqlDialect::Postgres => seq!['$'] + decimal(n),
    }
}

/// `text` if `cond`, else nothing.
pub open spec fn when(cond: bool, text: Seq<char>) -> Seq<char> {
    if cond {
        text
    } else {
        Seq::empty()
    }
}

/// `v` as a one-element list if `cond`, else nothing.
pub open spec fn bound_when(cond: bool, v: BoundValue) -> Seq<BoundValue> {
    if cond {
        seq![v]
    } else {
        Seq::empty()
    }
}

/// A count of placeholders that a condition adds.
pub open spec fn count_when(cond: bool, n: nat) -> nat {
    if cond {
        n
    } else {
        0
    }
}

fn push_placeholder(s: &mut String, d: &SqlDialect, n: usize)
    ensures
        final(s)@ == old(s)@ + placeholder(*d, n as nat),
{
    match d {
        SqlDialect::Sqlite => push_str(s, "?"),
        SqlDialect::Postgres => push_str(s, "$"),
    }
    let digits = usize_to_decimal(n);
    push_str(s, digits.as_str());
    proof {
        reveal_strlit("?");
        reveal_strlit("$");
    }
}

fn text_param(s: &str) -> (p: SqlParam)
    ensures
        p@ == BoundValue::Text(s@),
{
    SqlParam::Text(owned(s))
}

/// `"%" + s + "%"`: a pattern matching any text that contains `s`.
pub open spec fn like_pattern(s: Seq<char>) -> Seq<char> {
    "%"@ + s + "%"@
}

fn like_text(s: &str) -> (r: String)
    ensures
        r@ == like_pattern(s@),
{
    let mut r = owned("%");
    push_str(&mut r, s);
    push_str(&mut r, "%");
    r
}

// ───────────────────────── Knowledge graph ─────────────────────────

/// The joined columns of a source entity, a relation and a target entity.
pub open spec fn graph_select() -> Seq<char> {
    "SELECT s.id, s.entity_type, s.name, s.properties, s.created_at, s.updated_at, r.id, r.source_entity, r.relation_type, r.target_entity, r.properties, r.confidence, r.created_at, t.id, t.entity_type, t.name, t.properties, t.created_at, t.updated_at FROM relations r JOIN entities s ON r.source_entity = s.id JOIN entities t ON r.target_entity = t.id WHERE 1=1"@
}

/// The source condition, with its placeholders numbered from `n`.
pub open spec fn source_clause(d: SqlDialect, n: nat) -> Seq<char> {
    " AND (s.id = "@ + placeholder(d, n) + " OR s.name = "@ + placeholder(d, n + 1) + ")"@
}

/// The relation condition, with its placeholder numbered `n`.
pub open spec fn relation_clause(d: SqlDialect, n: nat) -> Seq<char> {
    " AND r.relation_type = "@ + placeholder(d, n)
}

/// The target condition, with its placeholders numbered from `n`.
pub open spec fn target_clause(d: SqlDialect, n: nat) -> Seq<char> {
    " AND (t.id = "@ + placeholder(d, n) + " OR t.name = "@ + placeholder(d, n + 1) + ")"@
}

/// The graph query: a source given by id or name, a relation type (as
/// stored), a target given by id or name, each only when given, and at
/// most 100 matches.
pub open spec fn graph_sql(d: SqlDialect, src: bool, rel: bool, tgt: bool) -> Seq<char> {
    let n_rel = count_when(src, 2);
    let n_tgt = n_rel + count_when(rel, 1);
    graph_select() + when(src, source_clause(d, 1)) + when(rel, relation_clause(d, n_rel + 1)) + when(
        tgt,
        target_clause(d, n_tgt + 1),
    ) + " LIMIT 100"@
}

/// A value given twice, once, or not at all.
pub open spec fn bound_twice(o: Option<Seq<char>>) -> Seq<BoundValue> {
    match o {
        Some(v) => seq![BoundValue::Text(v), BoundValue::Text(v)],
        None => Seq::empty(),
    }
}

/// A value given once, or not at all.
pub open spec fn bound_once(o: Option<Seq<char>>) -> Seq<BoundValue> {
    match o {
        Some(v) => seq![BoundValue::Text(v)],
        None => Seq::empty(),
    }
}

/// The values bound by the graph query: the source twice, the relation,
/// the target twice, each only when given.
pub open spec fn graph_params(source: Option<Seq<char>>, relation: Option<Seq<char>>, target: Option<Seq<char>>) -> Seq<
    BoundValue,
> {
    bound_twice(source) + bound_once(relation) + bound_twice(target)
}

fn pair_clause(d: &SqlDialect, head: &str, mid: &str, n: usize) -> (r: String)
    requires
        n < usize::MAX,
    ensures
        r@ == head@ + placeholder(*d, n as nat) + mid@ + placeholder(*d, (n + 1) as nat) + ")"@,
{
    let mut r = owned(head);
    push_placeholder(&mut r, d, n);
    push_str(&mut r, mid);
    push_placeholder(&mut r, d, n + 1);
    push_str(&mut r, ")");
    r
}

fn push_when(params: &mut Vec<SqlParam>, v: Option<&str>, twice: bool)
    ensures
        bound(final(params)@) == bound(old(params)@) + (if twice { bound_twice(opt_str_view(v)) } else { bound_once(opt_str_view(v)) }),
{
    let ghost before = params@;
    if let Some(t) = v {
        params.push(text_param(t));
        if twice {
            params.push(text_param(t));
        }
    }
    proof {
        assert(bound(params@) =~= bound(before) + (if twice { bound_twice(opt_str_view(v)) } else { bound_once(opt_str_view(v)) }));
    }
}

fn graph_bound(source: Option<&str>, relation: Option<&str>, target: Option<&str>) -> (r: Vec<SqlParam>)
    ensures
        bound(r@) == graph_params(opt_str_view(source), opt_str_view(relation), opt_str_view(target)),
{
    let mut params: Vec<SqlParam> = Vec::new();
    assert(bound(params@) =~= Seq::<BoundValue>::empty());
    push_when(&mut params, source, true);
    push_when(&mut params, relation, false);
    push_when(&mut params, target, true);
    assert(bound(params@) =~= graph_params(opt_str_view(source), opt_str_view(relation), opt_str_view(target)));
    params
}

/// The knowledge-graph query for a pattern; `relation` is the relation type
/// in its stored (serialized) form.
pub fn graph_query(d: SqlDialect, source: Option<&str>, relation: Option<&str>, target: Option<&str>) -> (r: SqlQuery)
    ensures
        r.sql@ == graph_sql(d, source is Some, relation is Some, target is Some),
        bound(r.params@) == graph_params(opt_str_view(source), opt_str_view(relation), opt_str_view(target)),
{
    let mut sql = owned(
        "SELECT s.id, s.entity_type, s.name, s.properties, s.created_at, s.updated_at, r.id, r.source_entity, r.relation_type, r.target_entity, r.properties, r.confidence, r.created_at, t.id, t.entity_type, t.name, t.properties, t.created_at, t.updated_at FROM relations r JOIN entities s ON r.source_entity = s.id JOIN entities t ON r.target_entity = t.id WHERE 1=1",
    );
    let ghost g = graph_select();
    assert(sql@ == g);
    let mut idx: usize = 1;
    let c1 = if source.is_some() {
        let c = pair_clause(&d, " AND (s.id = ", " OR s.name = ", idx);
        idx = idx + 2;
        c
    } else {
        String::new()
    };
    assert(c1@ == when(source is Some, source_clause(d, 1)));
    assert(idx == count_when(source is Some, 2) + 1);
    push_str(&mut sql, c1.as_str());
    let c2 = if relation.is_some() {
        let mut c = owned(" AND r.relation_type = ");
        push_placeholder(&mut c, &d, idx);
        idx = idx + 1;
        c
    } else {
        String::new()
    };
    assert(c2@ == when(relation is Some, relation_clause(d, count_when(source is Some, 2) + 1)));
    push_str(&mut sql, c2.as_str());
    let c3 = if target.is_some() {
        pair_clause(&d, " AND (t.id = ", " OR t.name = ", idx)
    } else {
        String::new()
    };
    assert(c3@ == when(target is Some, target_clause(d, count_when(source is Some, 2) + count_when(relation is Some, 1) + 1)));
    push_str(&mut sql, c3.as_str());
    push_str(&mut sql, " LIMIT 100");
    SqlQuery { sql, params: graph_bound(source, relation, target) }
}

// ───────────────────────── Memory recall ─────────────────────────

/// A memory filter, as far as the query text depends on it.
#[derive(Clone, Debug)]
pub struct RecallFilter {
    pub agent_id: Option<String>,
    pub scope: Option<String>,
    /// Whether a minimum confidence is given; its value is bound by the caller.
    pub with_min_confidence: bool,
    /// The memory source in its stored (serialized) form.
    pub source: Option<String>,
}

/// How many rows to fetch: with a query embedding the rows are re-ranked
/// afterwards, so ten times the limit and at least 100 are fetched;
/// otherwise the limit itself.
pub open spec fn fetch_limit_spec(limit: nat, ranked: bool) -> nat {
    if ranked {
        if limit * 10 > 100 {
            limit * 10
        } else {
            100
        }
    } else {
        limit
    }
}

/// How many rows to fetch for a recall.
pub fn fetch_limit(limit: usize, ranked: bool) -> (r: usize)
    requires
        ranked ==> limit * 10 <= usize::MAX,
    ensures
        r == fetch_limit_spec(limit as nat, ranked),
{
    if ranked {
        let n = limit * 10;
        if n > 100 {
            n
        } else {
            100
        }
    } else {
        limit
    }
}

/// The columns of a stored memory, excluding deleted ones.
pub open spec fn recall_select(d: SqlDialect) -> Seq<char> {
    "SELECT id, agent_id, content, source, scope, confidence, metadata, created_at, accessed_at, access_count, embedding FROM memories WHERE deleted = "@
        + match d {
        SqlDialect::Sqlite => "0"@,
        SqlDialect::Postgres => "FALSE"@,
    }
}

/// The text condition (case-insensitive on Postgres), placeholder `n`.
pub open spec fn content_clause(d: SqlDialect, n: nat) -> Seq<char> {
    match d {
        SqlDialect::Sqlite => " AND content LIKE "@ + placeholder(d, n),
        SqlDialect::Postgres => " AND content ILIKE "@ + placeholder(d, n),
    }
}

/// An equality condition on `column`, placeholder `n`.
pub open spec fn eq_clause(d: SqlDialect, column: Seq<char>, n: nat) -> Seq<char> {
    " AND "@ + column + " = "@ + placeholder(d, n)
}

/// The minimum-confidence condition, placeholder `n`.
pub open spec fn confidence_clause(d: SqlDialect, n: nat) -> Seq<char> {
    " AND confidence >= "@ + placeholder(d, n)
}

/// The recall query: memories whose content contains the query text (only
/// when `text` holds), then the filter's conditions in the order agent,
/// scope, minimum confidence, source, most recently and most often accessed
/// first, at most `fetch` rows.
pub open spec fn recall_sql(d: SqlDialect, text: bool, f: RecallFilter, fetch: nat) -> Seq<char> {
    let n1 = count_when(text, 1);
    let n2 = n1 + count_when(f.agent_id is Some, 1);
    let n3 = n2 + count_when(f.scope is Some, 1);
    let n4 = n3 + count_when(f.with_min_confidence, 1);
    recall_select(d) + when(text, content_clause(d, 1)) + when(f.agent_id is Some, eq_clause(d, "agent_id"@, n1 + 1))
        + when(f.scope is Some, eq_clause(d, "scope"@, n2 + 1)) + when(
        f.with_min_confidence,
        confidence_clause(d, n3 + 1),
    ) + when(f.source is Some, eq_clause(d, "source"@, n4 + 1))
        + " ORDER BY accessed_at DESC, access_count DESC LIMIT "@ + decimal(fetch)
}

/// The values bound by the recall query, in placeholder order.
pub open spec fn recall_params(query: Seq<char>, text: bool, f: RecallFilter) -> Seq<BoundValue> {
    bound_when(text, BoundValue::Text(like_pattern(query))) + bound_once(opt_string_view(f.agent_id)) + bound_once(
        opt_string_view(f.scope),
    ) + bound_when(f.with_min_confidence, BoundValue::MinConfidence) + bound_once(opt_string_view(f.source))
}

/// The content of a memory is searched for the query text only when no
/// query embedding ranks the rows and the text is not empty.
pub open spec fn searches_text(query: Seq<char>, ranked: bool) -> bool {
    !ranked && query.len() > 0
}

fn single_clause(d: &SqlDialect, head: &str, n: usize) -> (r: String)
    ensures
        r@ == head@ + placeholder(*d, n as nat),
{
    let mut r = owned(head);
    push_placeholder(&mut r, d, n);
    r
}

fn push_opt(params: &mut Vec<SqlParam>, v: &Option<String>)
    ensures
        bound(final(params)@) == bound(old(params)@) + bound_once(opt_string_view(*v)),
{
    let ghost before = params@;
    if let Some(t) = v {
        params.push(text_param(t.as_str()));
    }
    assert(bound(params@) =~= bound(before) + bound_once(opt_string_view(*v)));
}

fn recall_bound(query: &str, text: bool, filter: &RecallFilter) -> (r: Vec<SqlParam>)
    ensures
        bound(r@) == recall_params(query@, text, *filter),
{
    let mut params: Vec<SqlParam> = Vec::new();
    if text {
        let pattern = like_text(query);
        params.push(SqlParam::Text(pattern));
    }
    assert(bound(params@) =~= bound_when(text, BoundValue::Text(like_pattern(query@))));
    push_opt(&mut params, &filter.agent_id);
    push_opt(&mut params, &filter.scope);
    let ghost before = params@;
    if filter.with_min_confidence {
        params.push(SqlParam::MinConfidence);
    }
    assert(bound(params@) =~= bound(before) + bound_when(filter.with_min_confidence, BoundValue::MinConfidence));
    push_opt(&mut params, &filter.source);
    assert(bound(params@) =~= recall_params(query@, text, *filter));
    params
}

/// The recall query for a text query (searched only without a query
/// embedding), a filter and a result limit.
pub fn recall_query(d: SqlDialect, query: &str, ranked: bool, filter: &RecallFilter, limit: usize) -> (r: SqlQuery)
    requires
        ranked ==> limit * 10 <= usize::MAX,
    ensures
        r.sql@ == recall_sql(d, searches_text(query@, ranked), *filter, fetch_limit_spec(limit as nat, ranked)),
        bound(r.params@) == recall_params(query@, searches_text(query@, ranked), *filter),
{
    let text = !ranked && crate::text::chars_of(query).len() > 0;
    assert(text == searches_text(query@, ranked));
    proof {
        reveal_strlit(" AND ");
        reveal_strlit(" = ");
        reveal_strlit("agent_id");
        reveal_strlit(" AND agent_id = ");
        reveal_strlit("scope");
        reveal_strlit(" AND scope = ");
        reveal_strlit("source");
        reveal_strlit(" AND source = ");
        assert(" AND agent_id = "@ =~= " AND "@ + "agent_id"@ + " = "@);
        assert(" AND scope = "@ =~= " AND "@ + "scope"@ + " = "@);
        assert(" AND source = "@ =~= " AND "@ + "source"@ + " = "@);
    }
    let mut sql = owned(
        "SELECT id, agent_id, content, source, scope, confidence, metadata, created_at, accessed_at, access_count, embedding FROM memories WHERE deleted = ",
    );
    match d {
        SqlDialect::Sqlite => push_str(&mut sql, "0"),
        SqlDialect::Postgres => push_str(&mut sql, "FALSE"),
    }
    assert(sql@ == recall_select(d));
    let mut idx: usize = 1;
    let c1 = if text {
        let c = match d {
            SqlDialect::Sqlite => single_clause(&d, " AND content LIKE ", idx),
            SqlDialect::Postgres => single_clause(&d, " AND content ILIKE ", idx),
        };
        idx = idx + 1;
        c
    } else {
        String::new()
    };
    assert(c1@ == when(text, content_clause(d, 1)));
    push_str(&mut sql, c1.as_str());
    let ghost n1: nat = count_when(text, 1);
    assert(idx == n1 + 1);
    let c2 = if filter.agent_id.is_some() {
        let c = single_clause(&d, " AND agent_id = ", idx);
        idx = idx + 1;
        c
    } else {
        String::new()
    };
    assert(c2@ == when(filter.agent_id is Some, eq_clause(d, "agent_id"@, n1 + 1)));
    push_str(&mut sql, c2.as_str());
    let ghost n2: nat = n1 + count_when(filter.agent_id is Some, 1);
    assert(idx == n2 + 1);
    let c3 = if filter.scope.is_some() {
        let c = single_clause(&d, " AND scope = ", idx);
        idx = idx + 1;
        c
    } else {
        String::new()
    };
    assert(c3@ == when(filter.scope is Some, eq_clause(d, "scope"@, n2 + 1)));
    push_str(&mut sql, c3.as_str());
    let ghost n3: nat = n2 + count_when(filter.scope is Some, 1);
    assert(idx == n3 + 1);
    let c4 = if filter.with_min_confidence {
        let c = single_clause(&d, " AND confidence >= ", idx);
        idx = idx + 1;
        c
    } else {
        String::new()
    };
    assert(c4@ == when(filter.with_min_confidence, confidence_clause(d, n3 + 1)));
    push_str(&mut sql, c4.as_str());
    let ghost n4: nat = n3 + count_when(filter.with_min_confidence, 1);
    assert(idx == n4 + 1);
    let c5 = if filter.source.is_some() {
        single_clause(&d, " AND source = ", idx)
    } else {
        String::new()
    };
    assert(c5@ == when(filter.source is Some, eq_clause(d, "source"@, n4 + 1)));
    push_str(&mut sql, c5.as_str());
    push_str(&mut sql, " ORDER BY accessed_at DESC, access_count DESC LIMIT ");
    let fetch = fetch_limit(limit, ranked);
    let digits = usize_to_decimal(fetch);
    push_str(&mut sql, digits.as_str());
    SqlQuery { sql, params: recall_bound(query, text, filter) }
}

// ───────────────────────── Invitation codes ─────────────────────────

/// The filter of the invitation-code queries: by tenant, and by a search
/// text that the code contains (case-insensitive), each only when given.
pub open spec fn invitation_where(d: SqlDialect, tenant: bool, search: bool) -> Seq<char> {
    when(tenant, " WHERE tenant_id = "@ + placeholder(d, 1)) + when(
        search,
        (if tenant { " AND "@ } else { " WHERE "@ }) + "LOWER(code) LIKE "@ + placeholder(d, count_when(tenant, 1) + 1),
    )
}

/// One page of invitation codes, newest first.
pub open spec fn invitation_list_sql(d: SqlDialect, tenant: bool, search: bool) -> Seq<char> {
    let k = count_when(tenant, 1) + count_when(search, 1);
    "SELECT id, code, tenant_id, max_uses, used_count, is_active, created_by, created_at FROM invitation_codes"@
        + invitation_where(d, tenant, search) + " ORDER BY created_at DESC LIMIT "@ + placeholder(d, k + 1)
        + " OFFSET "@ + placeholder(d, k + 2)
}

/// The number of invitation codes that the filter admits.
pub open spec fn invitation_count_sql(d: SqlDialect, tenant: bool, search: bool) -> Seq<char> {
    "SELECT COUNT(*) FROM invitation_codes"@ + invitation_where(d, tenant, search)
}

/// The values bound by the invitation filter: the tenant, then the
/// lowercased search text as a containment pattern.
pub open spec fn invitation_filter_params(tenant: Option<Seq<char>>, search: Option<Seq<char>>) -> Seq<BoundValue> {
    bound_once(tenant) + match search {
        Some(q) => seq![BoundValue::Text(like_pattern(lower(q)))],
        None => Seq::empty(),
    }
}

fn invitation_filter(d: &SqlDialect, tenant: Option<&str>, search: Option<&str>) -> (r: (String, Vec<SqlParam>))
    ensures
        r.0@ == invitation_where(*d, tenant is Some, search is Some),
        bound(r.1@) == invitation_filter_params(opt_str_view(tenant), opt_str_view(search)),
{
    let mut w = String::new();
    let mut params: Vec<SqlParam> = Vec::new();
    let mut idx: usize = 1;
    if let Some(t) = tenant {
        let c = single_clause(d, " WHERE tenant_id = ", idx);
        push_str(&mut w, c.as_str());
        params.push(text_param(t));
        idx = idx + 1;
    }
    let ghost w1 = w@;
    assert(w1 =~= when(tenant is Some, " WHERE tenant_id = "@ + placeholder(*d, 1)));
    assert(bound(params@) =~= bound_once(opt_str_view(tenant)));
    if let Some(q) = search {
        let head = if tenant.is_some() { " AND LOWER(code) LIKE " } else { " WHERE LOWER(code) LIKE " };
        let c = single_clause(d, head, idx);
        proof {
            reveal_strlit(" AND LOWER(code) LIKE ");
            reveal_strlit(" WHERE LOWER(code) LIKE ");
            reveal_strlit(" AND ");
            reveal_strlit(" WHERE ");
            reveal_strlit("LOWER(code) LIKE ");
            assert(" AND LOWER(code) LIKE "@ =~= " AND "@ + "LOWER(code) LIKE "@);
            assert(" WHERE LOWER(code) LIKE "@ =~= " WHERE "@ + "LOWER(code) LIKE "@);
        }
        push_str(&mut w, c.as_str());
        let lowered = to_lower(q);
        let ghost before = params@;
        params.push(SqlParam::Text(like_text(lowered.as_str())));
        assert(bound(params@) =~= bound(before) + seq![BoundValue::Text(like_pattern(lower(q@)))]);
    }
    assert(bound(params@) =~= invitation_filter_params(opt_str_view(tenant), opt_str_view(search)));
    (w, params)
}

/// The invitation-code queries for a filter and a page: the page query
/// (`limit` rows after skipping `offset`) and the total-count query, each
/// with its bound values.
pub fn invitation_queries(
    d: SqlDialect,
    tenant: Option<&str>,
    search: Option<&str>,
    limit: usize,
    offset: usize,
) -> (r: (SqlQuery, SqlQuery))
    ensures
        r.0.sql@ == invitation_list_sql(d, tenant is Some, search is Some),
        bound(r.0.params@) == invitation_filter_params(opt_str_view(tenant), opt_str_view(search)) + seq![
            BoundValue::Integer(limit as i64 as int),
            BoundValue::Integer(offset as i64 as int),
        ],
        r.1.sql@ == invitation_count_sql(d, tenant is Some, search is Some),
        bound(r.1.params@) == invitation_filter_params(opt_str_view(tenant), opt_str_view(search)),
{
    let (w, params) = invitation_filter(&d, tenant, search);
    let (w2, params2) = invitation_filter(&d, tenant, search);
    let k: usize = if tenant.is_some() { 1 } else { 0 };
    let k: usize = if search.is_some() { k + 1 } else { k };
    let mut list = owned(
        "SELECT id, code, tenant_id, max_uses, used_count, is_active, created_by, created_at FROM invitation_codes",
    );
    push_str(&mut list, w.as_str());
    let c = single_clause(&d, " ORDER BY created_at DESC LIMIT ", k + 1);
    push_str(&mut list, c.as_str());
    let c = single_clause(&d, " OFFSET ", k + 2);
    push_str(&mut list, c.as_str());
    let mut list_params = params;
    let ghost before = list_params@;
    list_params.push(SqlParam::Integer(limit as i64));
    list_params.push(SqlParam::Integer(offset as i64));
    assert(bound(list_params@) =~= bound(before) + seq![
        BoundValue::Integer(limit as i64 as int),
        BoundValue::Integer(offset as i64 as int),
    ]);
    let mut count = owned("SELECT COUNT(*) FROM invitation_codes");
    push_str(&mut count, w2.as_str());
    (SqlQuery { sql: list, params: list_params }, SqlQuery { sql: count, params: params2 })
}

// ───────────────────────── Notifications ─────────────────────────

/// The category filter of a notification listing: a category other than
/// `all` restricts the listing; `all` or none lists every category.
pub open spec fn category_filter(category: Option<Seq<char>>) -> Option<Seq<char>> {
    match category {
        Some(c) => if c == "all"@ {
            None
        } else {
            Some(c)
        },
        None => None,
    }
}

/// A user's notifications, newest first, optionally of one category.
pub open spec fn notification_list_sql(d: SqlDialect, by_category: bool) -> Seq<char> {
    "SELECT id, tenant_id, user_id, type, category, title, body, link, sender_id, sender_name, created_at, read_at FROM notifications WHERE user_id = "@
        + placeholder(d, 1) + when(by_category, " AND category = "@ + placeholder(d, 2))
        + " ORDER BY created_at DESC LIMIT "@ + placeholder(d, count_when(by_category, 1) + 2)
}

/// The notification listing for a user, a category and a limit.
pub fn notification_query(d: SqlDialect, user_id: &str, category: Option<&str>, limit: usize) -> (r: SqlQuery)
    ensures
        r.sql@ == notification_list_sql(d, category_filter(opt_str_view(category)) is Some),
        bound(r.params@) == seq![BoundValue::Text(user_id@)] + bound_once(category_filter(opt_str_view(category)))
            + seq![BoundValue::Integer(limit as i64 as int)],
{
    let filter: Option<&str> = match category {
        Some(c) => if crate::text::str_eq(c, "all") {
            None
        } else {
            Some(c)
        },
        None => None,
    };
    assert(opt_str_view(filter) == category_filter(opt_str_view(category)));
    let mut sql = owned(
        "SELECT id, tenant_id, user_id, type, category, title, body, link, sender_id, sender_name, created_at, read_at FROM notifications WHERE user_id = ",
    );
    push_placeholder(&mut sql, &d, 1);
    let mut params: Vec<SqlParam> = Vec::new();
    params.push(text_param(user_id));
    let mut idx: usize = 2;
    let c = if let Some(cat) = filter {
        params.push(text_param(cat));
        idx = 3;
        single_clause(&d, " AND category = ", 2)
    } else {
        String::new()
    };
    assert(c@ == when(filter is Some, " AND category = "@ + placeholder(d, 2)));
    push_str(&mut sql, c.as_str());
    let tail = single_clause(&d, " ORDER BY created_at DESC LIMIT ", idx);
    push_str(&mut sql, tail.as_str());
    let ghost before = params@;
    params.push(SqlParam::Integer(limit as i64));
    assert(bound(params@) =~= seq![BoundValue::Text(user_id@)] + bound_once(opt_str_view(filter))
        + seq![BoundValue::Integer(limit as i64 as int)]);
    SqlQuery { sql, params }
}

} // verus!
