//! The queries the event API runs against the event store, and what it
//! makes of their rows.

use vstd::prelude::*;
use crate::text::{append_decimal, decimal};

verus! {

/// A value bound to a query placeholder.
#[derive(Debug)]
pub enum SqlValue {
    Text(String),
    Integer(i64),
}

/// The mathematical form of a [`SqlValue`].
pub enum SqlValueView {
    Text(Seq<char>),
    Integer(i64),
}

impl View for SqlValue {
    type V = SqlValueView;

    open spec fn view(&self) -> SqlValueView {
        match self {
            SqlValue::Text(s) => SqlValueView::Text(s@),
            SqlValue::Integer(n) => SqlValueView::Integer(*n),
        }
    }
}

/// The filters of an event query; each one that is set narrows it.
pub struct EventsQuery {
    pub event_type: Option<String>,
    pub since: Option<i64>,
    pub until: Option<i64>,
    pub repo: Option<String>,
    pub user: Option<String>,
    pub limit: Option<u32>,
}

/// A query text and the values of its placeholders `?1`, `?2`, ...
pub struct SqlQuery {
    pub sql: String,
    pub bindings: Vec<SqlValue>,
}

/// A text filter, when it is set.
pub open spec fn text_filter(cond: Seq<char>, v: Option<String>) -> Seq<(Seq<char>, SqlValueView)> {
    match v {
        Some(s) => seq![(cond, SqlValueView::Text(s@))],
        None => Seq::empty(),
    }
}

/// A number filter, when it is set.
pub open spec fn int_filter(cond: Seq<char>, v: Option<i64>) -> Seq<(Seq<char>, SqlValueView)> {
    match v {
        Some(n) => seq![(cond, SqlValueView::Integer(n))],
        None => Seq::empty(),
    }
}

/// The conditions `fs` in query text, each followed by the number of its
/// placeholder.
pub open spec fn conditions_text(fs: Seq<(Seq<char>, SqlValueView)>) -> Seq<char>
    decreases fs.len(),
{
    if fs.len() == 0 {
        Seq::empty()
    } else {
        conditions_text(fs.drop_last()) + fs.last().0 + decimal(fs.len())
    }
}

/// The filters an event listing applies, in order: type, since, until,
/// repository, user.
pub open spec fn event_filters(q: EventsQuery) -> Seq<(Seq<char>, SqlValueView)> {
    text_filter(" AND event_type = ?"@, q.event_type) + int_filter(" AND timestamp >= ?"@, q.since)
        + int_filter(" AND timestamp <= ?"@, q.until) + text_filter(" AND repo = ?"@, q.repo)
        + text_filter(" AND user = ?"@, q.user)
}

/// The filters an event count applies, in order: since, until, repository.
pub open spec fn count_filters(q: EventsQuery) -> Seq<(Seq<char>, SqlValueView)> {
    int_filter(" AND timestamp >= ?"@, q.since) + int_filter(" AND timestamp <= ?"@, q.until)
        + text_filter(" AND repo = ?"@, q.repo)
}

/// The values of the filters `fs`.
pub open spec fn filter_values(fs: Seq<(Seq<char>, SqlValueView)>) -> Seq<SqlValueView> {
    fs.map_values(|f: (Seq<char>, SqlValueView)| f.1)
}

fn add_condition(
    sql: &mut String,
    bindings: &mut Vec<SqlValue>,
    cond: &str,
    value: SqlValue,
    Ghost(fs): Ghost<Seq<(Seq<char>, SqlValueView)>>,
)
    requires
        old(bindings)@.len() == fs.len(),
        old(bindings)@.map_values(|v: SqlValue| v@) == filter_values(fs),
        fs.len() < 8,
    ensures
        final(sql)@ == old(sql)@ + cond@ + decimal(fs.len() + 1),
        final(bindings)@.map_values(|v: SqlValue| v@) == filter_values(fs.push((cond@, value@))),
        final(bindings)@.len() == fs.len() + 1,
{
    sql.append(cond);
    let n = bindings.len();
    append_decimal(sql, n + 1);
    let ghost before = bindings@.map_values(|v: SqlValue| v@);
    let ghost vv = value@;
    bindings.push(value);
    assert(bindings@.map_values(|v: SqlValue| v@) =~= before.push(vv));
    assert(filter_values(fs.push((cond@, vv))) =~= filter_values(fs).push(vv));
}

fn clone_opt(s: &Option<String>) -> (r: Option<String>)
    ensures
        r == *s,
{
    match s {
        Some(t) => Some(t.clone()),
        None => None,
    }
}

proof fn lemma_conditions_push(fs: Seq<(Seq<char>, SqlValueView)>, f: (Seq<char>, SqlValueView))
    ensures
        conditions_text(fs.push(f)) == conditions_text(fs) + f.0 + decimal(fs.len() + 1),
{
    assert(fs.push(f).drop_last() =~= fs);
}

/// Appends the text filter `cond` when `v` is set.
fn add_text_filter(
    sql: &mut String,
    bindings: &mut Vec<SqlValue>,
    cond: &str,
    v: &Option<String>,
    Ghost(fs): Ghost<Seq<(Seq<char>, SqlValueView)>>,
)
    requires
        old(bindings)@.len() == fs.len(),
        old(bindings)@.map_values(|x: SqlValue| x@) == filter_values(fs),
        fs.len() < 8,
    ensures
        final(sql)@ == old(sql)@ + (conditions_text(fs + text_filter(cond@, *v)).subrange(
            conditions_text(fs).len() as int,
            conditions_text(fs + text_filter(cond@, *v)).len() as int,
        )),
        final(bindings)@.map_values(|x: SqlValue| x@) == filter_values(fs + text_filter(cond@, *v)),
        final(bindings)@.len() == (fs + text_filter(cond@, *v)).len(),
{
    match v {
        Some(s) => {
            proof {
                lemma_conditions_push(fs, (cond@, SqlValueView::Text(s@)));
                assert(fs + text_filter(cond@, *v) =~= fs.push((cond@, SqlValueView::Text(s@))));
            }
            add_condition(sql, bindings, cond, SqlValue::Text(s.clone()), Ghost(fs));
            let ghost all = conditions_text(fs + text_filter(cond@, *v));
            assert(all.subrange(conditions_text(fs).len() as int, all.len() as int) =~= cond@
                + decimal(fs.len() + 1));
        },
        None => {
            assert(fs + text_filter(cond@, *v) =~= fs);
            let ghost all = conditions_text(fs);
            assert(all.subrange(all.len() as int, all.len() as int) =~= Seq::<char>::empty());
            assert(sql@ =~= sql@ + Seq::<char>::empty());
        },
    }
}

/// Appends the number filter `cond` when `v` is set.
fn add_int_filter(
    sql: &mut String,
    bindings: &mut Vec<SqlValue>,
    cond: &str,
    v: Option<i64>,
    Ghost(fs): Ghost<Seq<(Seq<char>, SqlValueView)>>,
)
    requires
        old(bindings)@.len() == fs.len(),
        old(bindings)@.map_values(|x: SqlValue| x@) == filter_values(fs),
        fs.len() < 8,
    ensures
        final(sql)@ == old(sql)@ + (conditions_text(fs + int_filter(cond@, v)).subrange(
            conditions_text(fs).len() as int,
            conditions_text(fs + int_filter(cond@, v)).len() as int,
        )),
        final(bindings)@.map_values(|x: SqlValue| x@) == filter_values(fs + int_filter(cond@, v)),
        final(bindings)@.len() == (fs + int_filter(cond@, v)).len(),
{
    match v {
        Some(n) => {
            proof {
                lemma_conditions_push(fs, (cond@, SqlValueView::Integer(n)));
                assert(fs + int_filter(cond@, v) =~= fs.push((cond@, SqlValueView::Integer(n))));
            }
            add_condition(sql, bindings, cond, SqlValue::Integer(n), Ghost(fs));
            let ghost all = conditions_text(fs + int_filter(cond@, v));
            assert(all.subrange(conditions_text(fs).len() as int, all.len() as int) =~= cond@
                + decimal(fs.len() + 1));
        },
        None => {
            assert(fs + int_filter(cond@, v) =~= fs);
            let ghost all = conditions_text(fs);
            assert(all.subrange(all.len() as int, all.len() as int) =~= Seq::<char>::empty());
            assert(sql@ =~= sql@ + Seq::<char>::empty());
        },
    }
}

proof fn lemma_conditions_prefix(fs: Seq<(Seq<char>, SqlValueView)>, gs: Seq<(Seq<char>, SqlValueView)>)
    ensures
        conditions_text(fs).len() <= conditions_text(fs + gs).len(),
        conditions_text(fs + gs).subrange(0, conditions_text(fs).len() as int) == conditions_text(fs),
    decreases gs.len(),
{
    if gs.len() == 0 {
        assert(fs + gs =~= fs);
    } else {
        lemma_conditions_prefix(fs, gs.drop_last());
        assert((fs + gs).drop_last() =~= fs + gs.drop_last());
        let a = conditions_text(fs + gs.drop_last());
        let b = conditions_text(fs + gs);
        assert(b == a + gs.last().0 + decimal((fs + gs).len()));
        assert(b.subrange(0, conditions_text(fs).len() as int) =~= a.subrange(
            0,
            conditions_text(fs).len() as int,
        ));
    }
}

/// The query that lists events: newest first, filtered by the query's
/// filters, at most `limit` (100 when unset) of them.
pub open spec fn events_query_spec(q: EventsQuery) -> (Seq<char>, Seq<SqlValueView>) {
    let fs = event_filters(q);
    (
        "SELECT payload FROM events WHERE 1=1"@ + conditions_text(fs)
            + " ORDER BY timestamp DESC LIMIT ?"@ + decimal(fs.len() + 1),
        filter_values(fs).push(
            SqlValueView::Integer(
                match q.limit {
                    Some(l) => l as i64,
                    None => 100,
                },
            ),
        ),
    )
}

/// Appends one stretch of conditions: what `conditions_text` adds for
/// `gs` after `fs`.
proof fn lemma_extend(
    s0: Seq<char>,
    fs: Seq<(Seq<char>, SqlValueView)>,
    gs: Seq<(Seq<char>, SqlValueView)>,
    s1: Seq<char>,
)
    requires
        s0 == conditions_text(fs),
        s1 == s0 + conditions_text(fs + gs).subrange(
            conditions_text(fs).len() as int,
            conditions_text(fs + gs).len() as int,
        ),
    ensures
        s1 == conditions_text(fs + gs),
{
    lemma_conditions_prefix(fs, gs);
    let all = conditions_text(fs + gs);
    assert(s1 =~= all);
}

/// The query that lists events.
pub fn events_query(q: &EventsQuery) -> (r: SqlQuery)
    ensures
        (r.sql@, r.bindings@.map_values(|v: SqlValue| v@)) == events_query_spec(*q),
{
    let mut conds = String::new();
    let mut bindings: Vec<SqlValue> = Vec::new();
    let ghost f0 = Seq::<(Seq<char>, SqlValueView)>::empty();
    assert(bindings@.map_values(|x: SqlValue| x@) =~= filter_values(f0));
    assert(conds@ =~= conditions_text(f0));
    add_text_filter(&mut conds, &mut bindings, " AND event_type = ?", &q.event_type, Ghost(f0));
    let ghost f1 = f0 + text_filter(" AND event_type = ?"@, q.event_type);
    proof { lemma_extend(conditions_text(f0), f0, text_filter(" AND event_type = ?"@, q.event_type), conds@); }
    let ghost s1 = conds@;
    add_int_filter(&mut conds, &mut bindings, " AND timestamp >= ?", q.since, Ghost(f1));
    let ghost f2 = f1 + int_filter(" AND timestamp >= ?"@, q.since);
    proof { lemma_extend(s1, f1, int_filter(" AND timestamp >= ?"@, q.since), conds@); }
    let ghost s2 = conds@;
    add_int_filter(&mut conds, &mut bindings, " AND timestamp <= ?", q.until, Ghost(f2));
    let ghost f3 = f2 + int_filter(" AND timestamp <= ?"@, q.until);
    proof { lemma_extend(s2, f2, int_filter(" AND timestamp <= ?"@, q.until), conds@); }
    let ghost s3 = conds@;
    add_text_filter(&mut conds, &mut bindings, " AND repo = ?", &q.repo, Ghost(f3));
    let ghost f4 = f3 + text_filter(" AND repo = ?"@, q.repo);
    proof { lemma_extend(s3, f3, text_filter(" AND repo = ?"@, q.repo), conds@); }
    let ghost s4 = conds@;
    add_text_filter(&mut conds, &mut bindings, " AND user = ?", &q.user, Ghost(f4));
    let ghost f5 = f4 + text_filter(" AND user = ?"@, q.user);
    proof {
        lemma_extend(s4, f4, text_filter(" AND user = ?"@, q.user), conds@);
        assert(f5 =~= event_filters(*q));
    }
    let mut sql = "SELECT payload FROM events WHERE 1=1".to_owned();
    sql.append(conds.as_str());
    sql.append(" ORDER BY timestamp DESC LIMIT ?");
    let n = bindings.len();
    append_decimal(&mut sql, n + 1);
    let limit: i64 = match q.limit {
        Some(l) => l as i64,
        None => 100,
    };
    let ghost before = bindings@.map_values(|x: SqlValue| x@);
    bindings.push(SqlValue::Integer(limit));
    assert(bindings@.map_values(|x: SqlValue| x@) =~= before.push(SqlValueView::Integer(limit)));
    SqlQuery { sql, bindings }
}

/// The query that counts events by type, filtered by the query's time
/// range and repository.
pub open spec fn counts_query_spec(q: EventsQuery) -> (Seq<char>, Seq<SqlValueView>) {
    let fs = count_filters(q);
    (
        "SELECT event_type, COUNT(*) FROM events WHERE 1=1"@ + conditions_text(fs)
            + " GROUP BY event_type ORDER BY event_type"@,
        filter_values(fs),
    )
}

/// The query that counts events by type.
pub fn counts_query(q: &EventsQuery) -> (r: SqlQuery)
    ensures
        (r.sql@, r.bindings@.map_values(|v: SqlValue| v@)) == counts_query_spec(*q),
{
    let mut conds = String::new();
    let mut bindings: Vec<SqlValue> = Vec::new();
    let ghost f0 = Seq::<(Seq<char>, SqlValueView)>::empty();
    assert(bindings@.map_values(|x: SqlValue| x@) =~= filter_values(f0));
    assert(conds@ =~= conditions_text(f0));
    add_int_filter(&mut conds, &mut bindings, " AND timestamp >= ?", q.since, Ghost(f0));
    let ghost f1 = f0 + int_filter(" AND timestamp >= ?"@, q.since);
    proof { lemma_extend(conditions_text(f0), f0, int_filter(" AND timestamp >= ?"@, q.since), conds@); }
    let ghost s1 = conds@;
    add_int_filter(&mut conds, &mut bindings, " AND timestamp <= ?", q.until, Ghost(f1));
    let ghost f2 = f1 + int_filter(" AND timestamp <= ?"@, q.until);
    proof { lemma_extend(s1, f1, int_filter(" AND timestamp <= ?"@, q.until), conds@); }
    let ghost s2 = conds@;
    add_text_filter(&mut conds, &mut bindings, " AND repo = ?", &q.repo, Ghost(f2));
    let ghost f3 = f2 + text_filter(" AND repo = ?"@, q.repo);
    proof {
        lemma_extend(s2, f2, text_filter(" AND repo = ?"@, q.repo), conds@);
        assert(f3 =~= count_filters(*q));
    }
    let mut sql = "SELECT event_type, COUNT(*) FROM events WHERE 1=1".to_owned();
    sql.append(conds.as_str());
    sql.append(" GROUP BY event_type ORDER BY event_type");
    SqlQuery { sql, bindings }
}

/// The queries behind the active-user report, and their shared
/// bindings: pushes per user, branches created per user, and branches
/// closed (deleted or merged) per user, each since `since` (0 when unset)
/// and, when `repo` is set, in that repository only.
#[derive(Debug)]
pub struct ActiveUserQueries {
    pub pushes: String,
    pub created: String,
    pub closed: String,
    pub bindings: Vec<SqlValue>,
}

/// The repository condition of the active-user queries.
pub open spec fn repo_condition(repo: Option<String>) -> Seq<char> {
    match repo {
        Some(_) => " AND repo = ?2"@,
        None => Seq::empty(),
    }
}

/// The active-user query for events of the kinds `kinds` (query text).
pub open spec fn per_user_count_sql(kinds: Seq<char>, repo: Option<String>) -> Seq<char> {
    "SELECT user, COUNT(*) FROM events WHERE event_type "@ + kinds + " AND timestamp >= ?1"@
        + repo_condition(repo) + " AND user IS NOT NULL GROUP BY user"@
}

fn per_user_count_query(kinds: &str, repo_filter: &str) -> (r: String)
    ensures
        r@ == "SELECT user, COUNT(*) FROM events WHERE event_type "@ + kinds@ + " AND timestamp >= ?1"@
            + repo_filter@ + " AND user IS NOT NULL GROUP BY user"@,
{
    let mut r = "SELECT user, COUNT(*) FROM events WHERE event_type ".to_owned();
    r.append(kinds);
    r.append(" AND timestamp >= ?1");
    r.append(repo_filter);
    r.append(" AND user IS NOT NULL GROUP BY user");
    r
}

/// The queries behind the active-user report.
pub fn active_user_queries(q: &EventsQuery) -> (r: ActiveUserQueries)
    ensures
        r.pushes@ == per_user_count_sql("= 'push.received'"@, q.repo),
        r.created@ == per_user_count_sql("= 'push.branch_created'"@, q.repo),
        r.closed@ == per_user_count_sql("IN ('push.branch_deleted', 'shelve.merged')"@, q.repo),
        r.bindings@.map_values(|v: SqlValue| v@) == seq![
            SqlValueView::Integer(
                match q.since {
                    Some(t) => t,
                    None => 0,
                },
            ),
        ] + match q.repo {
            Some(s) => seq![SqlValueView::Text(s@)],
            None => Seq::empty(),
        },
{
    let since: i64 = match q.since {
        Some(t) => t,
        None => 0,
    };
    let mut bindings: Vec<SqlValue> = Vec::new();
    bindings.push(SqlValue::Integer(since));
    let repo_filter = match &q.repo {
        Some(repo) => {
            bindings.push(SqlValue::Text(repo.clone()));
            " AND repo = ?2"
        },
        None => "",
    };
    proof {
        reveal_strlit("");
    }
    let r = ActiveUserQueries {
        pushes: per_user_count_query("= 'push.received'", repo_filter),
        created: per_user_count_query("= 'push.branch_created'", repo_filter),
        closed: per_user_count_query("IN ('push.branch_deleted', 'shelve.merged')", repo_filter),
        bindings,
    };
    assert(repo_filter@ == repo_condition(q.repo));
    assert(r.bindings@.map_values(|v: SqlValue| v@) =~= seq![SqlValueView::Integer(since)] + match q.repo {
        Some(s) => seq![SqlValueView::Text(s@)],
        None => Seq::empty(),
    });
    r
}

// ------------------------------------------------------------ active users

/// Per user, since a time: pushes, and branches created minus those closed.
pub struct ActiveUser {
    pub user: String,
    pub push_count: u64,
    pub active_branches: u64,
}

/// The count `counts` holds for `user`: the first entry's, or 0.
pub open spec fn count_for(counts: Seq<(Seq<char>, u64)>, user: Seq<char>) -> u64
    decreases counts.len(),
{
    if counts.len() == 0 {
        0
    } else if counts[0].0 == user {
        counts[0].1
    } else {
        count_for(counts.drop_first(), user)
    }
}

/// The count `counts` holds for `user`.
pub fn lookup_count(counts: &[(String, u64)], user: &String) -> (r: u64)
    ensures
        r == count_for(counts@.map_values(|c: (String, u64)| (c.0@, c.1)), user@),
{
    let ghost cs = counts@.map_values(|c: (String, u64)| (c.0@, c.1));
    assert(cs.subrange(0, cs.len() as int) =~= cs);
    let mut k: usize = 0;
    while k < counts.len()
        invariant
            k <= counts@.len(),
            cs == counts@.map_values(|c: (String, u64)| (c.0@, c.1)),
            count_for(cs, user@) == count_for(cs.subrange(k as int, cs.len() as int), user@),
        decreases counts.len() - k,
    {
        let ghost rest = cs.subrange(k as int, cs.len() as int);
        assert(rest[0] == cs[k as int]);
        assert(rest.drop_first() =~= cs.subrange(k + 1, cs.len() as int));
        if counts[k].0 == *user {
            return counts[k].1;
        }
        k = k + 1;
    }
    0
}

/// The active users: one per user with pushes, in the order of
/// `push_counts`, with its branches created less those closed (deleted or
/// merged), never below zero.
pub fn active_users(
    push_counts: &[(String, u64)],
    created: &[(String, u64)],
    closed: &[(String, u64)],
) -> (r: Vec<ActiveUser>)
    ensures
        r@.len() == push_counts@.len(),
        forall|i: int|
            0 <= i < r@.len() ==> {
                let u = push_counts@[i].0@;
                &&& (#[trigger] r@[i]).user@ == u
                &&& r@[i].push_count == push_counts@[i].1
                &&& r@[i].active_branches == if count_for(
                    created@.map_values(|c: (String, u64)| (c.0@, c.1)),
                    u,
                ) >= count_for(closed@.map_values(|c: (String, u64)| (c.0@, c.1)), u) {
                    (count_for(created@.map_values(|c: (String, u64)| (c.0@, c.1)), u) - count_for(
                        closed@.map_values(|c: (String, u64)| (c.0@, c.1)),
                        u,
                    )) as u64
                } else {
                    0
                }
            },
{
    let mut r: Vec<ActiveUser> = Vec::new();
    let mut k: usize = 0;
    while k < push_counts.len()
        invariant
            k <= push_counts@.len(),
            r@.len() == k,
            forall|i: int|
                0 <= i < k ==> {
                    let u = push_counts@[i].0@;
                    &&& (#[trigger] r@[i]).user@ == u
                    &&& r@[i].push_count == push_counts@[i].1
                    &&& r@[i].active_branches == if count_for(
                        created@.map_values(|c: (String, u64)| (c.0@, c.1)),
                        u,
                    ) >= count_for(closed@.map_values(|c: (String, u64)| (c.0@, c.1)), u) {
                        (count_for(created@.map_values(|c: (String, u64)| (c.0@, c.1)), u)
                            - count_for(closed@.map_values(|c: (String, u64)| (c.0@, c.1)), u)) as u64
                    } else {
                        0
                    }
                },
        decreases push_counts.len() - k,
    {
        let user = &push_counts[k].0;
        let c = lookup_count(created, user);
        let d = lookup_count(closed, user);
        let active_branches = c.saturating_sub(d);
        r.push(ActiveUser { user: user.clone(), push_count: push_counts[k].1, active_branches });
        k = k + 1;
    }
    r
}

} // verus!
