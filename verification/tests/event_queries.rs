use prgit::window::queries::{
    active_user_queries, active_users, counts_query, events_query, EventsQuery, SqlValue,
};

fn q() -> EventsQuery {
    EventsQuery { event_type: None, since: None, until: None, repo: None, user: None, limit: None }
}

fn ints(b: &[SqlValue]) -> Vec<String> {
    b.iter()
        .map(|v| match v {
            SqlValue::Text(s) => format!("t:{s}"),
            SqlValue::Integer(n) => format!("i:{n}"),
        })
        .collect()
}

#[test]
fn events_query_without_filters() {
    let r = events_query(&q());
    assert_eq!(r.sql, "SELECT payload FROM events WHERE 1=1 ORDER BY timestamp DESC LIMIT ?1");
    assert_eq!(ints(&r.bindings), vec!["i:100"]);
}

#[test]
fn events_query_with_all_filters() {
    let params = EventsQuery {
        event_type: Some("push.received".to_string()),
        since: Some(10),
        until: Some(20),
        repo: Some("depot/main".to_string()),
        user: Some("alice".to_string()),
        limit: Some(5),
    };
    let r = events_query(&params);
    assert_eq!(
        r.sql,
        "SELECT payload FROM events WHERE 1=1 AND event_type = ?1 AND timestamp >= ?2 AND timestamp <= ?3 AND repo = ?4 AND user = ?5 ORDER BY timestamp DESC LIMIT ?6"
    );
    assert_eq!(ints(&r.bindings), vec!["t:push.received", "i:10", "i:20", "t:depot/main", "t:alice", "i:5"]);
}

#[test]
fn counts_query_filters() {
    let params = EventsQuery { until: Some(7), repo: Some("r".to_string()), ..q() };
    let r = counts_query(&params);
    assert_eq!(
        r.sql,
        "SELECT event_type, COUNT(*) FROM events WHERE 1=1 AND timestamp <= ?1 AND repo = ?2 GROUP BY event_type ORDER BY event_type"
    );
    assert_eq!(ints(&r.bindings), vec!["i:7", "t:r"]);
}

#[test]
fn active_user_query_texts() {
    let r = active_user_queries(&EventsQuery { repo: Some("depot/main".to_string()), ..q() });
    assert_eq!(
        r.pushes,
        "SELECT user, COUNT(*) FROM events WHERE event_type = 'push.received' AND timestamp >= ?1 AND repo = ?2 AND user IS NOT NULL GROUP BY user"
    );
    assert_eq!(
        r.closed,
        "SELECT user, COUNT(*) FROM events WHERE event_type IN ('push.branch_deleted', 'shelve.merged') AND timestamp >= ?1 AND repo = ?2 AND user IS NOT NULL GROUP BY user"
    );
    assert_eq!(ints(&r.bindings), vec!["i:0", "t:depot/main"]);
    let r = active_user_queries(&EventsQuery { since: Some(99), ..q() });
    assert_eq!(
        r.created,
        "SELECT user, COUNT(*) FROM events WHERE event_type = 'push.branch_created' AND timestamp >= ?1 AND user IS NOT NULL GROUP BY user"
    );
    assert_eq!(ints(&r.bindings), vec!["i:99"]);
}

#[test]
fn active_branches_never_below_zero() {
    let pushes = vec![("alice".to_string(), 3), ("bob".to_string(), 1)];
    let created = vec![("alice".to_string(), 2), ("bob".to_string(), 1)];
    let closed = vec![("bob".to_string(), 4)];
    let users = active_users(&pushes, &created, &closed);
    assert_eq!(users.len(), 2);
    assert_eq!(users[0].user, "alice");
    assert_eq!(users[0].push_count, 3);
    assert_eq!(users[0].active_branches, 2);
    assert_eq!(users[1].user, "bob");
    assert_eq!(users[1].active_branches, 0);
}
