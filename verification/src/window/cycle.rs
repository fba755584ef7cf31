//! What the server records of a mirror cycle and of a shelve.

use vstd::prelude::*;
use crate::mirror::changes::{ChangeInfoView, MirrorChangeInfo, opt_string_view};
use crate::shelf::shelver::ShelveResult;
use crate::window::events::{EventView, ObservabilityEvent};

verus! {

/// A shelved branch that a mirrored change merged: the branch, its shelved
/// changelist, the change that submitted it, and who shelved it.
#[derive(Debug)]
pub struct ShelveMergedInfo {
    pub branch: String,
    pub shelved_cl: usize,
    pub submitted_cl: usize,
    pub shelver_user: String,
}

/// The last change a client was synced to, or 0 when it cannot be read.
pub fn get_last_sync(stored: Option<usize>) -> (r: usize)
    ensures
        r == match stored {
            Some(n) => n,
            None => 0,
        },
{
    match stored {
        Some(n) => n,
        None => 0,
    }
}

/// The mirrored changes that merge a branch, as (branch, change), in order.
pub open spec fn merge_candidates_spec(infos: Seq<ChangeInfoView>) -> Seq<(Seq<char>, usize)>
    decreases infos.len(),
{
    if infos.len() == 0 {
        Seq::empty()
    } else {
        let prev = merge_candidates_spec(infos.drop_last());
        match infos.last().merge_parent {
            Some(b) => prev.push((b, infos.last().p4_change)),
            None => prev,
        }
    }
}

/// The mirrored changes that merge a branch.
pub fn merge_candidates(infos: &[MirrorChangeInfo]) -> (r: Vec<(String, usize)>)
    ensures
        r@.map_values(|c: (String, usize)| (c.0@, c.1)) == merge_candidates_spec(
            infos@.map_values(|i: MirrorChangeInfo| i@),
        ),
{
    let ghost all = infos@.map_values(|i: MirrorChangeInfo| i@);
    let mut r: Vec<(String, usize)> = Vec::new();
    let mut k: usize = 0;
    while k < infos.len()
        invariant
            k <= infos@.len(),
            all == infos@.map_values(|i: MirrorChangeInfo| i@),
            r@.map_values(|c: (String, usize)| (c.0@, c.1)) == merge_candidates_spec(
                all.take(k as int),
            ),
        decreases infos.len() - k,
    {
        proof {
            assert(all.take(k + 1).drop_last() =~= all.take(k as int));
            assert(all.take(k + 1).last() == all[k as int]);
        }
        let ghost before = r@.map_values(|c: (String, usize)| (c.0@, c.1));
        match &infos[k].merge_parent {
            Some(b) => {
                r.push((b.clone(), infos[k].p4_change));
                assert(r@.map_values(|c: (String, usize)| (c.0@, c.1)) =~= before.push(
                    (b@, infos[k as int].p4_change),
                ));
            },
            None => {},
        }
        k = k + 1;
    }
    assert(all.take(infos@.len() as int) =~= all);
    r
}

/// The merge a mirrored change made of a shelved branch, as the database
/// knows it: none when the branch has no shelved changelist; its shelver is
/// empty when unknown.
pub fn merged_info(
    branch: String,
    submitted_cl: usize,
    shelved_cl: Option<usize>,
    shelver: Option<String>,
) -> (r: Option<ShelveMergedInfo>)
    ensures
        match shelved_cl {
            None => r is None,
            Some(cl) => r matches Some(m) && m.branch == branch && m.shelved_cl == cl
                && m.submitted_cl == submitted_cl && m.shelver_user@ == match shelver {
                Some(s) => s@,
                None => Seq::<char>::empty(),
            },
        },
{
    match shelved_cl {
        None => None,
        Some(cl) => {
            let shelver_user = match shelver {
                Some(s) => s,
                None => String::new(),
            };
            Some(ShelveMergedInfo { branch, shelved_cl: cl, submitted_cl, shelver_user })
        },
    }
}

/// The events of one mirrored change: the commit, then one skipped file
/// per file left out for a `.git` path component.
pub open spec fn change_events(now: i64, repo: Seq<char>, info: ChangeInfoView) -> Seq<EventView> {
    seq![
        EventView::MirrorChangeCommitted {
            timestamp: now,
            repo,
            p4_change: info.p4_change,
            commit_hash: info.commit_hash,
            user: info.user,
            file_count: info.file_count,
            duration_ms: info.duration_ms,
            merge_parent: info.merge_parent,
            merge_strategy: info.merge_strategy,
        },
    ] + info.skipped_files.map_values(
        |d: Seq<char>|
            EventView::MirrorFileSkipped {
                timestamp: now,
                repo,
                p4_change: info.p4_change,
                depot_path: d,
                reason: ".git path component"@,
            },
    )
}

/// The events of the mirrored changes, in order.
pub open spec fn changes_events(now: i64, repo: Seq<char>, infos: Seq<ChangeInfoView>) -> Seq<
    EventView,
>
    decreases infos.len(),
{
    if infos.len() == 0 {
        Seq::empty()
    } else {
        changes_events(now, repo, infos.drop_last()) + change_events(now, repo, infos.last())
    }
}

/// The event of a merged shelve.
pub open spec fn merged_event(now: i64, repo: Seq<char>, m: ShelveMergedInfo) -> EventView {
    EventView::ShelveMerged {
        timestamp: now,
        repo,
        branch: m.branch@,
        shelved_cl: m.shelved_cl,
        submitted_cl: m.submitted_cl,
        shelver_user: m.shelver_user@,
    }
}

fn push_event(out: &mut Vec<ObservabilityEvent>, e: ObservabilityEvent)
    ensures
        final(out)@.map_values(|x: ObservabilityEvent| x@) == old(out)@.map_values(
            |x: ObservabilityEvent| x@,
        ).push(e@),
{
    let ghost before = out@.map_values(|x: ObservabilityEvent| x@);
    let ghost v = e@;
    out.push(e);
    assert(out@.map_values(|x: ObservabilityEvent| x@) =~= before.push(v));
}

fn clone_opt(s: &Option<String>) -> (r: Option<String>)
    ensures
        opt_string_view(r) == opt_string_view(*s),
{
    match s {
        Some(t) => Some(t.clone()),
        None => None,
    }
}

/// Appends the events of one mirrored change.
fn push_change_events(out: &mut Vec<ObservabilityEvent>, now: i64, repo: &str, info: &MirrorChangeInfo)
    ensures
        final(out)@.map_values(|x: ObservabilityEvent| x@) == old(out)@.map_values(
            |x: ObservabilityEvent| x@,
        ) + change_events(now, repo@, info@),
{
    let ghost start = out@.map_values(|x: ObservabilityEvent| x@);
    push_event(
        out,
        ObservabilityEvent::MirrorChangeCommitted {
            timestamp: now,
            repo: repo.to_owned(),
            p4_change: info.p4_change,
            commit_hash: info.commit_hash.clone(),
            user: info.user.clone(),
            file_count: info.file_count,
            duration_ms: info.duration_ms,
            merge_parent: clone_opt(&info.merge_parent),
            merge_strategy: clone_opt(&info.merge_strategy),
        },
    );
    let ghost skipped = info@.skipped_files;
    let ghost skip_events = skipped.map_values(
        |d: Seq<char>|
            EventView::MirrorFileSkipped {
                timestamp: now,
                repo: repo@,
                p4_change: info.p4_change,
                depot_path: d,
                reason: ".git path component"@,
            },
    );
    let ghost first = out@.map_values(|x: ObservabilityEvent| x@);
    let mut k: usize = 0;
    while k < info.skipped_files.len()
        invariant
            k <= info.skipped_files@.len(),
            skipped == info.skipped_files@.map_values(|f: String| f@),
            skip_events == skipped.map_values(
                |d: Seq<char>|
                    EventView::MirrorFileSkipped {
                        timestamp: now,
                        repo: repo@,
                        p4_change: info.p4_change,
                        depot_path: d,
                        reason: ".git path component"@,
                    },
            ),
            out@.map_values(|x: ObservabilityEvent| x@) == first + skip_events.take(k as int),
        decreases info.skipped_files.len() - k,
    {
        push_event(
            out,
            ObservabilityEvent::MirrorFileSkipped {
                timestamp: now,
                repo: repo.to_owned(),
                p4_change: info.p4_change,
                depot_path: info.skipped_files[k].clone(),
                reason: ".git path component".to_owned(),
            },
        );
        assert(skip_events.take(k + 1) =~= skip_events.take(k as int).push(skip_events[k as int]));
        k = k + 1;
    }
    assert(skip_events.take(info.skipped_files@.len() as int) =~= skip_events);
    assert(out@.map_values(|x: ObservabilityEvent| x@) =~= start + change_events(now, repo@, info@));
}

/// The events of a completed mirror cycle, in order.
pub open spec fn cycle_events_spec(
    now: i64,
    repo: Seq<char>,
    infos: Seq<MirrorChangeInfo>,
    merged: Seq<ShelveMergedInfo>,
    changes_synced: usize,
    new_last_sync: usize,
    duration_ms: u64,
) -> Seq<EventView> {
    changes_events(now, repo, infos.map_values(|i: MirrorChangeInfo| i@)) + merged.map_values(
        |m: ShelveMergedInfo| merged_event(now, repo, m),
    ).push(EventView::MirrorCycleCompleted { timestamp: now, repo, changes_synced, new_last_sync, duration_ms })
}

/// The events a completed mirror cycle records, in order: for each
/// mirrored change its commit and its skipped files, then each shelve the
/// cycle merged, then the cycle's completion.
pub fn cycle_events(
    now: i64,
    repo: &str,
    infos: &[MirrorChangeInfo],
    merged: &[ShelveMergedInfo],
    changes_synced: usize,
    new_last_sync: usize,
    duration_ms: u64,
) -> (r: Vec<ObservabilityEvent>)
    ensures
        r@.map_values(|x: ObservabilityEvent| x@) == cycle_events_spec(
            now,
            repo@,
            infos@,
            merged@,
            changes_synced,
            new_last_sync,
            duration_ms,
        ),
{
    let ghost all = infos@.map_values(|i: MirrorChangeInfo| i@);
    let mut out: Vec<ObservabilityEvent> = Vec::new();
    let mut k: usize = 0;
    assert(out@.map_values(|x: ObservabilityEvent| x@) =~= changes_events(now, repo@, all.take(0)));
    while k < infos.len()
        invariant
            k <= infos@.len(),
            all == infos@.map_values(|i: MirrorChangeInfo| i@),
            out@.map_values(|x: ObservabilityEvent| x@) == changes_events(
                now,
                repo@,
                all.take(k as int),
            ),
        decreases infos.len() - k,
    {
        push_change_events(&mut out, now, repo, &infos[k]);
        proof {
            assert(all.take(k + 1).drop_last() =~= all.take(k as int));
            assert(all.take(k + 1).last() == all[k as int]);
        }
        k = k + 1;
    }
    assert(all.take(infos@.len() as int) =~= all);
    let ghost head = out@.map_values(|x: ObservabilityEvent| x@);
    let ghost ms = merged@.map_values(|m: ShelveMergedInfo| merged_event(now, repo@, m));
    let mut j: usize = 0;
    while j < merged.len()
        invariant
            j <= merged@.len(),
            ms == merged@.map_values(|m: ShelveMergedInfo| merged_event(now, repo@, m)),
            out@.map_values(|x: ObservabilityEvent| x@) == head + ms.take(j as int),
        decreases merged.len() - j,
    {
        let m = &merged[j];
        push_event(
            &mut out,
            ObservabilityEvent::ShelveMerged {
                timestamp: now,
                repo: repo.to_owned(),
                branch: m.branch.clone(),
                shelved_cl: m.shelved_cl,
                submitted_cl: m.submitted_cl,
                shelver_user: m.shelver_user.clone(),
            },
        );
        assert(ms.take(j + 1) =~= ms.take(j as int).push(ms[j as int]));
        j = j + 1;
    }
    assert(ms.take(merged@.len() as int) =~= ms);
    push_event(
        &mut out,
        ObservabilityEvent::MirrorCycleCompleted {
            timestamp: now,
            repo: repo.to_owned(),
            changes_synced,
            new_last_sync,
            duration_ms,
        },
    );
    out
}

/// What one mirror cycle brought: the last change synced, how many
/// changes it synced, the changes it mirrored and the shelves they merged.
#[derive(Debug)]
pub struct MirrorCycleResult {
    pub last_change: usize,
    pub changes_synced: usize,
    pub change_infos: Vec<MirrorChangeInfo>,
    pub merged: Vec<ShelveMergedInfo>,
}

/// The events a mirror cycle ends with: those of the completed cycle when
/// it went through; else one failure event carrying its error.
pub fn cycle_end_events(
    now: i64,
    repo: &str,
    outcome: Result<MirrorCycleResult, String>,
    duration_ms: u64,
) -> (r: Vec<ObservabilityEvent>)
    ensures
        match outcome {
            Ok(c) => r@.map_values(|x: ObservabilityEvent| x@) == cycle_events_spec(
                now,
                repo@,
                c.change_infos@,
                c.merged@,
                c.changes_synced,
                c.last_change,
                duration_ms,
            ),
            Err(e) => r@.map_values(|x: ObservabilityEvent| x@) == seq![
                EventView::MirrorCycleFailed { timestamp: now, repo: repo@, error: e@, duration_ms },
            ],
        },
{
    match outcome {
        Ok(c) => cycle_events(
            now,
            repo,
            &c.change_infos,
            &c.merged,
            c.changes_synced,
            c.last_change,
            duration_ms,
        ),
        Err(e) => {
            let mut out: Vec<ObservabilityEvent> = Vec::new();
            let ghost v = EventView::MirrorCycleFailed { timestamp: now, repo: repo@, error: e@, duration_ms };
            push_event(
                &mut out,
                ObservabilityEvent::MirrorCycleFailed {
                    timestamp: now,
                    repo: repo.to_owned(),
                    error: e,
                    duration_ms,
                },
            );
            assert(out@.map_values(|x: ObservabilityEvent| x@) =~= seq![v]);
            out
        },
    }
}

/// The event of a shelve that went through: a reshelve when the branch
/// had been shelved before, else a completed shelve.
pub open spec fn shelve_done_view(
    now: i64,
    user: Seq<char>,
    repo: Seq<char>,
    branch: Seq<char>,
    result: ShelveResult,
    duration_ms: u64,
    is_async: bool,
) -> EventView {
    if result.is_reshelve {
        EventView::ShelveReshelved {
            timestamp: now,
            user,
            repo,
            branch,
            changelist: result.changelist,
            client_name: result.client_name@,
            duration_ms,
            file_count: result.file_count,
            is_async,
            commits_in_branch: result.commits_in_branch,
        }
    } else {
        EventView::ShelveCompleted {
            timestamp: now,
            user,
            repo,
            branch,
            changelist: result.changelist,
            client_name: result.client_name@,
            duration_ms,
            file_count: result.file_count,
            is_async,
            commits_in_branch: result.commits_in_branch,
        }
    }
}

/// The event of a shelve that went through: a reshelve when the branch
/// had been shelved before, else a completed shelve.
pub fn shelve_done_event(
    now: i64,
    user: &str,
    repo: &str,
    branch: &str,
    result: &ShelveResult,
    duration_ms: u64,
    is_async: bool,
) -> (r: ObservabilityEvent)
    ensures
        r@ == shelve_done_view(now, user@, repo@, branch@, *result, duration_ms, is_async),
{
    if result.is_reshelve {
        ObservabilityEvent::ShelveReshelved {
            timestamp: now,
            user: user.to_owned(),
            repo: repo.to_owned(),
            branch: branch.to_owned(),
            changelist: result.changelist,
            client_name: result.client_name.clone(),
            duration_ms,
            file_count: result.file_count,
            is_async,
            commits_in_branch: result.commits_in_branch,
        }
    } else {
        ObservabilityEvent::ShelveCompleted {
            timestamp: now,
            user: user.to_owned(),
            repo: repo.to_owned(),
            branch: branch.to_owned(),
            changelist: result.changelist,
            client_name: result.client_name.clone(),
            duration_ms,
            file_count: result.file_count,
            is_async,
            commits_in_branch: result.commits_in_branch,
        }
    }
}

/// The events of a push's shelving starting: one per branch, in order.
pub fn shelve_started_events(
    now: i64,
    user: &str,
    repo: &str,
    branches: &[String],
    is_async: bool,
) -> (r: Vec<ObservabilityEvent>)
    ensures
        r@.map_values(|x: ObservabilityEvent| x@) == branches@.map_values(
            |b: String|
                EventView::ShelveStarted { timestamp: now, user: user@, repo: repo@, branch: b@, is_async },
        ),
{
    let ghost want = branches@.map_values(
        |b: String|
            EventView::ShelveStarted { timestamp: now, user: user@, repo: repo@, branch: b@, is_async },
    );
    let mut out: Vec<ObservabilityEvent> = Vec::new();
    let mut k: usize = 0;
    while k < branches.len()
        invariant
            k <= branches@.len(),
            want == branches@.map_values(
                |b: String|
                    EventView::ShelveStarted {
                        timestamp: now,
                        user: user@,
                        repo: repo@,
                        branch: b@,
                        is_async,
                    },
            ),
            out@.map_values(|x: ObservabilityEvent| x@) == want.take(k as int),
        decreases branches.len() - k,
    {
        push_event(
            &mut out,
            ObservabilityEvent::ShelveStarted {
                timestamp: now,
                user: user.to_owned(),
                repo: repo.to_owned(),
                branch: branches[k].clone(),
                is_async,
            },
        );
        assert(want.take(k + 1) =~= want.take(k as int).push(want[k as int]));
        k = k + 1;
    }
    assert(want.take(branches@.len() as int) =~= want);
    out
}

/// The moment before which events are pruned: `retention_days` days
/// before `now_ms` (both in milliseconds since the Unix epoch).
pub fn retention_cutoff_ms(now_ms: i64, retention_days: u32) -> (r: i64)
    requires
        now_ms - retention_days * 86_400_000 >= i64::MIN,
    ensures
        r == now_ms - retention_days * 86_400_000,
{
    let span: i64 = (retention_days as i64) * 86_400_000;
    now_ms - span
}

} // verus!
