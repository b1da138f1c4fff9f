//! The library's laws: properties that relate several operations, stated
//! over the model functions the executable contracts are pinned to.
use vstd::prelude::*;

use crate::checklist::checklist_pos;
use crate::checklist::has_checklist_item;
use crate::models::lemma_task_index_is;
use crate::models::CheckListItemView;
use crate::models::ProjectView;
use crate::models::TaskView;
use crate::queries::is_unarchived;
use crate::seq_facts::lemma_filter_all;
use crate::seq_facts::lemma_filter_holds;
use crate::seq_facts::lemma_filter_push;
use crate::seq_facts::lemma_filter_sub;
use crate::seq_facts::without_id;

verus! {

/// In a well-formed project every id is pairwise distinct within its
/// collection; since construction and every mutation establish
/// well-formedness, this holds after any sequence of calls.
pub proof fn law_ids_distinct(p: ProjectView)
    requires
        p.wf(),
    ensures
        p.category_ids_distinct(),
        p.task_ids_distinct(),
        p.user_ids_distinct(),
{
}

/// The task sequence of `p.assign_task_m(user_id, task_id)` stays
/// pairwise-distinct in ids and the addressed position keeps its id, so
/// the task is still found where it was.
proof fn lemma_assign_keeps_ids(p: ProjectView, user_id: u64, task_id: u64)
    requires
        p.wf(),
        p.has_task(task_id),
    ensures
        p.assign_task_m(user_id, task_id).task_ids_distinct(),
        p.assign_task_m(user_id, task_id).has_task(task_id),
        p.assign_task_m(user_id, task_id).task_index(task_id) == p.task_index(task_id),
        p.assign_task_m(user_id, task_id).tasks.len() == p.tasks.len(),
{
    let q = p.assign_task_m(user_id, task_id);
    let i = p.task_index(task_id);
    assert(0 <= i < p.tasks.len() && p.tasks[i].id == task_id);
    assert forall|a: int, b: int| 0 <= a < b < q.tasks.len() implies q.tasks[a].id
        != q.tasks[b].id by {
        assert(q.tasks[a].id == p.tasks[a].id);
        assert(q.tasks[b].id == p.tasks[b].id);
    }
    assert(q.tasks[i].id == task_id);
    lemma_task_index_is(q, i, task_id);
}

/// Assigning the same user to the same task twice changes nothing beyond
/// the first assignment, and the task then holds exactly one membership of
/// that user: it is present, and no user id occurs twice.
pub proof fn law_assign_task_idempotent(p: ProjectView, user_id: u64, task_id: u64)
    requires
        p.wf(),
        p.has_task(task_id),
        p.has_user(user_id),
    ensures
        p.assign_task_m(user_id, task_id).assign_task_m(user_id, task_id) == p.assign_task_m(
            user_id,
            task_id,
        ),
        p.assign_task_m(user_id, task_id).task_at(task_id).assigned_to.contains(user_id),
        forall|a: int, b: int|
            0 <= a < b < p.assign_task_m(user_id, task_id).task_at(task_id).assigned_to.len()
                ==> p.assign_task_m(user_id, task_id).task_at(task_id).assigned_to[a]
                != p.assign_task_m(user_id, task_id).task_at(task_id).assigned_to[b],
{
    let i = p.task_index(task_id);
    let told = p.task_at(task_id);
    assert(0 <= i < p.tasks.len() && p.tasks[i].id == task_id);
    assert(p.task_wf(told));
    let q = p.assign_task_m(user_id, task_id);
    lemma_assign_keeps_ids(p, user_id, task_id);
    if told.assigned_to.contains(user_id) {
        assert(q == p);
    } else {
        let tv = TaskView { assigned_to: told.assigned_to.push(user_id), ..told };
        assert(q.tasks[i] == tv);
        assert(q.task_at(task_id) == tv);
        assert(tv.assigned_to[told.assigned_to.len() as int] == user_id);
        assert(tv.assigned_to.contains(user_id));
        assert(q.assign_task_m(user_id, task_id) == q);
        assert forall|a: int, b: int|
            0 <= a < b < tv.assigned_to.len() implies tv.assigned_to[a] != tv.assigned_to[b] by {
            if b < told.assigned_to.len() {
                assert(told.assigned_to[a] != told.assigned_to[b]);
            } else {
                assert(tv.assigned_to[b] == user_id);
                assert(tv.assigned_to[a] == told.assigned_to[a]);
                assert(!told.assigned_to.contains(user_id));
            }
        }
    }
}

/// Unassigning removes exactly the memberships of the targeted user: the
/// user is gone, every other membership stays, and when the user was not
/// assigned at all the project is unchanged.
pub proof fn law_unassign_task_exact(p: ProjectView, user_id: u64, task_id: u64)
    requires
        p.wf(),
        p.has_task(task_id),
    ensures
        !p.unassign_task_m(user_id, task_id).task_at(task_id).assigned_to.contains(user_id),
        forall|x: u64|
            x != user_id ==> (p.unassign_task_m(user_id, task_id).task_at(
                task_id,
            ).assigned_to.contains(x) <==> p.task_at(task_id).assigned_to.contains(x)),
        !p.task_at(task_id).assigned_to.contains(user_id) ==> p.unassign_task_m(user_id, task_id)
            == p,
{
    let i = p.task_index(task_id);
    let told = p.task_at(task_id);
    assert(0 <= i < p.tasks.len() && p.tasks[i].id == task_id);
    let q = p.unassign_task_m(user_id, task_id);
    let fseq = told.assigned_to.filter(without_id(user_id));
    let tv = TaskView { assigned_to: fseq, ..told };
    assert forall|a: int, b: int| 0 <= a < b < q.tasks.len() implies q.tasks[a].id
        != q.tasks[b].id by {
        assert(q.tasks[a].id == p.tasks[a].id);
        assert(q.tasks[b].id == p.tasks[b].id);
    }
    assert(q.tasks[i] == tv);
    lemma_task_index_is(q, i, task_id);
    lemma_filter_holds(told.assigned_to, without_id(user_id));
    if fseq.contains(user_id) {
        let w = choose|w: int| 0 <= w < fseq.len() && fseq[w] == user_id;
        assert(without_id(user_id)(fseq[w]));
    }
    lemma_filter_sub(told.assigned_to, without_id(user_id));
    assert forall|x: u64| x != user_id implies (tv.assigned_to.contains(x) <==> told.assigned_to.contains(x)) by {
        if told.assigned_to.contains(x) {
            let w = choose|w: int| 0 <= w < told.assigned_to.len() && told.assigned_to[w] == x;
            assert(without_id(user_id)(told.assigned_to[w]));
            told.assigned_to.lemma_filter_contains(without_id(user_id), w);
        }
        if tv.assigned_to.contains(x) {
            let w = choose|w: int| 0 <= w < fseq.len() && fseq[w] == x;
            assert(told.assigned_to.contains(fseq[w]));
        }
    }
    if !told.assigned_to.contains(user_id) {
        assert forall|a: int| 0 <= a < told.assigned_to.len() implies without_id(user_id)(
            #[trigger] told.assigned_to[a],
        ) by {
            assert(told.assigned_to[a] != user_id);
        }
        lemma_filter_all(told.assigned_to, without_id(user_id));
        assert(tv =~= told);
        assert(q.tasks =~= p.tasks);
        assert(q =~= p);
    }
}

/// Assigning a user that was not assigned and then unassigning it returns
/// the project to exactly its former state; in particular the task's
/// memberships are again what they were (empty when they were empty).
pub proof fn law_assign_then_unassign(p: ProjectView, user_id: u64, task_id: u64)
    requires
        p.wf(),
        p.has_task(task_id),
        p.has_user(user_id),
        !p.task_at(task_id).assigned_to.contains(user_id),
    ensures
        p.assign_task_m(user_id, task_id).unassign_task_m(user_id, task_id) == p,
{
    let i = p.task_index(task_id);
    let told = p.task_at(task_id);
    assert(0 <= i < p.tasks.len() && p.tasks[i].id == task_id);
    let q = p.assign_task_m(user_id, task_id);
    lemma_assign_keeps_ids(p, user_id, task_id);
    let tq = TaskView { assigned_to: told.assigned_to.push(user_id), ..told };
    assert(q.tasks[i] == tq);
    assert(q.task_at(task_id) == tq);
    let r = q.unassign_task_m(user_id, task_id);
    lemma_filter_push(told.assigned_to, user_id, without_id(user_id));
    assert forall|a: int| 0 <= a < told.assigned_to.len() implies without_id(user_id)(
        #[trigger] told.assigned_to[a],
    ) by {
        assert(told.assigned_to[a] != user_id);
    }
    lemma_filter_all(told.assigned_to, without_id(user_id));
    assert(tq.assigned_to.filter(without_id(user_id)) == told.assigned_to);
    let tr = TaskView { assigned_to: told.assigned_to, ..tq };
    assert(r.tasks[i] == tr);
    assert(tr =~= told);
    assert(r.tasks =~= p.tasks);
    assert(r =~= p);
}

/// Removing and then adding a checklist item never reuses an index: the
/// new item's index is strictly above every index the remaining items
/// carry, and in particular differs from the removed one.
pub proof fn law_checklist_no_index_reuse(p: ProjectView, task_id: u64, ix: u64, name: Seq<char>)
    requires
        p.wf(),
        p.has_task(task_id),
        has_checklist_item(p.task_at(task_id), ix),
        p.task_at(task_id).last_check_list_index < u64::MAX,
    ensures
        p.remove_checklist_item_m(task_id, ix).add_checklist_item_m(task_id, name).task_at(
            task_id,
        ).check_list.last().index > ix,
        forall|j: int|
            0 <= j < p.remove_checklist_item_m(task_id, ix).task_at(task_id).check_list.len()
                ==> p.remove_checklist_item_m(task_id, ix).add_checklist_item_m(
                task_id,
                name,
            ).task_at(task_id).check_list.last().index > #[trigger] p.remove_checklist_item_m(
                task_id,
                ix,
            ).task_at(task_id).check_list[j].index,
{
    let i = p.task_index(task_id);
    let told = p.task_at(task_id);
    assert(0 <= i < p.tasks.len() && p.tasks[i].id == task_id);
    assert(p.task_wf(told));
    let q = p.remove_checklist_item_m(task_id, ix);
    let jpos = checklist_pos(told, ix);
    assert(0 <= jpos < told.check_list.len() && told.check_list[jpos].index == ix);
    told.check_list.remove_ensures(jpos);
    let tq = TaskView { check_list: told.check_list.remove(jpos), ..told };
    assert forall|a: int, b: int| 0 <= a < b < q.tasks.len() implies q.tasks[a].id
        != q.tasks[b].id by {
        assert(q.tasks[a].id == p.tasks[a].id);
        assert(q.tasks[b].id == p.tasks[b].id);
    }
    assert(q.tasks[i] == tq);
    lemma_task_index_is(q, i, task_id);
    let r = q.add_checklist_item_m(task_id, name);
    let idx = (tq.last_check_list_index + 1) as u64;
    let tr = TaskView {
        check_list: tq.check_list.push(
            CheckListItemView { index: idx, name, checked: false },
        ),
        last_check_list_index: idx,
        ..tq
    };
    assert forall|a: int, b: int| 0 <= a < b < r.tasks.len() implies r.tasks[a].id
        != r.tasks[b].id by {
        assert(r.tasks[a].id == q.tasks[a].id);
        assert(r.tasks[b].id == q.tasks[b].id);
    }
    assert(r.tasks[i] == tr);
    lemma_task_index_is(r, i, task_id);
    assert(r.task_at(task_id).check_list.last() == tr.check_list[tr.check_list.len() - 1]);
    assert(told.check_list[jpos].index <= told.last_check_list_index);
    assert forall|j: int| 0 <= j < tq.check_list.len() implies idx > (#[trigger] tq.check_list[j]).index by {
        let pj: int = if j < jpos {
            j
        } else {
            j + 1
        };
        assert(tq.check_list[j] == told.check_list[pj]);
        assert(told.check_list[pj].index <= told.last_check_list_index);
    }
}

/// An archived task leaves every unarchived listing but stays retrievable
/// by id, with only its archival timestamp changed.
pub proof fn law_archive_task_hides(p: ProjectView, id: u64, now_utc: i64)
    requires
        p.wf(),
        p.has_task(id),
    ensures
        p.archive_task_m(id, now_utc).has_task(id),
        p.archive_task_m(id, now_utc).task_at(id) == (TaskView {
            archived_at_utc: Some(now_utc),
            ..p.task_at(id)
        }),
        forall|k: int|
            0 <= k < p.archive_task_m(id, now_utc).unarchived_m().len() ==> (
            #[trigger] p.archive_task_m(id, now_utc).unarchived_m()[k]).id != id,
{
    let i = p.task_index(id);
    let told = p.task_at(id);
    assert(0 <= i < p.tasks.len() && p.tasks[i].id == id);
    let q = p.archive_task_m(id, now_utc);
    let tv = TaskView { archived_at_utc: Some(now_utc), ..told };
    assert forall|a: int, b: int| 0 <= a < b < q.tasks.len() implies q.tasks[a].id
        != q.tasks[b].id by {
        assert(q.tasks[a].id == p.tasks[a].id);
        assert(q.tasks[b].id == p.tasks[b].id);
    }
    assert(q.tasks[i] == tv);
    lemma_task_index_is(q, i, id);
    let un = q.unarchived_m();
    lemma_filter_holds(q.tasks, is_unarchived());
    lemma_filter_sub(q.tasks, is_unarchived());
    assert forall|k: int| 0 <= k < un.len() implies (#[trigger] un[k]).id != id by {
        assert(q.tasks.contains(un[k]));
        let w = choose|w: int| 0 <= w < q.tasks.len() && q.tasks[w] == un[k];
        if un[k].id == id {
            assert(q.tasks[w].id == id);
            if w != i {
                assert(q.tasks[w].id != q.tasks[i].id);
            }
            assert(un[k] == tv);
            assert(is_unarchived()(un[k]));
        }
    }
}

} // verus!
