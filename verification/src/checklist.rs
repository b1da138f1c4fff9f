//! Checklist operations: items carry a per-task index that grows strictly
//! and is never reused, so removals leave gaps rather than renumbering.
use vstd::prelude::*;

use crate::errors::EntityKind;
use crate::errors::ProjectError;
use crate::models::lemma_task_index_is;
use crate::models::lemma_update_task_wf;
use crate::models::CheckListItem;
use crate::models::CheckListItemView;
use crate::models::Project;
use crate::models::ProjectView;
use crate::models::TaskView;

verus! {

/// The checklist of `t` holds an item with index `index`.
pub open spec fn has_checklist_item(t: TaskView, index: u64) -> bool {
    exists|j: int| 0 <= j < t.check_list.len() && t.check_list[j].index == index
}

/// Position of the checklist item with index `index` in `t`; meaningful
/// only when `has_checklist_item(t, index)` holds (unique while indices
/// strictly increase).
pub open spec fn checklist_pos(t: TaskView, index: u64) -> int {
    choose|j: int| 0 <= j < t.check_list.len() && t.check_list[j].index == index
}

/// Under strictly increasing checklist indices, the position of `index` is
/// the position of any witness that carries it.
proof fn lemma_checklist_pos_is(t: TaskView, j: int, index: u64)
    requires
        forall|a: int, b: int|
            0 <= a < b < t.check_list.len() ==> t.check_list[a].index < t.check_list[b].index,
        0 <= j < t.check_list.len(),
        t.check_list[j].index == index,
    ensures
        has_checklist_item(t, index),
        checklist_pos(t, index) == j,
{
    assert(has_checklist_item(t, index));
    let k = checklist_pos(t, index);
    assert(0 <= k < t.check_list.len() && t.check_list[k].index == index);
    if j < k {
        assert(t.check_list[j].index < t.check_list[k].index);
    } else if k < j {
        assert(t.check_list[k].index < t.check_list[j].index);
    }
}

impl ProjectView {
    /// Adding a checklist item never overflows the index counter of the
    /// addressed task.
    pub open spec fn checklist_headroom(self, task_id: u64) -> bool {
        self.has_task(task_id) ==> self.task_at(task_id).last_check_list_index < u64::MAX
    }

    /// State after appending a checklist item to task `task_id`: its index
    /// is one past the task's counter, which moves up with it, so indices
    /// grow strictly and are never reused.
    pub open spec fn add_checklist_item_m(self, task_id: u64, name: Seq<char>) -> ProjectView {
        let t = self.task_at(task_id);
        let idx = (t.last_check_list_index + 1) as u64;
        self.with_task_at(
            self.task_index(task_id),
            TaskView {
                check_list: t.check_list.push(
                    CheckListItemView { index: idx, name, checked: false },
                ),
                last_check_list_index: idx,
                ..t
            },
        )
    }

    /// State after removing the checklist item with index `index` from
    /// task `task_id`: remaining items keep their indices and the counter
    /// stays, so the index is never reused.
    pub open spec fn remove_checklist_item_m(self, task_id: u64, index: u64) -> ProjectView {
        let t = self.task_at(task_id);
        self.with_task_at(
            self.task_index(task_id),
            TaskView { check_list: t.check_list.remove(checklist_pos(t, index)), ..t },
        )
    }
}

impl Project {
    /// Whether a checklist item can still be added to task `task_id`
    /// without exhausting the index counter.
    pub fn checklist_has_headroom(&self, task_id: u64) -> (r: bool)
        requires
            self.wf(),
        ensures
            r == self@.checklist_headroom(task_id),
    {
        match self.task_position(task_id) {
            Some(pos) => {
                proof {
                    lemma_task_index_is(self@, pos as int, task_id);
                }
                self.tasks[pos].last_check_list_index < u64::MAX
            },
            None => true,
        }
    }

    /// Appends an unchecked checklist item named `name` to task `task_id`
    /// and returns its index: one past the task's counter, strictly above
    /// every index the checklist ever held. Fails with `NotFound` when the
    /// task id does not resolve.
    pub fn add_checklist_item(&mut self, task_id: u64, name: &str) -> (r: Result<
        u64,
        ProjectError,
    >)
        requires
            old(self).wf(),
            old(self)@.checklist_headroom(task_id),
        ensures
            final(self).wf(),
            old(self)@.has_task(task_id) ==> (r matches Ok(idx) && idx == (old(self)@.task_at(
                task_id,
            ).last_check_list_index + 1) as u64 && final(self)@ == old(self)@.add_checklist_item_m(
                task_id,
                name@,
            ) && (forall|j: int|
                0 <= j < old(self)@.task_at(task_id).check_list.len() ==> (#[trigger] old(
                    self,
                )@.task_at(task_id).check_list[j]).index < idx)),
            !old(self)@.has_task(task_id) ==> r == Err::<u64, ProjectError>(
                ProjectError::NotFound(EntityKind::Task, task_id),
            ) && final(self)@ == old(self)@,
    {
        let pos = match self.task_position(task_id) {
            Some(pos) => pos,
            None => {
                return Err(ProjectError::NotFound(EntityKind::Task, task_id));
            },
        };
        let ghost pre = self@;
        proof {
            lemma_task_index_is(pre, pos as int, task_id);
        }
        let t = &mut self.tasks[pos];
        let idx = t.last_check_list_index + 1;
        t.check_list.push(CheckListItem { index: idx, name: name.to_owned(), checked: false });
        t.last_check_list_index = idx;
        proof {
            let told = pre.task_at(task_id);
            let tv = TaskView {
                check_list: told.check_list.push(
                    CheckListItemView { index: idx, name: name@, checked: false },
                ),
                last_check_list_index: idx,
                ..told
            };
            assert(self@.tasks[pos as int] =~= tv);
            assert(self@.tasks =~= pre.tasks.update(pos as int, tv));
            assert(self@ =~= pre.add_checklist_item_m(task_id, name@));
            assert forall|a: int, b: int|
                0 <= a < b < tv.check_list.len() implies tv.check_list[a].index
                < tv.check_list[b].index by {
                if b < told.check_list.len() {
                    assert(told.check_list[a].index < told.check_list[b].index);
                } else {
                    assert(tv.check_list[b].index == idx);
                    assert(told.check_list[a].index <= told.last_check_list_index);
                }
            }
            assert forall|a: int| 0 <= a < tv.check_list.len() implies (#[trigger] tv.check_list[a]).index
                <= tv.last_check_list_index by {
                if a < told.check_list.len() {
                    assert(told.check_list[a].index <= told.last_check_list_index);
                }
            }
            lemma_update_task_wf(pre, pos as int, tv);
        }
        Ok(idx)
    }

    /// Removes the checklist item with index `index` from task `task_id`;
    /// the remaining items keep their indices and the counter stays, so
    /// the removed index is never reused. Fails with `NotFound` for a
    /// missing task or a missing item.
    pub fn remove_checklist_item(&mut self, task_id: u64, index: u64) -> (r: Result<
        (),
        ProjectError,
    >)
        requires
            old(self).wf(),
        ensures
            final(self).wf(),
            old(self)@.has_task(task_id) && has_checklist_item(old(self)@.task_at(task_id), index)
                ==> r == Ok::<(), ProjectError>(()) && final(self)@ == old(
                self,
            )@.remove_checklist_item_m(task_id, index),
            !old(self)@.has_task(task_id) ==> r == Err::<(), ProjectError>(
                ProjectError::NotFound(EntityKind::Task, task_id),
            ) && final(self)@ == old(self)@,
            old(self)@.has_task(task_id) && !has_checklist_item(old(self)@.task_at(task_id), index)
                ==> r == Err::<(), ProjectError>(
                ProjectError::NotFound(EntityKind::ChecklistItem, index),
            ) && final(self)@ == old(self)@,
    {
        let pos = match self.task_position(task_id) {
            Some(pos) => pos,
            None => {
                return Err(ProjectError::NotFound(EntityKind::Task, task_id));
            },
        };
        let ghost pre = self@;
        proof {
            lemma_task_index_is(pre, pos as int, task_id);
        }
        let t = &self.tasks[pos];
        let mut j: usize = 0;
        let mut found: Option<usize> = None;
        while j < t.check_list.len()
            invariant
                j <= t.check_list.len(),
                t@ == pre.task_at(task_id),
                match found {
                    Some(f) => f < t.check_list.len() && t@.check_list[f as int].index == index,
                    None => forall|a: int| 0 <= a < j ==> t@.check_list[a].index != index,
                },
            decreases t.check_list.len() - j,
        {
            if found.is_none() && t.check_list[j].index == index {
                found = Some(j);
            }
            j = j + 1;
        }
        let jpos = match found {
            Some(f) => f,
            None => {
                return Err(ProjectError::NotFound(EntityKind::ChecklistItem, index));
            },
        };
        proof {
            lemma_checklist_pos_is(pre.task_at(task_id), jpos as int, index);
        }
        let t = &mut self.tasks[pos];
        t.check_list.remove(jpos);
        proof {
            let told = pre.task_at(task_id);
            told.check_list.remove_ensures(jpos as int);
            let tv = TaskView { check_list: told.check_list.remove(jpos as int), ..told };
            assert(self@.tasks[pos as int] =~= tv);
            assert(self@.tasks =~= pre.tasks.update(pos as int, tv));
            assert(self@ =~= pre.remove_checklist_item_m(task_id, index));
            assert forall|a: int, b: int|
                0 <= a < b < tv.check_list.len() implies tv.check_list[a].index
                < tv.check_list[b].index by {
                let pa: int = if a < jpos {
                    a
                } else {
                    a + 1
                };
                let pb: int = if b < jpos {
                    b
                } else {
                    b + 1
                };
                assert(tv.check_list[a] == told.check_list[pa]);
                assert(tv.check_list[b] == told.check_list[pb]);
                assert(told.check_list[pa].index < told.check_list[pb].index);
            }
            assert forall|a: int| 0 <= a < tv.check_list.len() implies (#[trigger] tv.check_list[a]).index
                <= tv.last_check_list_index by {
                let pa: int = if a < jpos {
                    a
                } else {
                    a + 1
                };
                assert(tv.check_list[a] == told.check_list[pa]);
            }
            lemma_update_task_wf(pre, pos as int, tv);
        }
        Ok(())
    }

    /// The checklist of task `task_id`, in insertion order; empty when the
    /// task id does not resolve.
    pub fn get_task_checklist(&self, task_id: u64) -> (r: Vec<CheckListItem>)
        requires
            self.wf(),
        ensures
            self@.has_task(task_id) ==> r@.len() == self@.task_at(task_id).check_list.len() && (
            forall|j: int|
                0 <= j < r@.len() ==> (#[trigger] r@[j])@ == self@.task_at(task_id).check_list[j]),
            !self@.has_task(task_id) ==> r@.len() == 0,
    {
        let pos = match self.task_position(task_id) {
            Some(pos) => pos,
            None => {
                return Vec::new();
            },
        };
        proof {
            lemma_task_index_is(self@, pos as int, task_id);
        }
        let t = &self.tasks[pos];
        let mut r: Vec<CheckListItem> = Vec::new();
        let mut j: usize = 0;
        while j < t.check_list.len()
            invariant
                j <= t.check_list.len(),
                t@ == self@.task_at(task_id),
                r@.len() == j,
                forall|a: int|
                    0 <= a < j ==> (#[trigger] r@[a])@ == self@.task_at(task_id).check_list[a],
            decreases t.check_list.len() - j,
        {
            r.push(t.check_list[j].duplicate());
            j = j + 1;
        }
        r
    }
}

} // verus!
