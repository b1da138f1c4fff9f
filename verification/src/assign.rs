//! The assignment relation between tasks and users: membership lives on
//! the task, as a duplicate-free sequence of user ids in assignment order.
use vstd::prelude::*;

use crate::errors::EntityKind;
use crate::errors::ProjectError;
use crate::ids::contains_id;
use crate::models::lemma_task_index_is;
use crate::models::lemma_update_task_wf;
use crate::models::lemma_user_index_is;
use crate::models::Project;
use crate::models::ProjectView;
use crate::models::TaskView;
use crate::models::User;
use crate::models::UserView;
use crate::seq_facts::lemma_filter_distinct;
use crate::seq_facts::lemma_filter_push;
use crate::seq_facts::lemma_filter_sub;
use crate::seq_facts::without_id;

verus! {

impl ProjectView {
    /// State after `assign_task(user_id, task_id)`: `user_id` is appended
    /// to the task's memberships only when not yet present, so assigning
    /// twice leaves exactly one membership.
    pub open spec fn assign_task_m(self, user_id: u64, task_id: u64) -> ProjectView {
        if self.task_at(task_id).assigned_to.contains(user_id) {
            self
        } else {
            self.with_task_at(
                self.task_index(task_id),
                TaskView {
                    assigned_to: self.task_at(task_id).assigned_to.push(user_id),
                    ..self.task_at(task_id)
                },
            )
        }
    }

    /// State after `unassign_task(user_id, task_id)`: exactly the
    /// memberships of `user_id` leave the task's list; when none is
    /// present the task is unchanged.
    pub open spec fn unassign_task_m(self, user_id: u64, task_id: u64) -> ProjectView {
        self.with_task_at(
            self.task_index(task_id),
            TaskView {
                assigned_to: self.task_at(task_id).assigned_to.filter(without_id(user_id)),
                ..self.task_at(task_id)
            },
        )
    }

    /// The users assigned to task `task_id`, resolved in assignment order.
    pub open spec fn assigned_users_m(self, task_id: u64) -> Seq<UserView> {
        self.task_at(task_id).assigned_to.map_values(|u: u64| self.user_at(u))
    }
}

/// Removes every occurrence of `x` from `ids`, keeping the order.
pub(crate) fn filter_out_id(ids: &Vec<u64>, x: u64) -> (r: Vec<u64>)
    ensures
        r@ == ids@.filter(without_id(x)),
{
    let mut r: Vec<u64> = Vec::new();
    let mut i: usize = 0;
    while i < ids.len()
        invariant
            i <= ids.len(),
            r@ == ids@.subrange(0, i as int).filter(without_id(x)),
        decreases ids.len() - i,
    {
        if ids[i] != x {
            r.push(ids[i]);
        }
        proof {
            assert(ids@.subrange(0, i as int + 1) =~= ids@.subrange(0, i as int).push(
                ids@[i as int],
            ));
            lemma_filter_push(ids@.subrange(0, i as int), ids@[i as int], without_id(x));
        }
        i = i + 1;
    }
    proof {
        assert(ids@.subrange(0, ids@.len() as int) =~= ids@);
    }
    r
}

impl Project {
    /// Adds `user_id` to the memberships of task `task_id` unless already
    /// present (re-assignment is not an error and changes nothing). A
    /// missing task fails with `NotFound`; a missing user is refused with
    /// `InvalidReference`, so no membership ever dangles.
    pub fn assign_task(&mut self, user_id: u64, task_id: u64) -> (r: Result<(), ProjectError>)
        requires
            old(self).wf(),
        ensures
            final(self).wf(),
            old(self)@.has_task(task_id) && old(self)@.has_user(user_id) ==> r == Ok::<
                (),
                ProjectError,
            >(()) && final(self)@ == old(self)@.assign_task_m(user_id, task_id),
            !old(self)@.has_task(task_id) ==> r == Err::<(), ProjectError>(
                ProjectError::NotFound(EntityKind::Task, task_id),
            ) && final(self)@ == old(self)@,
            old(self)@.has_task(task_id) && !old(self)@.has_user(user_id) ==> r == Err::<
                (),
                ProjectError,
            >(ProjectError::InvalidReference) && final(self)@ == old(self)@,
    {
        let pos = match self.task_position(task_id) {
            Some(pos) => pos,
            None => {
                return Err(ProjectError::NotFound(EntityKind::Task, task_id));
            },
        };
        if self.user_position(user_id).is_none() {
            return Err(ProjectError::InvalidReference);
        }
        let ghost pre = self@;
        proof {
            lemma_task_index_is(pre, pos as int, task_id);
        }
        if contains_id(&self.tasks[pos].assigned_to, user_id) {
            return Ok(());
        }
        let t = &mut self.tasks[pos];
        t.assigned_to.push(user_id);
        proof {
            let told = pre.task_at(task_id);
            let tv = TaskView { assigned_to: told.assigned_to.push(user_id), ..told };
            assert(self@.tasks =~= pre.tasks.update(pos as int, tv));
            assert(self@ =~= pre.assign_task_m(user_id, task_id));
            assert forall|i: int| 0 <= i < tv.assigned_to.len() implies pre.has_user(
                #[trigger] tv.assigned_to[i],
            ) by {
                if i < told.assigned_to.len() {
                    assert(tv.assigned_to[i] == told.assigned_to[i]);
                    assert(pre.has_user(told.assigned_to[i]));
                }
            }
            assert forall|i: int, j: int|
                0 <= i < j < tv.assigned_to.len() implies tv.assigned_to[i]
                != tv.assigned_to[j] by {
                if j < told.assigned_to.len() {
                    assert(told.assigned_to[i] != told.assigned_to[j]);
                } else {
                    assert(tv.assigned_to[j] == user_id);
                    assert(!told.assigned_to.contains(user_id));
                    assert(tv.assigned_to[i] == told.assigned_to[i]);
                }
            }
            lemma_update_task_wf(pre, pos as int, tv);
        }
        Ok(())
    }

    /// Removes `user_id` from the memberships of task `task_id`; a missing
    /// membership is a no-op, not an error. Fails with `NotFound` only when
    /// the task id does not resolve.
    pub fn unassign_task(&mut self, user_id: u64, task_id: u64) -> (r: Result<(), ProjectError>)
        requires
            old(self).wf(),
        ensures
            final(self).wf(),
            old(self)@.has_task(task_id) ==> r == Ok::<(), ProjectError>(()) && final(self)@ == old(
                self,
            )@.unassign_task_m(user_id, task_id),
            !old(self)@.has_task(task_id) ==> r == Err::<(), ProjectError>(
                ProjectError::NotFound(EntityKind::Task, task_id),
            ) && final(self)@ == old(self)@,
    {
        let pos = match self.task_position(task_id) {
            Some(pos) => pos,
            None => {
                return Err(ProjectError::NotFound(EntityKind::Task, task_id));
            },
        };
        let ghost pre = self@;
        proof {
            lemma_task_index_is(pre, pos as int, task_id);
        }
        let filtered = filter_out_id(&self.tasks[pos].assigned_to, user_id);
        let t = &mut self.tasks[pos];
        t.assigned_to = filtered;
        proof {
            let told = pre.task_at(task_id);
            let tv = TaskView {
                assigned_to: told.assigned_to.filter(without_id(user_id)),
                ..told
            };
            assert(self@.tasks =~= pre.tasks.update(pos as int, tv));
            assert(self@ =~= pre.unassign_task_m(user_id, task_id));
            lemma_filter_distinct(told.assigned_to, without_id(user_id));
            lemma_filter_sub(told.assigned_to, without_id(user_id));
            assert forall|i: int| 0 <= i < tv.assigned_to.len() implies pre.has_user(
                #[trigger] tv.assigned_to[i],
            ) by {
                assert(told.assigned_to.contains(tv.assigned_to[i]));
                let k = choose|k: int|
                    0 <= k < told.assigned_to.len() && told.assigned_to[k] == tv.assigned_to[i];
                assert(pre.has_user(told.assigned_to[k]));
            }
            lemma_update_task_wf(pre, pos as int, tv);
        }
        Ok(())
    }

    /// The full user records assigned to task `task_id`, in assignment
    /// order; empty when the task id does not resolve.
    pub fn get_assigned_users(&self, task_id: u64) -> (r: Vec<User>)
        requires
            self.wf(),
        ensures
            self@.has_task(task_id) ==> r@.len() == self@.task_at(task_id).assigned_to.len()
                && (forall|i: int|
                0 <= i < r@.len() ==> (#[trigger] r@[i])@ == self@.user_at(
                    self@.task_at(task_id).assigned_to[i],
                )),
            !self@.has_task(task_id) ==> r@.len() == 0,
    {
        let pos = match self.task_position(task_id) {
            Some(pos) => pos,
            None => {
                return Vec::new();
            },
        };
        proof {
            lemma_task_index_is(self@, pos as int, task_id);
        }
        let t = &self.tasks[pos];
        let mut r: Vec<User> = Vec::new();
        let mut i: usize = 0;
        while i < t.assigned_to.len()
            invariant
                self.wf(),
                self@.has_task(task_id),
                pos < self.tasks.len(),
                self@.tasks.len() == self.tasks.len(),
                t == self.tasks[pos as int],
                self@.task_at(task_id) == self.tasks[pos as int]@,
                i <= t.assigned_to.len(),
                r@.len() == i,
                forall|j: int|
                    0 <= j < i ==> (#[trigger] r@[j])@ == self@.user_at(
                        self@.task_at(task_id).assigned_to[j],
                    ),
            decreases t.assigned_to.len() - i,
        {
            let uid = t.assigned_to[i];
            proof {
                assert(self@.task_at(task_id).assigned_to[i as int] == uid);
                assert(self@.task_wf(self@.task_at(task_id)));
            }
            match self.user_position(uid) {
                Some(j) => {
                    proof {
                        lemma_user_index_is(self@, j as int, uid);
                    }
                    r.push(self.users[j].duplicate());
                },
                None => {
                    proof {
                        assert(self@.has_user(uid));
                        assert(false);
                    }
                },
            }
            i = i + 1;
        }
        r
    }
}

} // verus!
