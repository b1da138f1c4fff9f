//! Read-only queries the presentation layer consumes: task listings
//! filtered by archival, category or assignee, and per-category counts.
use vstd::prelude::*;

use crate::ids::contains_id;
use crate::models::Project;
use crate::models::ProjectView;
use crate::models::Task;
use crate::models::TaskView;
use crate::seq_facts::lemma_filter_push;

verus! {

/// Keeps the tasks that are not archived.
pub open spec fn is_unarchived() -> spec_fn(TaskView) -> bool {
    |t: TaskView| t.archived_at_utc is None
}

/// Keeps the tasks of category `category_id`.
pub open spec fn in_category(category_id: u64) -> spec_fn(TaskView) -> bool {
    |t: TaskView| t.category == category_id
}

/// Keeps the tasks assigned to user `user_id`.
pub open spec fn assigned_to_user(user_id: u64) -> spec_fn(TaskView) -> bool {
    |t: TaskView| t.assigned_to.contains(user_id)
}

impl ProjectView {
    /// The tasks that are not archived, in display order.
    pub open spec fn unarchived_m(self) -> Seq<TaskView> {
        self.tasks.filter(is_unarchived())
    }

    /// The tasks of category `category_id`, in display order.
    pub open spec fn tasks_in_category_m(self, category_id: u64) -> Seq<TaskView> {
        self.tasks.filter(in_category(category_id))
    }

    /// The tasks assigned to user `user_id`, in display order.
    pub open spec fn tasks_for_user_m(self, user_id: u64) -> Seq<TaskView> {
        self.tasks.filter(assigned_to_user(user_id))
    }
}

impl Project {
    /// The tasks that are not archived, in display order.
    pub fn get_unarchived_tasks(&self) -> (r: Vec<&Task>)
        ensures
            r@.len() == self@.unarchived_m().len(),
            forall|k: int| 0 <= k < r@.len() ==> (#[trigger] r@[k])@ == self@.unarchived_m()[k],
    {
        let mut r: Vec<&Task> = Vec::new();
        let mut i: usize = 0;
        proof {
            assert(self@.tasks.subrange(0, 0).filter(is_unarchived()) =~= Seq::<
                TaskView,
            >::empty());
        }
        while i < self.tasks.len()
            invariant
                i <= self.tasks.len(),
                self@.tasks.len() == self.tasks.len(),
                r@.len() == self@.tasks.subrange(0, i as int).filter(is_unarchived()).len(),
                forall|k: int|
                    0 <= k < r@.len() ==> (#[trigger] r@[k])@ == self@.tasks.subrange(
                        0,
                        i as int,
                    ).filter(is_unarchived())[k],
            decreases self.tasks.len() - i,
        {
            if self.tasks[i].archived_at_utc.is_none() {
                r.push(&self.tasks[i]);
            }
            proof {
                assert(self@.tasks.subrange(0, i as int + 1) =~= self@.tasks.subrange(
                    0,
                    i as int,
                ).push(self@.tasks[i as int]));
                lemma_filter_push(
                    self@.tasks.subrange(0, i as int),
                    self@.tasks[i as int],
                    is_unarchived(),
                );
            }
            i = i + 1;
        }
        proof {
            assert(self@.tasks.subrange(0, self@.tasks.len() as int) =~= self@.tasks);
        }
        r
    }

    /// The tasks of category `category_id`, in display order.
    pub fn get_tasks_for_category(&self, category_id: u64) -> (r: Vec<&Task>)
        ensures
            r@.len() == self@.tasks_in_category_m(category_id).len(),
            forall|k: int|
                0 <= k < r@.len() ==> (#[trigger] r@[k])@ == self@.tasks_in_category_m(
                    category_id,
                )[k],
    {
        let mut r: Vec<&Task> = Vec::new();
        let mut i: usize = 0;
        proof {
            assert(self@.tasks.subrange(0, 0).filter(in_category(category_id)) =~= Seq::<
                TaskView,
            >::empty());
        }
        while i < self.tasks.len()
            invariant
                i <= self.tasks.len(),
                self@.tasks.len() == self.tasks.len(),
                r@.len() == self@.tasks.subrange(0, i as int).filter(
                    in_category(category_id),
                ).len(),
                forall|k: int|
                    0 <= k < r@.len() ==> (#[trigger] r@[k])@ == self@.tasks.subrange(
                        0,
                        i as int,
                    ).filter(in_category(category_id))[k],
            decreases self.tasks.len() - i,
        {
            if self.tasks[i].category == category_id {
                r.push(&self.tasks[i]);
            }
            proof {
                assert(self@.tasks.subrange(0, i as int + 1) =~= self@.tasks.subrange(
                    0,
                    i as int,
                ).push(self@.tasks[i as int]));
                lemma_filter_push(
                    self@.tasks.subrange(0, i as int),
                    self@.tasks[i as int],
                    in_category(category_id),
                );
            }
            i = i + 1;
        }
        proof {
            assert(self@.tasks.subrange(0, self@.tasks.len() as int) =~= self@.tasks);
        }
        r
    }

    /// The tasks assigned to user `user_id`, in display order.
    pub fn get_tasks_for_user(&self, user_id: u64) -> (r: Vec<&Task>)
        ensures
            r@.len() == self@.tasks_for_user_m(user_id).len(),
            forall|k: int|
                0 <= k < r@.len() ==> (#[trigger] r@[k])@ == self@.tasks_for_user_m(user_id)[k],
    {
        let mut r: Vec<&Task> = Vec::new();
        let mut i: usize = 0;
        proof {
            assert(self@.tasks.subrange(0, 0).filter(assigned_to_user(user_id)) =~= Seq::<
                TaskView,
            >::empty());
        }
        while i < self.tasks.len()
            invariant
                i <= self.tasks.len(),
                self@.tasks.len() == self.tasks.len(),
                r@.len() == self@.tasks.subrange(0, i as int).filter(
                    assigned_to_user(user_id),
                ).len(),
                forall|k: int|
                    0 <= k < r@.len() ==> (#[trigger] r@[k])@ == self@.tasks.subrange(
                        0,
                        i as int,
                    ).filter(assigned_to_user(user_id))[k],
            decreases self.tasks.len() - i,
        {
            if contains_id(&self.tasks[i].assigned_to, user_id) {
                r.push(&self.tasks[i]);
            }
            proof {
                assert(self@.tasks.subrange(0, i as int + 1) =~= self@.tasks.subrange(
                    0,
                    i as int,
                ).push(self@.tasks[i as int]));
                lemma_filter_push(
                    self@.tasks.subrange(0, i as int),
                    self@.tasks[i as int],
                    assigned_to_user(user_id),
                );
            }
            i = i + 1;
        }
        proof {
            assert(self@.tasks.subrange(0, self@.tasks.len() as int) =~= self@.tasks);
        }
        r
    }

    /// How many tasks category `category_id` holds.
    pub fn count_tasks_in_category(&self, category_id: u64) -> (r: usize)
        ensures
            r == self@.tasks_in_category_m(category_id).len(),
    {
        self.get_tasks_for_category(category_id).len()
    }
}

} // verus!
