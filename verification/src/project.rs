//! Construction of a project and the shared lookup helpers the mutation
//! and query operations are built from.
use vstd::prelude::*;

use crate::models::Project;
use crate::models::Task;

verus! {

/// Whether the ids are pairwise distinct.
fn ids_pairwise_distinct(ids: &Vec<u64>) -> (r: bool)
    ensures
        r == (forall|a: int, b: int| 0 <= a < b < ids@.len() ==> ids@[a] != ids@[b]),
{
    let mut i: usize = 0;
    while i < ids.len()
        invariant
            i <= ids.len(),
            forall|a: int, b: int| 0 <= a < i && a < b < ids@.len() ==> ids@[a] != ids@[b],
        decreases ids.len() - i,
    {
        let mut j: usize = i + 1;
        while j < ids.len()
            invariant
                i < ids.len(),
                i < j <= ids.len(),
                forall|k: int| i < k < j ==> ids@[i as int] != ids@[k],
            decreases ids.len() - j,
        {
            if ids[i] == ids[j] {
                return false;
            }
            j = j + 1;
        }
        i = i + 1;
    }
    true
}

impl Project {
    /// A fresh project: no categories, tasks or users, and no default
    /// category until `add_default_category` first sets one.
    pub fn new(name: String) -> (p: Project)
        ensures
            p@.name == name@,
            p@.default_category is None,
            p@.categories == Seq::<crate::models::CategoryView>::empty(),
            p@.tasks == Seq::<crate::models::TaskView>::empty(),
            p@.users == Seq::<crate::models::UserView>::empty(),
            p.wf(),
    {
        let p = Project {
            name,
            default_category: None,
            categories: Vec::new(),
            tasks: Vec::new(),
            users: Vec::new(),
        };
        proof {
            assert(p@.categories =~= Seq::<crate::models::CategoryView>::empty());
            assert(p@.tasks =~= Seq::<crate::models::TaskView>::empty());
            assert(p@.users =~= Seq::<crate::models::UserView>::empty());
        }
        p
    }

    /// Position of the category with id `id`, if any.
    pub(crate) fn category_position(&self, id: u64) -> (r: Option<usize>)
        ensures
            match r {
                Some(i) => i < self@.categories.len() && self@.categories[i as int].id == id,
                None => !self@.has_category(id),
            },
    {
        let mut i: usize = 0;
        while i < self.categories.len()
            invariant
                i <= self.categories.len(),
                self@.categories.len() == self.categories.len(),
                forall|j: int| 0 <= j < i ==> self@.categories[j].id != id,
            decreases self.categories.len() - i,
        {
            if self.categories[i].id == id {
                return Some(i);
            }
            i = i + 1;
        }
        None
    }

    /// Position of the task with id `id`, if any.
    pub(crate) fn task_position(&self, id: u64) -> (r: Option<usize>)
        ensures
            match r {
                Some(i) => i < self@.tasks.len() && self@.tasks[i as int].id == id,
                None => !self@.has_task(id),
            },
    {
        let mut i: usize = 0;
        while i < self.tasks.len()
            invariant
                i <= self.tasks.len(),
                self@.tasks.len() == self.tasks.len(),
                forall|j: int| 0 <= j < i ==> self@.tasks[j].id != id,
            decreases self.tasks.len() - i,
        {
            if self.tasks[i].id == id {
                return Some(i);
            }
            i = i + 1;
        }
        None
    }

    /// Position of the user with id `id`, if any.
    pub(crate) fn user_position(&self, id: u64) -> (r: Option<usize>)
        ensures
            match r {
                Some(i) => i < self@.users.len() && self@.users[i as int].id == id,
                None => !self@.has_user(id),
            },
    {
        let mut i: usize = 0;
        while i < self.users.len()
            invariant
                i <= self.users.len(),
                self@.users.len() == self.users.len(),
                forall|j: int| 0 <= j < i ==> self@.users[j].id != id,
            decreases self.users.len() - i,
        {
            if self.users[i].id == id {
                return Some(i);
            }
            i = i + 1;
        }
        None
    }

    /// Whether task `t` is internally consistent and references only
    /// entities this project holds.
    fn task_valid(&self, t: &Task) -> (r: bool)
        ensures
            r == self@.task_wf(t@),
    {
        if self.category_position(t.category).is_none() {
            proof {
                assert(!self@.has_category(t@.category));
                assert(!self@.task_wf(t@));
            }
            return false;
        }
        if !ids_pairwise_distinct(&t.assigned_to) {
            proof {
                let (a, b) = choose|a: int, b: int|
                    0 <= a < b < t@.assigned_to.len() && t@.assigned_to[a] == t@.assigned_to[b];
                assert(!self@.task_wf(t@));
            }
            return false;
        }
        let mut i: usize = 0;
        while i < t.assigned_to.len()
            invariant
                i <= t.assigned_to.len(),
                forall|j: int| 0 <= j < i ==> self@.has_user(#[trigger] t@.assigned_to[j]),
            decreases t.assigned_to.len() - i,
        {
            if self.user_position(t.assigned_to[i]).is_none() {
                proof {
                    assert(!self@.has_user(t@.assigned_to[i as int]));
                    assert(!self@.task_wf(t@));
                }
                return false;
            }
            i = i + 1;
        }
        let mut j: usize = 0;
        while j < t.check_list.len()
            invariant
                j <= t.check_list.len(),
                forall|a: int, b: int|
                    0 <= a < b < j ==> t@.check_list[a].index < t@.check_list[b].index,
                forall|a: int|
                    0 <= a < j ==> (#[trigger] t@.check_list[a]).index <= t@.last_check_list_index,
            decreases t.check_list.len() - j,
        {
            if j > 0 && t.check_list[j - 1].index >= t.check_list[j].index {
                proof {
                    assert(t@.check_list[j - 1].index >= t@.check_list[j as int].index);
                    assert(!self@.task_wf(t@));
                }
                return false;
            }
            if t.check_list[j].index > t.last_check_list_index {
                proof {
                    assert(t@.check_list[j as int].index > t@.last_check_list_index);
                    assert(!self@.task_wf(t@));
                }
                return false;
            }
            proof {
                assert forall|a: int, b: int|
                    0 <= a < b < j + 1 implies t@.check_list[a].index < t@.check_list[b].index by {
                    if b == j && a < j - 1 {
                        assert(t@.check_list[a].index < t@.check_list[j - 1].index);
                    }
                }
            }
            j = j + 1;
        }
        true
    }

    /// Whether this project is well formed: ids pairwise distinct within
    /// each collection, the default category (once set) existing, and every
    /// task consistent. A project loaded from outside the mutation API
    /// should be validated before it is worked on.
    pub fn validate(&self) -> (r: bool)
        ensures
            r == self.wf(),
    {
        let cat_ids = self.category_ids_vec();
        if !ids_pairwise_distinct(&cat_ids) {
            proof {
                let (a, b) = choose|a: int, b: int|
                    0 <= a < b < cat_ids@.len() && cat_ids@[a] == cat_ids@[b];
                assert(self@.categories[a].id == self@.categories[b].id);
            }
            return false;
        }
        proof {
            assert forall|a: int, b: int|
                0 <= a < b < self@.categories.len() implies self@.categories[a].id
                != self@.categories[b].id by {
                assert(cat_ids@[a] == self@.categories[a].id);
                assert(cat_ids@[b] == self@.categories[b].id);
            }
        }
        let task_ids = self.task_ids_vec();
        if !ids_pairwise_distinct(&task_ids) {
            proof {
                let (a, b) = choose|a: int, b: int|
                    0 <= a < b < task_ids@.len() && task_ids@[a] == task_ids@[b];
                assert(self@.tasks[a].id == self@.tasks[b].id);
            }
            return false;
        }
        proof {
            assert forall|a: int, b: int|
                0 <= a < b < self@.tasks.len() implies self@.tasks[a].id != self@.tasks[b].id by {
                assert(task_ids@[a] == self@.tasks[a].id);
                assert(task_ids@[b] == self@.tasks[b].id);
            }
        }
        let user_ids = self.user_ids_vec();
        if !ids_pairwise_distinct(&user_ids) {
            proof {
                let (a, b) = choose|a: int, b: int|
                    0 <= a < b < user_ids@.len() && user_ids@[a] == user_ids@[b];
                assert(self@.users[a].id == self@.users[b].id);
            }
            return false;
        }
        proof {
            assert forall|a: int, b: int|
                0 <= a < b < self@.users.len() implies self@.users[a].id != self@.users[b].id by {
                assert(user_ids@[a] == self@.users[a].id);
                assert(user_ids@[b] == self@.users[b].id);
            }
        }
        let default_ok = match self.default_category {
            Some(c) => self.category_position(c).is_some(),
            None => true,
        };
        if !default_ok {
            return false;
        }
        let mut i: usize = 0;
        while i < self.tasks.len()
            invariant
                i <= self.tasks.len(),
                self@.tasks.len() == self.tasks.len(),
                forall|j: int| 0 <= j < i ==> self@.task_wf(#[trigger] self@.tasks[j]),
            decreases self.tasks.len() - i,
        {
            if !self.task_valid(&self.tasks[i]) {
                proof {
                    assert(!self@.task_wf(self@.tasks[i as int]));
                    assert(!self@.wf());
                }
                return false;
            }
            i = i + 1;
        }
        true
    }

    /// The ids of all categories, in display order.
    pub(crate) fn category_ids_vec(&self) -> (r: Vec<u64>)
        ensures
            r@.len() == self@.categories.len(),
            forall|i: int| 0 <= i < r@.len() ==> r@[i] == self@.categories[i].id,
    {
        let mut r: Vec<u64> = Vec::new();
        let mut i: usize = 0;
        while i < self.categories.len()
            invariant
                i <= self.categories.len(),
                self@.categories.len() == self.categories.len(),
                r@.len() == i,
                forall|j: int| 0 <= j < i ==> r@[j] == self@.categories[j].id,
            decreases self.categories.len() - i,
        {
            r.push(self.categories[i].id);
            i = i + 1;
        }
        r
    }

    /// The ids of all tasks, in display order.
    pub(crate) fn task_ids_vec(&self) -> (r: Vec<u64>)
        ensures
            r@.len() == self@.tasks.len(),
            forall|i: int| 0 <= i < r@.len() ==> r@[i] == self@.tasks[i].id,
    {
        let mut r: Vec<u64> = Vec::new();
        let mut i: usize = 0;
        while i < self.tasks.len()
            invariant
                i <= self.tasks.len(),
                self@.tasks.len() == self.tasks.len(),
                r@.len() == i,
                forall|j: int| 0 <= j < i ==> r@[j] == self@.tasks[j].id,
            decreases self.tasks.len() - i,
        {
            r.push(self.tasks[i].id);
            i = i + 1;
        }
        r
    }

    /// The ids of all users, in display order.
    pub(crate) fn user_ids_vec(&self) -> (r: Vec<u64>)
        ensures
            r@.len() == self@.users.len(),
            forall|i: int| 0 <= i < r@.len() ==> r@[i] == self@.users[i].id,
    {
        let mut r: Vec<u64> = Vec::new();
        let mut i: usize = 0;
        while i < self.users.len()
            invariant
                i <= self.users.len(),
                self@.users.len() == self.users.len(),
                r@.len() == i,
                forall|j: int| 0 <= j < i ==> r@[j] == self@.users[j].id,
            decreases self.users.len() - i,
        {
            r.push(self.users[i].id);
            i = i + 1;
        }
        r
    }
}

} // verus!
