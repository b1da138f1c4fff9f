//! Plain listing rows handed to the interactive shell: one row per task,
//! category or user, with the text a selection menu shows for it.
use vstd::prelude::*;

use vstd::string::StringExecFns;

use crate::models::Project;
use crate::models::User;

verus! {

/// A task row: its id, name, and (when requested) the resolved name of its
/// category.
pub struct TaskItem {
    pub id: u64,
    pub name: String,
    pub category: Option<String>,
}

impl TaskItem {
    /// The text a menu shows for this row: the task name, with the
    /// category name in parentheses when it is present.
    pub fn display_string(&self) -> (r: String)
        ensures
            self.category is None ==> r@ == self.name@,
            self.category matches Some(c) ==> r@ == self.name@ + " ("@ + c@ + ")"@,
    {
        match &self.category {
            None => self.name.clone(),
            Some(c) => {
                let s = self.name.clone().concat(" (");
                let s = s.concat(c.as_str());
                s.concat(")")
            },
        }
    }
}

/// A category row: its id, name, and whether removal is blocked because
/// tasks still reference it.
pub struct CategoryItem {
    pub id: u64,
    pub name: String,
    pub not_deletable: bool,
}

impl CategoryItem {
    /// The text a menu shows for this row: the category name, marked when
    /// it cannot be removed.
    pub fn display_string(&self) -> (r: String)
        ensures
            !self.not_deletable ==> r@ == self.name@,
            self.not_deletable ==> r@ == self.name@ + " (not deletable - has tasks)"@,
    {
        if self.not_deletable {
            self.name.clone().concat(" (not deletable - has tasks)")
        } else {
            self.name.clone()
        }
    }
}

/// A user row scraped or entered for selection: name and email.
pub struct UserItem {
    pub name: String,
    pub git_email: String,
}

impl UserItem {
    /// The text a menu shows for this row: `name <email>`.
    pub fn display_string(&self) -> (r: String)
        ensures
            r@ == self.name@ + " <"@ + self.git_email@ + ">"@,
    {
        let s = self.name.clone().concat(" <");
        let s = s.concat(self.git_email.as_str());
        s.concat(">")
    }
}

/// One row per task, in display order, without category names.
pub fn get_tasks_list(p: &Project) -> (r: Vec<TaskItem>)
    ensures
        r@.len() == p@.tasks.len(),
        forall|i: int|
            0 <= i < r@.len() ==> (#[trigger] r@[i]).id == p@.tasks[i].id && r@[i].name@
                == p@.tasks[i].name && r@[i].category is None,
{
    let mut r: Vec<TaskItem> = Vec::new();
    let mut i: usize = 0;
    while i < p.tasks.len()
        invariant
            i <= p.tasks.len(),
            p@.tasks.len() == p.tasks.len(),
            r@.len() == i,
            forall|j: int|
                0 <= j < i ==> (#[trigger] r@[j]).id == p@.tasks[j].id && r@[j].name@
                    == p@.tasks[j].name && r@[j].category is None,
        decreases p.tasks.len() - i,
    {
        let t = &p.tasks[i];
        r.push(TaskItem { id: t.id, name: t.name.clone(), category: None });
        i = i + 1;
    }
    r
}

/// One row per task, in display order, each with the name of its category
/// resolved.
pub fn get_tasks_list_with_categories(p: &Project) -> (r: Vec<TaskItem>)
    requires
        p.wf(),
    ensures
        r@.len() == p@.tasks.len(),
        forall|i: int|
            0 <= i < r@.len() ==> (#[trigger] r@[i]).id == p@.tasks[i].id && r@[i].name@
                == p@.tasks[i].name && (r@[i].category matches Some(c) && c@ == p@.category_at(
                p@.tasks[i].category,
            ).name),
{
    let mut r: Vec<TaskItem> = Vec::new();
    let mut i: usize = 0;
    while i < p.tasks.len()
        invariant
            p.wf(),
            i <= p.tasks.len(),
            p@.tasks.len() == p.tasks.len(),
            r@.len() == i,
            forall|j: int|
                0 <= j < i ==> (#[trigger] r@[j]).id == p@.tasks[j].id && r@[j].name@
                    == p@.tasks[j].name && (r@[j].category matches Some(c) && c@ == p@.category_at(
                    p@.tasks[j].category,
                ).name),
        decreases p.tasks.len() - i,
    {
        let t = &p.tasks[i];
        proof {
            assert(p@.task_wf(p@.tasks[i as int]));
            assert(p@.has_category(t.category));
        }
        let name = match p.get_category_name(t.category) {
            Some(n) => n,
            None => {
                proof {
                    assert(false);
                }
                String::new()
            },
        };
        r.push(TaskItem { id: t.id, name: t.name.clone(), category: Some(name) });
        i = i + 1;
    }
    r
}

/// One row per category, in display order; with `check_deletable` set,
/// categories that still hold tasks are marked not deletable.
pub fn get_categories_list(p: &Project, check_deletable: bool) -> (r: Vec<CategoryItem>)
    ensures
        r@.len() == p@.categories.len(),
        forall|i: int|
            0 <= i < r@.len() ==> (#[trigger] r@[i]).id == p@.categories[i].id && r@[i].name@
                == p@.categories[i].name && r@[i].not_deletable == (check_deletable
                && p@.category_in_use(p@.categories[i].id)),
{
    let mut r: Vec<CategoryItem> = Vec::new();
    let mut i: usize = 0;
    while i < p.categories.len()
        invariant
            i <= p.categories.len(),
            p@.categories.len() == p.categories.len(),
            r@.len() == i,
            forall|j: int|
                0 <= j < i ==> (#[trigger] r@[j]).id == p@.categories[j].id && r@[j].name@
                    == p@.categories[j].name && r@[j].not_deletable == (check_deletable
                    && p@.category_in_use(p@.categories[j].id)),
        decreases p.categories.len() - i,
    {
        let c = &p.categories[i];
        let not_deletable = check_deletable && p.category_has_tasks(c.id);
        r.push(CategoryItem { id: c.id, name: c.name.clone(), not_deletable });
        i = i + 1;
    }
    r
}

/// A copy of every user record, in display order.
pub fn get_users_mod_list(p: &Project) -> (r: Vec<User>)
    ensures
        r@.len() == p@.users.len(),
        forall|i: int| 0 <= i < r@.len() ==> (#[trigger] r@[i])@ == p@.users[i],
{
    let mut r: Vec<User> = Vec::new();
    let mut i: usize = 0;
    while i < p.users.len()
        invariant
            i <= p.users.len(),
            p@.users.len() == p.users.len(),
            r@.len() == i,
            forall|j: int| 0 <= j < i ==> (#[trigger] r@[j])@ == p@.users[j],
        decreases p.users.len() - i,
    {
        r.push(p.users[i].duplicate());
        i = i + 1;
    }
    r
}

/// A copy of every user assigned to task `task_id`, in assignment order.
pub fn get_users_assigned_mod_list(p: &Project, task_id: u64) -> (r: Vec<User>)
    requires
        p.wf(),
    ensures
        p@.has_task(task_id) ==> r@.len() == p@.task_at(task_id).assigned_to.len() && (forall|
            i: int,
        |
            0 <= i < r@.len() ==> (#[trigger] r@[i])@ == p@.user_at(
                p@.task_at(task_id).assigned_to[i],
            )),
        !p@.has_task(task_id) ==> r@.len() == 0,
{
    p.get_assigned_users(task_id)
}

} // verus!
