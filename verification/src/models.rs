//! The entity model: a `Project` aggregate owning categories, tasks and
//! users, together with the abstract (spec-level) view of each entity and
//! the well-formedness predicate that every mutation preserves.
use vstd::prelude::*;

verus! {

/// A sub-item of a task's checklist. Its `index` is unique within the
/// owning task and never reused, even after removal.
pub struct CheckListItem {
    pub index: u64,
    pub name: String,
    pub checked: bool,
}

/// Abstract value of a [`CheckListItem`].
#[verifier::ext_equal]
pub struct CheckListItemView {
    pub index: u64,
    pub name: Seq<char>,
    pub checked: bool,
}

impl View for CheckListItem {
    type V = CheckListItemView;

    open spec fn view(&self) -> CheckListItemView {
        CheckListItemView { index: self.index, name: self.name@, checked: self.checked }
    }
}

/// A named bucket that groups tasks. Its id is unique within the project.
pub struct Category {
    pub id: u64,
    pub name: String,
}

/// Abstract value of a [`Category`].
#[verifier::ext_equal]
pub struct CategoryView {
    pub id: u64,
    pub name: Seq<char>,
}

impl View for Category {
    type V = CategoryView;

    open spec fn view(&self) -> CategoryView {
        CategoryView { id: self.id, name: self.name@ }
    }
}

/// A person who may be assigned to tasks. `git_email` is `None` for users
/// created without an email address.
pub struct User {
    pub id: u64,
    pub git_email: Option<String>,
    pub name: String,
}

/// Abstract value of a [`User`].
#[verifier::ext_equal]
pub struct UserView {
    pub id: u64,
    pub git_email: Option<Seq<char>>,
    pub name: Seq<char>,
}

impl View for User {
    type V = UserView;

    open spec fn view(&self) -> UserView {
        UserView {
            id: self.id,
            git_email: match self.git_email {
                Some(ref e) => Some(e@),
                None => None,
            },
            name: self.name@,
        }
    }
}

/// A unit of work. `category` and the members of `assigned_to` are weak
/// references (by id) into the owning project's collections.
pub struct Task {
    pub id: u64,
    pub name: String,
    pub description: String,
    pub category: u64,
    pub created_at_utc: i64,
    pub updated_at_utc: i64,
    pub archived_at_utc: Option<i64>,
    pub due_date_utc: Option<i64>,
    pub assigned_to: Vec<u64>,
    pub check_list: Vec<CheckListItem>,
    pub last_check_list_index: u64,
}

/// Abstract value of a [`Task`].
#[verifier::ext_equal]
pub struct TaskView {
    pub id: u64,
    pub name: Seq<char>,
    pub description: Seq<char>,
    pub category: u64,
    pub created_at_utc: i64,
    pub updated_at_utc: i64,
    pub archived_at_utc: Option<i64>,
    pub due_date_utc: Option<i64>,
    pub assigned_to: Seq<u64>,
    pub check_list: Seq<CheckListItemView>,
    pub last_check_list_index: u64,
}

impl View for Task {
    type V = TaskView;

    open spec fn view(&self) -> TaskView {
        TaskView {
            id: self.id,
            name: self.name@,
            description: self.description@,
            category: self.category,
            created_at_utc: self.created_at_utc,
            updated_at_utc: self.updated_at_utc,
            archived_at_utc: self.archived_at_utc,
            due_date_utc: self.due_date_utc,
            assigned_to: self.assigned_to@,
            check_list: self.check_list@.map_values(|c: CheckListItem| c@),
            last_check_list_index: self.last_check_list_index,
        }
    }
}

/// The aggregate root: one tracked unit of work with all of its categories,
/// tasks and users. `default_category` is the category new tasks fall into;
/// it is `None` until `add_default_category` first sets it.
pub struct Project {
    pub name: String,
    pub default_category: Option<u64>,
    pub categories: Vec<Category>,
    pub tasks: Vec<Task>,
    pub users: Vec<User>,
}

/// Abstract value of a [`Project`].
#[verifier::ext_equal]
pub struct ProjectView {
    pub name: Seq<char>,
    pub default_category: Option<u64>,
    pub categories: Seq<CategoryView>,
    pub tasks: Seq<TaskView>,
    pub users: Seq<UserView>,
}

impl View for Project {
    type V = ProjectView;

    open spec fn view(&self) -> ProjectView {
        ProjectView {
            name: self.name@,
            default_category: self.default_category,
            categories: self.categories@.map_values(|c: Category| c@),
            tasks: self.tasks@.map_values(|t: Task| t@),
            users: self.users@.map_values(|u: User| u@),
        }
    }
}

impl ProjectView {
    /// The id `id` resolves to a category of this project.
    pub open spec fn has_category(self, id: u64) -> bool {
        exists|i: int| 0 <= i < self.categories.len() && self.categories[i].id == id
    }

    /// The id `id` resolves to a task of this project.
    pub open spec fn has_task(self, id: u64) -> bool {
        exists|i: int| 0 <= i < self.tasks.len() && self.tasks[i].id == id
    }

    /// The id `id` resolves to a user of this project.
    pub open spec fn has_user(self, id: u64) -> bool {
        exists|i: int| 0 <= i < self.users.len() && self.users[i].id == id
    }

    /// Position of the category with id `id`; meaningful only when
    /// `has_category(id)` holds (unique under `wf`).
    pub open spec fn category_index(self, id: u64) -> int {
        choose|i: int| 0 <= i < self.categories.len() && self.categories[i].id == id
    }

    /// Position of the task with id `id`; meaningful only when
    /// `has_task(id)` holds (unique under `wf`).
    pub open spec fn task_index(self, id: u64) -> int {
        choose|i: int| 0 <= i < self.tasks.len() && self.tasks[i].id == id
    }

    /// Position of the user with id `id`; meaningful only when
    /// `has_user(id)` holds (unique under `wf`).
    pub open spec fn user_index(self, id: u64) -> int {
        choose|i: int| 0 <= i < self.users.len() && self.users[i].id == id
    }

    /// The category with id `id` (meaningful only when `has_category(id)`).
    pub open spec fn category_at(self, id: u64) -> CategoryView {
        self.categories[self.category_index(id)]
    }

    /// The task with id `id` (meaningful only when `has_task(id)`).
    pub open spec fn task_at(self, id: u64) -> TaskView {
        self.tasks[self.task_index(id)]
    }

    /// The user with id `id` (meaningful only when `has_user(id)`).
    pub open spec fn user_at(self, id: u64) -> UserView {
        self.users[self.user_index(id)]
    }

    /// Some task of the project references category `id`.
    pub open spec fn category_in_use(self, id: u64) -> bool {
        exists|i: int| 0 <= i < self.tasks.len() && self.tasks[i].category == id
    }

    /// Category ids are pairwise distinct.
    pub open spec fn category_ids_distinct(self) -> bool {
        forall|i: int, j: int|
            0 <= i < j < self.categories.len() ==> self.categories[i].id != self.categories[j].id
    }

    /// Task ids are pairwise distinct.
    pub open spec fn task_ids_distinct(self) -> bool {
        forall|i: int, j: int|
            0 <= i < j < self.tasks.len() ==> self.tasks[i].id != self.tasks[j].id
    }

    /// User ids are pairwise distinct.
    pub open spec fn user_ids_distinct(self) -> bool {
        forall|i: int, j: int|
            0 <= i < j < self.users.len() ==> self.users[i].id != self.users[j].id
    }

    /// A task is internally consistent and references only entities that
    /// exist in this project.
    pub open spec fn task_wf(self, t: TaskView) -> bool {
        &&& self.has_category(t.category)
        &&& forall|i: int| 0 <= i < t.assigned_to.len() ==> self.has_user(#[trigger] t.assigned_to[i])
        &&& forall|i: int, j: int|
            0 <= i < j < t.assigned_to.len() ==> t.assigned_to[i] != t.assigned_to[j]
        &&& forall|i: int, j: int|
            0 <= i < j < t.check_list.len() ==> t.check_list[i].index < t.check_list[j].index
        &&& forall|i: int|
            0 <= i < t.check_list.len() ==> (#[trigger] t.check_list[i]).index
                <= t.last_check_list_index
    }

    /// The aggregate invariant: ids are pairwise distinct within each
    /// collection, the default category (once set) exists, every task's
    /// category and assignees exist, no task is assigned to the same user
    /// twice, and checklist indices strictly increase along each checklist
    /// and never exceed the task's index counter.
    pub open spec fn wf(self) -> bool {
        &&& self.category_ids_distinct()
        &&& self.task_ids_distinct()
        &&& self.user_ids_distinct()
        &&& (self.default_category matches Some(c) ==> self.has_category(c))
        &&& forall|i: int| 0 <= i < self.tasks.len() ==> self.task_wf(#[trigger] self.tasks[i])
    }
}

impl CheckListItem {
    /// A copy of this checklist item, equal in view.
    pub fn duplicate(&self) -> (r: CheckListItem)
        ensures
            r@ == self@,
    {
        CheckListItem { index: self.index, name: self.name.clone(), checked: self.checked }
    }
}

impl User {
    /// A copy of this user record, equal in view.
    pub fn duplicate(&self) -> (r: User)
        ensures
            r@ == self@,
    {
        User {
            id: self.id,
            git_email: match &self.git_email {
                Some(e) => Some(e.clone()),
                None => None,
            },
            name: self.name.clone(),
        }
    }
}

impl ProjectView {
    /// This project with its task sequence replaced.
    pub open spec fn with_tasks(self, tasks: Seq<TaskView>) -> ProjectView {
        ProjectView { tasks, ..self }
    }

    /// This project with the task at position `i` replaced by `t`.
    pub open spec fn with_task_at(self, i: int, t: TaskView) -> ProjectView {
        self.with_tasks(self.tasks.update(i, t))
    }
}

impl Project {
    /// The aggregate invariant, stated of the concrete value.
    pub open spec fn wf(self) -> bool {
        self@.wf()
    }
}

/// A task stays well formed for any project with the same categories and
/// users.
pub proof fn lemma_task_wf_same_refs(p1: ProjectView, p2: ProjectView, t: TaskView)
    requires
        p1.task_wf(t),
        p2.categories == p1.categories,
        p2.users == p1.users,
    ensures
        p2.task_wf(t),
{
    let k = choose|k: int| 0 <= k < p1.categories.len() && p1.categories[k].id == t.category;
    assert(p2.categories[k].id == t.category);
    assert forall|i: int| 0 <= i < t.assigned_to.len() implies p2.has_user(
        #[trigger] t.assigned_to[i],
    ) by {
        assert(p1.has_user(t.assigned_to[i]));
        let m = choose|m: int| 0 <= m < p1.users.len() && p1.users[m].id == t.assigned_to[i];
        assert(p2.users[m].id == t.assigned_to[i]);
    }
}

/// Replacing the task at `i` keeps the project well formed when the
/// replacement keeps the id and is itself well formed for this project.
pub proof fn lemma_update_task_wf(pre: ProjectView, i: int, t: TaskView)
    requires
        pre.wf(),
        0 <= i < pre.tasks.len(),
        t.id == pre.tasks[i].id,
        pre.task_wf(t),
    ensures
        pre.with_task_at(i, t).wf(),
{
    let post = pre.with_task_at(i, t);
    assert forall|j: int| 0 <= j < post.tasks.len() implies post.task_wf(
        #[trigger] post.tasks[j],
    ) by {
        if j == i {
            assert(post.tasks[j] == t);
            lemma_task_wf_same_refs(pre, post, t);
        } else {
            assert(post.tasks[j] == pre.tasks[j]);
            assert(pre.task_wf(pre.tasks[j]));
            lemma_task_wf_same_refs(pre, post, pre.tasks[j]);
        }
    }
    assert forall|j: int, k: int|
        0 <= j < k < post.tasks.len() implies post.tasks[j].id != post.tasks[k].id by {
        assert(pre.tasks[j].id != pre.tasks[k].id);
        assert(post.tasks[j].id == pre.tasks[j].id);
        assert(post.tasks[k].id == pre.tasks[k].id);
    }
    if pre.default_category is Some {
        let c = pre.default_category.unwrap();
        let k = choose|k: int| 0 <= k < pre.categories.len() && pre.categories[k].id == c;
        assert(post.categories[k].id == c);
    }
}

/// Appending a task with a fresh id keeps the project well formed when the
/// new task is itself well formed for this project.
pub proof fn lemma_push_task_wf(pre: ProjectView, t: TaskView)
    requires
        pre.wf(),
        pre.task_wf(t),
        forall|i: int| 0 <= i < pre.tasks.len() ==> (#[trigger] pre.tasks[i]).id != t.id,
    ensures
        pre.with_tasks(pre.tasks.push(t)).wf(),
{
    let post = pre.with_tasks(pre.tasks.push(t));
    assert forall|j: int| 0 <= j < post.tasks.len() implies post.task_wf(
        #[trigger] post.tasks[j],
    ) by {
        if j < pre.tasks.len() {
            assert(post.tasks[j] == pre.tasks[j]);
            assert(pre.task_wf(pre.tasks[j]));
            lemma_task_wf_same_refs(pre, post, pre.tasks[j]);
        } else {
            assert(post.tasks[j] == t);
            lemma_task_wf_same_refs(pre, post, t);
        }
    }
    assert forall|j: int, k: int|
        0 <= j < k < post.tasks.len() implies post.tasks[j].id != post.tasks[k].id by {
        if k < pre.tasks.len() {
            assert(pre.tasks[j].id != pre.tasks[k].id);
        } else {
            assert(post.tasks[k] == t);
            assert(pre.tasks[j].id != t.id);
        }
    }
    if pre.default_category is Some {
        let c = pre.default_category.unwrap();
        let k = choose|k: int| 0 <= k < pre.categories.len() && pre.categories[k].id == c;
        assert(post.categories[k].id == c);
    }
}

/// Removing the task at `i` keeps the project well formed.
pub proof fn lemma_remove_task_wf(pre: ProjectView, i: int)
    requires
        pre.wf(),
        0 <= i < pre.tasks.len(),
    ensures
        pre.with_tasks(pre.tasks.remove(i)).wf(),
{
    let post = pre.with_tasks(pre.tasks.remove(i));
    pre.tasks.remove_ensures(i);
    assert forall|j: int| 0 <= j < post.tasks.len() implies post.task_wf(
        #[trigger] post.tasks[j],
    ) by {
        let pj: int = if j < i {
            j
        } else {
            j + 1
        };
        assert(post.tasks[j] == pre.tasks[pj]);
        assert(pre.task_wf(pre.tasks[pj]));
        lemma_task_wf_same_refs(pre, post, pre.tasks[pj]);
    }
    assert forall|j: int, k: int|
        0 <= j < k < post.tasks.len() implies post.tasks[j].id != post.tasks[k].id by {
        let pj: int = if j < i {
            j
        } else {
            j + 1
        };
        let pk: int = if k < i {
            k
        } else {
            k + 1
        };
        assert(post.tasks[j] == pre.tasks[pj]);
        assert(post.tasks[k] == pre.tasks[pk]);
    }
    if pre.default_category is Some {
        let c = pre.default_category.unwrap();
        let k = choose|k: int| 0 <= k < pre.categories.len() && pre.categories[k].id == c;
        assert(post.categories[k].id == c);
    }
}

/// Under distinct category ids, the position of id `id` is the position of
/// any witness that carries it.
pub proof fn lemma_category_index_is(p: ProjectView, i: int, id: u64)
    requires
        p.category_ids_distinct(),
        0 <= i < p.categories.len(),
        p.categories[i].id == id,
    ensures
        p.has_category(id),
        p.category_index(id) == i,
        p.category_at(id) == p.categories[i],
{
    assert(p.has_category(id));
    let j = p.category_index(id);
    assert(0 <= j < p.categories.len() && p.categories[j].id == id);
    if i < j {
        assert(p.categories[i].id != p.categories[j].id);
    } else if j < i {
        assert(p.categories[j].id != p.categories[i].id);
    }
}

/// Under distinct task ids, the position of id `id` is the position of any
/// witness that carries it.
pub proof fn lemma_task_index_is(p: ProjectView, i: int, id: u64)
    requires
        p.task_ids_distinct(),
        0 <= i < p.tasks.len(),
        p.tasks[i].id == id,
    ensures
        p.has_task(id),
        p.task_index(id) == i,
        p.task_at(id) == p.tasks[i],
{
    assert(p.has_task(id));
    let j = p.task_index(id);
    assert(0 <= j < p.tasks.len() && p.tasks[j].id == id);
    if i < j {
        assert(p.tasks[i].id != p.tasks[j].id);
    } else if j < i {
        assert(p.tasks[j].id != p.tasks[i].id);
    }
}

/// Under distinct user ids, the position of id `id` is the position of any
/// witness that carries it.
pub proof fn lemma_user_index_is(p: ProjectView, i: int, id: u64)
    requires
        p.user_ids_distinct(),
        0 <= i < p.users.len(),
        p.users[i].id == id,
    ensures
        p.has_user(id),
        p.user_index(id) == i,
        p.user_at(id) == p.users[i],
{
    assert(p.has_user(id));
    let j = p.user_index(id);
    assert(0 <= j < p.users.len() && p.users[j].id == id);
    if i < j {
        assert(p.users[i].id != p.users[j].id);
    } else if j < i {
        assert(p.users[j].id != p.users[i].id);
    }
}

} // verus!
