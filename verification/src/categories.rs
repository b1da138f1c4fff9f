//! Category operations: creation (optionally as the project's default),
//! rename, removal, and lookup.
use vstd::prelude::*;

use crate::errors::EntityKind;
use crate::errors::ProjectError;
use crate::ids::get_unused_id;
use crate::models::lemma_category_index_is;
use crate::models::Category;
use crate::models::CategoryView;
use crate::models::Project;
use crate::models::ProjectView;

verus! {

impl ProjectView {
    /// State after appending a fresh category `id` named `name`.
    pub open spec fn add_category_m(self, id: u64, name: Seq<char>) -> ProjectView {
        ProjectView { categories: self.categories.push(CategoryView { id, name }), ..self }
    }

    /// State after `add_default_category(id, name)`: the category is
    /// appended and becomes the default for new tasks.
    pub open spec fn add_default_category_m(self, id: u64, name: Seq<char>) -> ProjectView {
        ProjectView {
            default_category: Some(id),
            categories: self.categories.push(CategoryView { id, name }),
            ..self
        }
    }

    /// State after renaming category `id` to `name`.
    pub open spec fn edit_category_m(self, id: u64, name: Seq<char>) -> ProjectView {
        ProjectView {
            categories: self.categories.update(
                self.category_index(id),
                CategoryView { id, name },
            ),
            ..self
        }
    }

    /// State after removing category `id`.
    pub open spec fn remove_category_m(self, id: u64) -> ProjectView {
        ProjectView { categories: self.categories.remove(self.category_index(id)), ..self }
    }
}

impl Project {
    /// Appending a category with an id no existing category carries keeps
    /// the project well formed.
    proof fn lemma_add_category_wf(pre: ProjectView, id: u64, name: Seq<char>)
        requires
            pre.wf(),
            !pre.has_category(id),
        ensures
            pre.add_category_m(id, name).wf(),
            pre.add_default_category_m(id, name).wf(),
    {
        let post = pre.add_category_m(id, name);
        assert forall|c: u64| pre.has_category(c) implies post.has_category(c) by {
            let i = choose|i: int|
                0 <= i < pre.categories.len() && pre.categories[i].id == c;
            assert(post.categories[i].id == c);
        }
        assert forall|i: int| 0 <= i < post.tasks.len() implies post.task_wf(
            #[trigger] post.tasks[i],
        ) by {
            assert(pre.task_wf(pre.tasks[i]));
        }
        let postd = pre.add_default_category_m(id, name);
        assert(postd.categories[pre.categories.len() as int].id == id);
        assert forall|i: int| 0 <= i < postd.tasks.len() implies postd.task_wf(
            #[trigger] postd.tasks[i],
        ) by {
            assert(pre.task_wf(pre.tasks[i]));
            assert forall|c: u64| pre.has_category(c) implies postd.has_category(c) by {
                let k = choose|k: int|
                    0 <= k < pre.categories.len() && pre.categories[k].id == c;
                assert(postd.categories[k].id == c);
            }
        }
    }

    /// Creates a category with a fresh id and appends it; the new id is
    /// returned. No name-uniqueness check is made here: guarding against
    /// duplicate names is the caller's concern.
    pub fn add_category(&mut self, name: &str) -> (id: u64)
        requires
            old(self).wf(),
            old(self)@.categories.len() < 8999,
        ensures
            final(self).wf(),
            1000 <= id < 9999,
            !old(self)@.has_category(id),
            final(self)@ == old(self)@.add_category_m(id, name@),
    {
        let ids_v = self.category_ids_vec();
        let ghost gids = ids_v@;
        let id = get_unused_id(ids_v);
        proof {
            assert forall|i: int| 0 <= i < self@.categories.len() implies self@.categories[i].id
                != id by {
                assert(gids[i] == self@.categories[i].id);
            }
            Self::lemma_add_category_wf(self@, id, name@);
        }
        let ghost pre = self@;
        self.categories.push(Category { id, name: name.to_owned() });
        proof {
            assert(self@ =~= pre.add_category_m(id, name@));
        }
        id
    }

    /// Creates a category like `add_category` and additionally makes it the
    /// project's default category for new tasks.
    pub fn add_default_category(&mut self, name: &str) -> (id: u64)
        requires
            old(self).wf(),
            old(self)@.categories.len() < 8999,
        ensures
            final(self).wf(),
            1000 <= id < 9999,
            !old(self)@.has_category(id),
            final(self)@ == old(self)@.add_default_category_m(id, name@),
    {
        let ids_v = self.category_ids_vec();
        let ghost gids = ids_v@;
        let id = get_unused_id(ids_v);
        proof {
            assert forall|i: int| 0 <= i < self@.categories.len() implies self@.categories[i].id
                != id by {
                assert(gids[i] == self@.categories[i].id);
            }
            Self::lemma_add_category_wf(self@, id, name@);
        }
        let ghost pre = self@;
        self.categories.push(Category { id, name: name.to_owned() });
        self.default_category = Some(id);
        proof {
            assert(self@ =~= pre.add_default_category_m(id, name@));
        }
        id
    }

    /// Renames category `id` in place; fails with `NotFound` when the id
    /// does not resolve.
    pub fn edit_category(&mut self, id: u64, new_name: &str) -> (r: Result<(), ProjectError>)
        requires
            old(self).wf(),
        ensures
            final(self).wf(),
            old(self)@.has_category(id) ==> r == Ok::<(), ProjectError>(()) && final(self)@
                == old(self)@.edit_category_m(id, new_name@),
            !old(self)@.has_category(id) ==> r == Err::<(), ProjectError>(
                ProjectError::NotFound(EntityKind::Category, id),
            ) && final(self)@ == old(self)@,
    {
        let pos = match self.category_position(id) {
            Some(pos) => pos,
            None => {
                return Err(ProjectError::NotFound(EntityKind::Category, id));
            },
        };
        let ghost pre = self@;
        proof {
            lemma_category_index_is(pre, pos as int, id);
        }
        self.categories.set(pos, Category { id, name: new_name.to_owned() });
        proof {
            assert(self@ =~= pre.edit_category_m(id, new_name@));
            let post = self@;
            assert forall|c: u64| pre.has_category(c) implies post.has_category(c) by {
                let i = choose|i: int|
                    0 <= i < pre.categories.len() && pre.categories[i].id == c;
                assert(post.categories[i].id == c);
            }
            assert forall|i: int| 0 <= i < post.tasks.len() implies post.task_wf(
                #[trigger] post.tasks[i],
            ) by {
                assert(pre.task_wf(pre.tasks[i]));
            }
        }
        Ok(())
    }

    /// Whether some task still references category `id`.
    pub fn category_has_tasks(&self, id: u64) -> (r: bool)
        ensures
            r == self@.category_in_use(id),
    {
        let mut i: usize = 0;
        while i < self.tasks.len()
            invariant
                i <= self.tasks.len(),
                self@.tasks.len() == self.tasks.len(),
                forall|j: int| 0 <= j < i ==> self@.tasks[j].category != id,
            decreases self.tasks.len() - i,
        {
            if self.tasks[i].category == id {
                proof {
                    assert(self@.tasks[i as int].category == id);
                }
                return true;
            }
            i = i + 1;
        }
        false
    }

    /// Removes category `id`. Refused with `InvalidReference` while any
    /// task still references it or while it is the project's default
    /// category, so no reference is left dangling; fails with `NotFound`
    /// when the id does not resolve.
    pub fn remove_category(&mut self, id: u64) -> (r: Result<(), ProjectError>)
        requires
            old(self).wf(),
        ensures
            final(self).wf(),
            old(self)@.has_category(id) && !old(self)@.category_in_use(id) && old(
                self,
            )@.default_category != Some(id) ==> r == Ok::<(), ProjectError>(()) && final(self)@
                == old(self)@.remove_category_m(id),
            !old(self)@.has_category(id) ==> r == Err::<(), ProjectError>(
                ProjectError::NotFound(EntityKind::Category, id),
            ) && final(self)@ == old(self)@,
            old(self)@.has_category(id) && (old(self)@.category_in_use(id) || old(
                self,
            )@.default_category == Some(id)) ==> r == Err::<(), ProjectError>(
                ProjectError::InvalidReference,
            ) && final(self)@ == old(self)@,
    {
        let pos = match self.category_position(id) {
            Some(pos) => pos,
            None => {
                return Err(ProjectError::NotFound(EntityKind::Category, id));
            },
        };
        if self.category_has_tasks(id) {
            return Err(ProjectError::InvalidReference);
        }
        let is_default = match self.default_category {
            Some(d) => d == id,
            None => false,
        };
        if is_default {
            return Err(ProjectError::InvalidReference);
        }
        let ghost pre = self@;
        proof {
            lemma_category_index_is(pre, pos as int, id);
        }
        self.categories.remove(pos);
        proof {
            pre.categories.remove_ensures(pos as int);
            assert(self@ =~= pre.remove_category_m(id));
            let post = self@;
            assert forall|c: u64| pre.has_category(c) && c != id implies post.has_category(
                c,
            ) by {
                let i = choose|i: int|
                    0 <= i < pre.categories.len() && pre.categories[i].id == c;
                if i < pos {
                    assert(post.categories[i].id == c);
                } else {
                    assert(post.categories[i - 1].id == c);
                }
            }
            assert forall|i: int| 0 <= i < post.tasks.len() implies post.task_wf(
                #[trigger] post.tasks[i],
            ) by {
                assert(pre.task_wf(pre.tasks[i]));
                assert(pre.tasks[i].category != id);
            }
            assert forall|i: int, j: int|
                0 <= i < j < post.categories.len() implies post.categories[i].id
                != post.categories[j].id by {
                let pi: int = if i < pos { i } else { i + 1 };
                let pj: int = if j < pos { j } else { j + 1 };
                assert(post.categories[i] == pre.categories[pi]);
                assert(post.categories[j] == pre.categories[pj]);
            }
        }
        Ok(())
    }

    /// The category with id `id`, when it exists.
    pub fn get_category(&self, id: u64) -> (r: Option<&Category>)
        requires
            self.wf(),
        ensures
            match r {
                Some(c) => self@.has_category(id) && c@ == self@.category_at(id),
                None => !self@.has_category(id),
            },
    {
        match self.category_position(id) {
            Some(pos) => {
                proof {
                    lemma_category_index_is(self@, pos as int, id);
                }
                Some(&self.categories[pos])
            },
            None => None,
        }
    }

    /// The name of category `id`, when it exists.
    pub fn get_category_name(&self, id: u64) -> (r: Option<String>)
        requires
            self.wf(),
        ensures
            match r {
                Some(n) => self@.has_category(id) && n@ == self@.category_at(id).name,
                None => !self@.has_category(id),
            },
    {
        match self.get_category(id) {
            Some(c) => Some(c.name.clone()),
            None => None,
        }
    }
}

} // verus!
