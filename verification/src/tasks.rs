//! Task operations: creation, field edits, moving between categories,
//! archival, removal, due-date lifecycle, and lookup.
use vstd::prelude::*;

use crate::clock::now_utc;
use crate::errors::EntityKind;
use crate::errors::ProjectError;
use crate::ids::get_unused_id;
use crate::models::lemma_push_task_wf;
use crate::models::lemma_remove_task_wf;
use crate::models::lemma_task_index_is;
use crate::models::lemma_update_task_wf;
use crate::models::Project;
use crate::models::ProjectView;
use crate::models::Task;
use crate::models::TaskView;

verus! {

impl ProjectView {
    /// State after creating task `id` at time `now_utc`: the task is
    /// appended with the project's default category, both timestamps set to
    /// `now_utc`, no archival, no due date, no assignees and an empty
    /// checklist.
    pub open spec fn add_task_m(
        self,
        id: u64,
        name: Seq<char>,
        description: Seq<char>,
        now_utc: i64,
    ) -> ProjectView {
        self.with_tasks(
            self.tasks.push(
                TaskView {
                    id,
                    name,
                    description,
                    category: self.default_category.unwrap(),
                    created_at_utc: now_utc,
                    updated_at_utc: now_utc,
                    archived_at_utc: None,
                    due_date_utc: None,
                    assigned_to: Seq::empty(),
                    check_list: Seq::empty(),
                    last_check_list_index: 0,
                },
            ),
        )
    }

    /// State after renaming task `id`.
    pub open spec fn edit_task_name_m(self, id: u64, name: Seq<char>) -> ProjectView {
        self.with_task_at(self.task_index(id), TaskView { name, ..self.task_at(id) })
    }

    /// State after replacing the description of task `id`.
    pub open spec fn edit_task_description_m(self, id: u64, description: Seq<char>) -> ProjectView {
        self.with_task_at(self.task_index(id), TaskView { description, ..self.task_at(id) })
    }

    /// State after moving task `id` to category `category`.
    pub open spec fn move_task_m(self, id: u64, category: u64) -> ProjectView {
        self.with_task_at(self.task_index(id), TaskView { category, ..self.task_at(id) })
    }

    /// State after archiving task `id` at time `now_utc`. Re-archiving
    /// refreshes the timestamp; the record itself is kept.
    pub open spec fn archive_task_m(self, id: u64, now_utc: i64) -> ProjectView {
        self.with_task_at(
            self.task_index(id),
            TaskView { archived_at_utc: Some(now_utc), ..self.task_at(id) },
        )
    }

    /// State after deleting task `id` outright. The assignment relation
    /// lives on the task itself, so no other entity needs cleanup.
    pub open spec fn remove_task_m(self, id: u64) -> ProjectView {
        self.with_tasks(self.tasks.remove(self.task_index(id)))
    }

    /// State after setting the due date of task `id`.
    pub open spec fn set_task_due_date_m(self, id: u64, due_date_utc: i64) -> ProjectView {
        self.with_task_at(
            self.task_index(id),
            TaskView { due_date_utc: Some(due_date_utc), ..self.task_at(id) },
        )
    }

    /// State after clearing the due date of task `id`.
    pub open spec fn clear_task_due_date_m(self, id: u64) -> ProjectView {
        self.with_task_at(
            self.task_index(id),
            TaskView { due_date_utc: None, ..self.task_at(id) },
        )
    }
}

impl Project {
    /// Creates a task at time `now_utc` with a fresh id in the project's
    /// default category and returns the new id; refused with
    /// `InvalidReference` while no default category is set, since the task
    /// would reference no existing category.
    pub fn add_task_at(&mut self, name: &str, description: &str, now_utc: i64) -> (r: Result<
        u64,
        ProjectError,
    >)
        requires
            old(self).wf(),
            old(self)@.tasks.len() < 8999,
        ensures
            final(self).wf(),
            old(self)@.default_category is Some ==> (r matches Ok(id) && 1000 <= id < 9999 && !old(
                self,
            )@.has_task(id) && final(self)@ == old(self)@.add_task_m(
                id,
                name@,
                description@,
                now_utc,
            )),
            old(self)@.default_category is None ==> r == Err::<u64, ProjectError>(
                ProjectError::InvalidReference,
            ) && final(self)@ == old(self)@,
    {
        let category = match self.default_category {
            Some(c) => c,
            None => {
                return Err(ProjectError::InvalidReference);
            },
        };
        let ids_v = self.task_ids_vec();
        let ghost gids = ids_v@;
        let id = get_unused_id(ids_v);
        let ghost pre = self@;
        proof {
            assert forall|i: int| 0 <= i < pre.tasks.len() implies (#[trigger] pre.tasks[i]).id
                != id by {
                assert(gids[i] == pre.tasks[i].id);
            }
        }
        self.tasks.push(
            Task {
                id,
                name: name.to_owned(),
                description: description.to_owned(),
                category,
                created_at_utc: now_utc,
                updated_at_utc: now_utc,
                archived_at_utc: None,
                due_date_utc: None,
                assigned_to: Vec::new(),
                check_list: Vec::new(),
                last_check_list_index: 0,
            },
        );
        proof {
            let post = pre.add_task_m(id, name@, description@, now_utc);
            assert(self@.tasks =~~= post.tasks);
            assert(self@ =~~= post);
            lemma_push_task_wf(pre, post.tasks.last());
            assert(pre.with_tasks(pre.tasks.push(post.tasks.last())) =~= post);
        }
        Ok(id)
    }

    /// Creates a task stamped with the current wall-clock time; the state
    /// change is `add_task_m` for the moment the clock returned.
    pub fn add_task(&mut self, name: &str, description: &str) -> (r: Result<u64, ProjectError>)
        requires
            old(self).wf(),
            old(self)@.tasks.len() < 8999,
        ensures
            final(self).wf(),
            old(self)@.default_category is Some ==> (r matches Ok(id) && 1000 <= id < 9999 && !old(
                self,
            )@.has_task(id) && (exists|now: i64|
                final(self)@ == old(self)@.add_task_m(id, name@, description@, now))),
            old(self)@.default_category is None ==> r == Err::<u64, ProjectError>(
                ProjectError::InvalidReference,
            ) && final(self)@ == old(self)@,
    {
        let now = now_utc();
        let r = self.add_task_at(name, description, now);
        proof {
            if old(self)@.default_category is Some {
                assert(final(self)@ == old(self)@.add_task_m(r.unwrap(), name@, description@, now));
            }
        }
        r
    }

    /// Renames task `id`; fails with `NotFound` when the id does not
    /// resolve. The timestamps keep their values: only creation stamps
    /// them.
    pub fn edit_task_name(&mut self, id: u64, new_name: &str) -> (r: Result<(), ProjectError>)
        requires
            old(self).wf(),
        ensures
            final(self).wf(),
            old(self)@.has_task(id) ==> r == Ok::<(), ProjectError>(()) && final(self)@ == old(
                self,
            )@.edit_task_name_m(id, new_name@),
            !old(self)@.has_task(id) ==> r == Err::<(), ProjectError>(
                ProjectError::NotFound(EntityKind::Task, id),
            ) && final(self)@ == old(self)@,
    {
        let pos = match self.task_position(id) {
            Some(pos) => pos,
            None => {
                return Err(ProjectError::NotFound(EntityKind::Task, id));
            },
        };
        let ghost pre = self@;
        proof {
            lemma_task_index_is(pre, pos as int, id);
        }
        let t = &mut self.tasks[pos];
        t.name = new_name.to_owned();
        proof {
            let tv = TaskView { name: new_name@, ..pre.task_at(id) };
            assert(self@.tasks =~= pre.tasks.update(pos as int, tv));
            assert(self@ =~= pre.edit_task_name_m(id, new_name@));
            lemma_update_task_wf(pre, pos as int, tv);
        }
        Ok(())
    }

    /// Replaces the description of task `id`; fails with `NotFound` when
    /// the id does not resolve. The timestamps keep their values: only
    /// creation stamps them.
    pub fn edit_task_description(&mut self, id: u64, new_description: &str) -> (r: Result<
        (),
        ProjectError,
    >)
        requires
            old(self).wf(),
        ensures
            final(self).wf(),
            old(self)@.has_task(id) ==> r == Ok::<(), ProjectError>(()) && final(self)@ == old(
                self,
            )@.edit_task_description_m(id, new_description@),
            !old(self)@.has_task(id) ==> r == Err::<(), ProjectError>(
                ProjectError::NotFound(EntityKind::Task, id),
            ) && final(self)@ == old(self)@,
    {
        let pos = match self.task_position(id) {
            Some(pos) => pos,
            None => {
                return Err(ProjectError::NotFound(EntityKind::Task, id));
            },
        };
        let ghost pre = self@;
        proof {
            lemma_task_index_is(pre, pos as int, id);
        }
        let t = &mut self.tasks[pos];
        t.description = new_description.to_owned();
        proof {
            let tv = TaskView { description: new_description@, ..pre.task_at(id) };
            assert(self@.tasks =~= pre.tasks.update(pos as int, tv));
            assert(self@ =~= pre.edit_task_description_m(id, new_description@));
            lemma_update_task_wf(pre, pos as int, tv);
        }
        Ok(())
    }

    /// Moves task `task_id` to category `category_id`. The target category
    /// is validated eagerly: a missing task fails with `NotFound`, a
    /// missing category with `InvalidReference`, so no task is ever left
    /// pointing at a vanished category.
    pub fn move_task(&mut self, task_id: u64, category_id: u64) -> (r: Result<(), ProjectError>)
        requires
            old(self).wf(),
        ensures
            final(self).wf(),
            old(self)@.has_task(task_id) && old(self)@.has_category(category_id) ==> r == Ok::<
                (),
                ProjectError,
            >(()) && final(self)@ == old(self)@.move_task_m(task_id, category_id),
            !old(self)@.has_task(task_id) ==> r == Err::<(), ProjectError>(
                ProjectError::NotFound(EntityKind::Task, task_id),
            ) && final(self)@ == old(self)@,
            old(self)@.has_task(task_id) && !old(self)@.has_category(category_id) ==> r == Err::<
                (),
                ProjectError,
            >(ProjectError::InvalidReference) && final(self)@ == old(self)@,
    {
        let pos = match self.task_position(task_id) {
            Some(pos) => pos,
            None => {
                return Err(ProjectError::NotFound(EntityKind::Task, task_id));
            },
        };
        if self.category_position(category_id).is_none() {
            return Err(ProjectError::InvalidReference);
        }
        let ghost pre = self@;
        proof {
            lemma_task_index_is(pre, pos as int, task_id);
        }
        let t = &mut self.tasks[pos];
        t.category = category_id;
        proof {
            let tv = TaskView { category: category_id, ..pre.task_at(task_id) };
            assert(self@.tasks =~= pre.tasks.update(pos as int, tv));
            assert(self@ =~= pre.move_task_m(task_id, category_id));
            lemma_update_task_wf(pre, pos as int, tv);
        }
        Ok(())
    }

    /// Archives task `id` at time `now_utc`: the task is excluded from the
    /// unarchived views but stays retrievable by id. Re-archiving refreshes
    /// the timestamp and is not an error.
    pub fn archive_task_at(&mut self, id: u64, now_utc: i64) -> (r: Result<(), ProjectError>)
        requires
            old(self).wf(),
        ensures
            final(self).wf(),
            old(self)@.has_task(id) ==> r == Ok::<(), ProjectError>(()) && final(self)@ == old(
                self,
            )@.archive_task_m(id, now_utc),
            !old(self)@.has_task(id) ==> r == Err::<(), ProjectError>(
                ProjectError::NotFound(EntityKind::Task, id),
            ) && final(self)@ == old(self)@,
    {
        let pos = match self.task_position(id) {
            Some(pos) => pos,
            None => {
                return Err(ProjectError::NotFound(EntityKind::Task, id));
            },
        };
        let ghost pre = self@;
        proof {
            lemma_task_index_is(pre, pos as int, id);
        }
        let t = &mut self.tasks[pos];
        t.archived_at_utc = Some(now_utc);
        proof {
            let tv = TaskView { archived_at_utc: Some(now_utc), ..pre.task_at(id) };
            assert(self@.tasks =~= pre.tasks.update(pos as int, tv));
            assert(self@ =~= pre.archive_task_m(id, now_utc));
            lemma_update_task_wf(pre, pos as int, tv);
        }
        Ok(())
    }

    /// Archives task `id` at the current wall-clock time; the state change
    /// is `archive_task_m` for the moment the clock returned.
    pub fn archive_task(&mut self, id: u64) -> (r: Result<(), ProjectError>)
        requires
            old(self).wf(),
        ensures
            final(self).wf(),
            old(self)@.has_task(id) ==> r == Ok::<(), ProjectError>(()) && (exists|now: i64|
                final(self)@ == old(self)@.archive_task_m(id, now)),
            !old(self)@.has_task(id) ==> r == Err::<(), ProjectError>(
                ProjectError::NotFound(EntityKind::Task, id),
            ) && final(self)@ == old(self)@,
    {
        let now = now_utc();
        let r = self.archive_task_at(id, now);
        proof {
            if old(self)@.has_task(id) {
                assert(final(self)@ == old(self)@.archive_task_m(id, now));
            }
        }
        r
    }

    /// Deletes task `id` outright; fails with `NotFound` when the id does
    /// not resolve. The assignment relation lives on the task itself, so
    /// its memberships vanish with it.
    pub fn remove_task(&mut self, id: u64) -> (r: Result<(), ProjectError>)
        requires
            old(self).wf(),
        ensures
            final(self).wf(),
            old(self)@.has_task(id) ==> r == Ok::<(), ProjectError>(()) && final(self)@ == old(
                self,
            )@.remove_task_m(id),
            !old(self)@.has_task(id) ==> r == Err::<(), ProjectError>(
                ProjectError::NotFound(EntityKind::Task, id),
            ) && final(self)@ == old(self)@,
    {
        let pos = match self.task_position(id) {
            Some(pos) => pos,
            None => {
                return Err(ProjectError::NotFound(EntityKind::Task, id));
            },
        };
        let ghost pre = self@;
        proof {
            lemma_task_index_is(pre, pos as int, id);
        }
        self.tasks.remove(pos);
        proof {
            assert(self@ =~= pre.remove_task_m(id));
            lemma_remove_task_wf(pre, pos as int);
        }
        Ok(())
    }

    /// Sets the due date of task `id`; fails with `NotFound` when the id
    /// does not resolve. The due date is independent of archival.
    pub fn set_task_due_date(&mut self, id: u64, due_date_utc: i64) -> (r: Result<
        (),
        ProjectError,
    >)
        requires
            old(self).wf(),
        ensures
            final(self).wf(),
            old(self)@.has_task(id) ==> r == Ok::<(), ProjectError>(()) && final(self)@ == old(
                self,
            )@.set_task_due_date_m(id, due_date_utc),
            !old(self)@.has_task(id) ==> r == Err::<(), ProjectError>(
                ProjectError::NotFound(EntityKind::Task, id),
            ) && final(self)@ == old(self)@,
    {
        let pos = match self.task_position(id) {
            Some(pos) => pos,
            None => {
                return Err(ProjectError::NotFound(EntityKind::Task, id));
            },
        };
        let ghost pre = self@;
        proof {
            lemma_task_index_is(pre, pos as int, id);
        }
        let t = &mut self.tasks[pos];
        t.due_date_utc = Some(due_date_utc);
        proof {
            let tv = TaskView { due_date_utc: Some(due_date_utc), ..pre.task_at(id) };
            assert(self@.tasks =~= pre.tasks.update(pos as int, tv));
            assert(self@ =~= pre.set_task_due_date_m(id, due_date_utc));
            lemma_update_task_wf(pre, pos as int, tv);
        }
        Ok(())
    }

    /// Clears the due date of task `id`; fails with `NotFound` when the id
    /// does not resolve.
    pub fn clear_task_due_date(&mut self, id: u64) -> (r: Result<(), ProjectError>)
        requires
            old(self).wf(),
        ensures
            final(self).wf(),
            old(self)@.has_task(id) ==> r == Ok::<(), ProjectError>(()) && final(self)@ == old(
                self,
            )@.clear_task_due_date_m(id),
            !old(self)@.has_task(id) ==> r == Err::<(), ProjectError>(
                ProjectError::NotFound(EntityKind::Task, id),
            ) && final(self)@ == old(self)@,
    {
        let pos = match self.task_position(id) {
            Some(pos) => pos,
            None => {
                return Err(ProjectError::NotFound(EntityKind::Task, id));
            },
        };
        let ghost pre = self@;
        proof {
            lemma_task_index_is(pre, pos as int, id);
        }
        let t = &mut self.tasks[pos];
        t.due_date_utc = None;
        proof {
            let tv = TaskView { due_date_utc: None, ..pre.task_at(id) };
            assert(self@.tasks =~= pre.tasks.update(pos as int, tv));
            assert(self@ =~= pre.clear_task_due_date_m(id));
            lemma_update_task_wf(pre, pos as int, tv);
        }
        Ok(())
    }

    /// The task with id `id`, when it exists.
    pub fn get_task(&self, id: u64) -> (r: Option<&Task>)
        requires
            self.wf(),
        ensures
            match r {
                Some(t) => self@.has_task(id) && t@ == self@.task_at(id),
                None => !self@.has_task(id),
            },
    {
        match self.task_position(id) {
            Some(pos) => {
                proof {
                    lemma_task_index_is(self@, pos as int, id);
                }
                Some(&self.tasks[pos])
            },
            None => None,
        }
    }

    /// The description of task `id`, when the task exists.
    pub fn get_task_description(&self, id: u64) -> (r: Option<String>)
        requires
            self.wf(),
        ensures
            match r {
                Some(d) => self@.has_task(id) && d@ == self@.task_at(id).description,
                None => !self@.has_task(id),
            },
    {
        match self.get_task(id) {
            Some(t) => Some(t.description.clone()),
            None => None,
        }
    }

    /// The due date of task `id`: `None` when the task has none or the id
    /// does not resolve.
    pub fn get_task_due_time(&self, id: u64) -> (r: Option<i64>)
        requires
            self.wf(),
        ensures
            self@.has_task(id) ==> r == self@.task_at(id).due_date_utc,
            !self@.has_task(id) ==> r is None,
    {
        match self.get_task(id) {
            Some(t) => t.due_date_utc,
            None => None,
        }
    }
}

} // verus!
