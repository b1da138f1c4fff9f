//! User operations: creation, edit, cascading removal, and lookup
//! (including lookup by git email, which skips users without one).
use vstd::prelude::*;

use crate::errors::EntityKind;
use crate::errors::ProjectError;
use crate::ids::get_unused_id;
use crate::models::lemma_user_index_is;
use crate::models::Project;
use crate::models::ProjectView;
use crate::models::TaskView;
use crate::models::User;
use crate::models::UserView;
use crate::assign::filter_out_id;
use crate::seq_facts::lemma_filter_distinct;
use crate::seq_facts::lemma_filter_holds;
use crate::seq_facts::lemma_filter_out_not_contains;
use crate::seq_facts::lemma_filter_sub;
use crate::seq_facts::without_id;
use crate::strutil::str_eq;

verus! {

/// The abstract value of an optional email.
pub open spec fn email_view(o: Option<String>) -> Option<Seq<char>> {
    match o {
        Some(e) => Some(e@),
        None => None,
    }
}

/// `t` without every membership of `user_id`.
pub open spec fn strip_user(t: TaskView, user_id: u64) -> TaskView {
    TaskView { assigned_to: t.assigned_to.filter(without_id(user_id)), ..t }
}

/// The first user whose email is set and equals `email`, scanning in
/// display order; users without an email are skipped.
pub open spec fn find_by_email(users: Seq<UserView>, email: Seq<char>) -> Option<UserView>
    decreases users.len(),
{
    if users.len() == 0 {
        None
    } else if users[0].git_email == Some(email) {
        Some(users[0])
    } else {
        find_by_email(users.drop_first(), email)
    }
}

impl ProjectView {
    /// State after appending a fresh user `id`.
    pub open spec fn add_user_m(self, id: u64, name: Seq<char>, git_email: Option<Seq<char>>) -> ProjectView {
        ProjectView { users: self.users.push(UserView { id, git_email, name }), ..self }
    }

    /// State after rewriting name and email of user `id` in place; the
    /// email may be cleared to `None`.
    pub open spec fn edit_user_m(self, id: u64, name: Seq<char>, git_email: Option<Seq<char>>) -> ProjectView {
        ProjectView {
            users: self.users.update(self.user_index(id), UserView { id, git_email, name }),
            ..self
        }
    }

    /// State after removing user `id`: the user is first retracted from
    /// every task's memberships, then the record itself is removed, so no
    /// reference dangles.
    pub open spec fn remove_user_m(self, user_id: u64) -> ProjectView {
        ProjectView {
            tasks: Seq::new(self.tasks.len(), |i: int| strip_user(self.tasks[i], user_id)),
            users: self.users.remove(self.user_index(user_id)),
            ..self
        }
    }
}

/// A task stays well formed for a project that keeps every category id and
/// every user id in place (further entries may follow).
proof fn lemma_task_wf_matching_ids(p1: ProjectView, p2: ProjectView, t: TaskView)
    requires
        p1.task_wf(t),
        p1.categories.len() <= p2.categories.len(),
        forall|j: int|
            0 <= j < p1.categories.len() ==> (#[trigger] p2.categories[j]).id
                == p1.categories[j].id,
        p1.users.len() <= p2.users.len(),
        forall|j: int| 0 <= j < p1.users.len() ==> (#[trigger] p2.users[j]).id == p1.users[j].id,
    ensures
        p2.task_wf(t),
{
    let k = choose|k: int| 0 <= k < p1.categories.len() && p1.categories[k].id == t.category;
    assert(p2.categories[k].id == t.category);
    assert forall|i: int| 0 <= i < t.assigned_to.len() implies p2.has_user(
        #[trigger] t.assigned_to[i],
    ) by {
        assert(p1.has_user(t.assigned_to[i]));
        let m = choose|m: int| 0 <= m < p1.users.len() && p1.users[m].id == t.assigned_to[i];
        assert(p2.users[m].id == t.assigned_to[i]);
    }
}

impl Project {
    /// Creates a user with a fresh id and appends it; the new id is
    /// returned. `git_email` may be `None` for a user without an email.
    pub fn add_user(&mut self, name: &str, git_email: Option<String>) -> (id: u64)
        requires
            old(self).wf(),
            old(self)@.users.len() < 8999,
        ensures
            final(self).wf(),
            1000 <= id < 9999,
            !old(self)@.has_user(id),
            final(self)@ == old(self)@.add_user_m(id, name@, email_view(git_email)),
    {
        let ids_v = self.user_ids_vec();
        let ghost gids = ids_v@;
        let id = get_unused_id(ids_v);
        let ghost pre = self@;
        proof {
            assert forall|i: int| 0 <= i < pre.users.len() implies (#[trigger] pre.users[i]).id
                != id by {
                assert(gids[i] == pre.users[i].id);
            }
        }
        self.users.push(User { id, git_email, name: name.to_owned() });
        proof {
            let post = pre.add_user_m(id, name@, email_view(git_email));
            assert(self@ =~= post);
            assert forall|i: int| 0 <= i < post.tasks.len() implies post.task_wf(
                #[trigger] post.tasks[i],
            ) by {
                assert(pre.task_wf(pre.tasks[i]));
                lemma_task_wf_matching_ids(pre, post, pre.tasks[i]);
            }
            if pre.default_category is Some {
                let c = pre.default_category.unwrap();
                let k = choose|k: int|
                    0 <= k < pre.categories.len() && pre.categories[k].id == c;
                assert(post.categories[k].id == c);
            }
        }
        id
    }

    /// Rewrites name and email of user `id` in place (the email may be
    /// cleared to `None`); fails with `NotFound` when the id does not
    /// resolve.
    pub fn edit_user(&mut self, id: u64, name: &str, git_email: Option<String>) -> (r: Result<
        (),
        ProjectError,
    >)
        requires
            old(self).wf(),
        ensures
            final(self).wf(),
            old(self)@.has_user(id) ==> r == Ok::<(), ProjectError>(()) && final(self)@ == old(
                self,
            )@.edit_user_m(id, name@, email_view(git_email)),
            !old(self)@.has_user(id) ==> r == Err::<(), ProjectError>(
                ProjectError::NotFound(EntityKind::User, id),
            ) && final(self)@ == old(self)@,
    {
        let pos = match self.user_position(id) {
            Some(pos) => pos,
            None => {
                return Err(ProjectError::NotFound(EntityKind::User, id));
            },
        };
        let ghost pre = self@;
        proof {
            lemma_user_index_is(pre, pos as int, id);
        }
        let u = &mut self.users[pos];
        u.name = name.to_owned();
        u.git_email = git_email;
        proof {
            let post = pre.edit_user_m(id, name@, email_view(git_email));
            assert(self@.users =~= post.users);
            assert(self@ =~= post);
            assert forall|i: int| 0 <= i < post.tasks.len() implies post.task_wf(
                #[trigger] post.tasks[i],
            ) by {
                assert(pre.task_wf(pre.tasks[i]));
                lemma_task_wf_matching_ids(pre, post, pre.tasks[i]);
            }
            assert forall|i: int, j: int|
                0 <= i < j < post.users.len() implies post.users[i].id != post.users[j].id by {
                assert(pre.users[i].id != pre.users[j].id);
                assert(post.users[i].id == pre.users[i].id);
                assert(post.users[j].id == pre.users[j].id);
            }
            if pre.default_category is Some {
                let c = pre.default_category.unwrap();
                let k = choose|k: int|
                    0 <= k < pre.categories.len() && pre.categories[k].id == c;
                assert(post.categories[k].id == c);
            }
        }
        Ok(())
    }

    /// Removes user `user_id`, first retracting it from every task's
    /// memberships so that no task is left referencing it; the cascade and
    /// the removal happen in one call. Fails with `NotFound` when the id
    /// does not resolve.
    pub fn remove_user(&mut self, user_id: u64) -> (r: Result<(), ProjectError>)
        requires
            old(self).wf(),
        ensures
            final(self).wf(),
            old(self)@.has_user(user_id) ==> r == Ok::<(), ProjectError>(()) && final(self)@ == old(
                self,
            )@.remove_user_m(user_id) && (forall|j: int|
                0 <= j < final(self)@.tasks.len() ==> !(#[trigger] final(self)@.tasks[j]).assigned_to.contains(user_id)),
            !old(self)@.has_user(user_id) ==> r == Err::<(), ProjectError>(
                ProjectError::NotFound(EntityKind::User, user_id),
            ) && final(self)@ == old(self)@,
    {
        let pos = match self.user_position(user_id) {
            Some(pos) => pos,
            None => {
                return Err(ProjectError::NotFound(EntityKind::User, user_id));
            },
        };
        let ghost pre = self@;
        proof {
            lemma_user_index_is(pre, pos as int, user_id);
        }
        let mut i: usize = 0;
        while i < self.tasks.len()
            invariant
                i <= self.tasks.len(),
                self@.tasks.len() == self.tasks.len(),
                self.tasks.len() == pre.tasks.len(),
                self@.categories == pre.categories,
                self@.users == pre.users,
                self@.name == pre.name,
                self@.default_category == pre.default_category,
                forall|j: int| 0 <= j < i ==> self@.tasks[j] == strip_user(pre.tasks[j], user_id),
                forall|j: int| i <= j < pre.tasks.len() ==> self@.tasks[j] == pre.tasks[j],
            decreases self.tasks.len() - i,
        {
            proof {
                assert(self@.tasks[i as int] == pre.tasks[i as int]);
            }
            let ghost before = self@.tasks;
            let filtered = filter_out_id(&self.tasks[i].assigned_to, user_id);
            let t = &mut self.tasks[i];
            t.assigned_to = filtered;
            proof {
                let tv = strip_user(pre.tasks[i as int], user_id);
                assert(self@.tasks[i as int].assigned_to == tv.assigned_to);
                assert(self@.tasks[i as int] =~= tv);
                assert forall|j: int| 0 <= j < i + 1 implies self@.tasks[j] == strip_user(
                    pre.tasks[j],
                    user_id,
                ) by {
                    if j < i {
                        assert(self@.tasks[j] == before[j]);
                        assert(before[j] == strip_user(pre.tasks[j], user_id));
                    }
                }
            }
            i = i + 1;
        }
        self.users.remove(pos);
        proof {
            let post = pre.remove_user_m(user_id);
            pre.users.remove_ensures(pos as int);
            assert(self@.tasks =~= post.tasks);
            assert(self@ =~= post);
            assert forall|j: int, k: int|
                0 <= j < k < post.users.len() implies post.users[j].id != post.users[k].id by {
                let pj: int = if j < pos {
                    j
                } else {
                    j + 1
                };
                let pk: int = if k < pos {
                    k
                } else {
                    k + 1
                };
                assert(post.users[j] == pre.users[pj]);
                assert(post.users[k] == pre.users[pk]);
            }
            assert forall|j: int| 0 <= j < post.tasks.len() implies post.task_wf(
                #[trigger] post.tasks[j],
            ) by {
                let told = pre.tasks[j];
                let tnew = post.tasks[j];
                assert(tnew == strip_user(told, user_id));
                assert(pre.task_wf(told));
                lemma_filter_distinct(told.assigned_to, without_id(user_id));
                lemma_filter_sub(told.assigned_to, without_id(user_id));
                lemma_filter_holds(told.assigned_to, without_id(user_id));
                let kc = choose|kc: int|
                    0 <= kc < pre.categories.len() && pre.categories[kc].id == told.category;
                assert(post.categories[kc].id == told.category);
                assert forall|m: int| 0 <= m < tnew.assigned_to.len() implies post.has_user(
                    #[trigger] tnew.assigned_to[m],
                ) by {
                    let uid = tnew.assigned_to[m];
                    assert(told.assigned_to.contains(uid));
                    let w = choose|w: int|
                        0 <= w < told.assigned_to.len() && told.assigned_to[w] == uid;
                    assert(pre.has_user(told.assigned_to[w]));
                    let k = choose|k: int| 0 <= k < pre.users.len() && pre.users[k].id == uid;
                    assert(without_id(user_id)(uid));
                    assert(uid != user_id);
                    assert(k != pos);
                    if k < pos {
                        assert(post.users[k].id == uid);
                    } else {
                        assert(post.users[k - 1].id == uid);
                    }
                }
            }
            if pre.default_category is Some {
                let c = pre.default_category.unwrap();
                let k = choose|k: int|
                    0 <= k < pre.categories.len() && pre.categories[k].id == c;
                assert(post.categories[k].id == c);
            }
            assert forall|j: int| 0 <= j < post.tasks.len() implies !(#[trigger] post.tasks[j]).assigned_to.contains(user_id) by {
                lemma_filter_out_not_contains(pre.tasks[j].assigned_to, user_id);
            }
        }
        Ok(())
    }

    /// The user with id `id`, when it exists.
    pub fn get_user(&self, id: u64) -> (r: Option<&User>)
        requires
            self.wf(),
        ensures
            match r {
                Some(u) => self@.has_user(id) && u@ == self@.user_at(id),
                None => !self@.has_user(id),
            },
    {
        match self.user_position(id) {
            Some(pos) => {
                proof {
                    lemma_user_index_is(self@, pos as int, id);
                }
                Some(&self.users[pos])
            },
            None => None,
        }
    }

    /// All users of the project, in display order.
    pub fn get_users(&self) -> (r: &Vec<User>)
        ensures
            r@.len() == self@.users.len(),
            forall|i: int| 0 <= i < r@.len() ==> (#[trigger] r@[i])@ == self@.users[i],
    {
        &self.users
    }

    /// The first user whose email is set and equals `email`; users without
    /// an email are skipped rather than failing the scan.
    pub fn get_user_by_email(&self, email: &str) -> (r: Option<&User>)
        ensures
            r is Some <==> find_by_email(self@.users, email@) is Some,
            r matches Some(u) ==> Some(u@) == find_by_email(self@.users, email@),
    {
        let mut i: usize = 0;
        proof {
            assert(self@.users.skip(0) =~= self@.users);
        }
        while i < self.users.len()
            invariant
                i <= self.users.len(),
                self@.users.len() == self.users.len(),
                find_by_email(self@.users.skip(i as int), email@) == find_by_email(
                    self@.users,
                    email@,
                ),
            decreases self.users.len() - i,
        {
            let matches_here = match &self.users[i].git_email {
                Some(e) => str_eq(e.as_str(), email),
                None => false,
            };
            proof {
                let rest = self@.users.skip(i as int);
                assert(rest.len() > 0);
                assert(rest[0] == self@.users[i as int]);
                assert(rest.drop_first() =~= self@.users.skip(i as int + 1));
            }
            if matches_here {
                return Some(&self.users[i]);
            }
            i = i + 1;
        }
        proof {
            assert(self@.users.skip(i as int).len() == 0);
        }
        None
    }
}

} // verus!
