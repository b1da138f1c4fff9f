use piqo::EntityKind;
use piqo::Project;
use piqo::ProjectError;

fn demo_project() -> (Project, u64) {
    let mut p = Project::new(String::from("Demo"));
    let cat = p.add_default_category("Todo");
    (p, cat)
}

#[test]
fn new_project_is_empty() {
    let p = Project::new(String::from("Demo"));
    assert_eq!(p.name, "Demo");
    assert!(p.default_category.is_none());
    assert_eq!(p.categories.len(), 0);
    assert_eq!(p.tasks.len(), 0);
    assert_eq!(p.users.len(), 0);
}

#[test]
fn add_category_appends_with_fresh_id() {
    let mut p = Project::new(String::from("Demo"));
    let a = p.add_category("Todo");
    let b = p.add_category("Done");
    assert_ne!(a, b);
    assert!((1000..9999).contains(&a));
    assert!((1000..9999).contains(&b));
    assert_eq!(p.categories.len(), 2);
    assert_eq!(p.categories[0].name, "Todo");
    assert_eq!(p.categories[1].name, "Done");
    assert!(p.default_category.is_none());
}

#[test]
fn add_default_category_sets_default() {
    let (p, cat) = demo_project();
    assert_eq!(p.default_category, Some(cat));
    assert_eq!(p.categories[0].id, cat);
}

#[test]
fn edit_category_renames_in_place() {
    let (mut p, cat) = demo_project();
    assert_eq!(p.edit_category(cat, "Backlog"), Ok(()));
    assert_eq!(p.categories[0].name, "Backlog");
    assert_eq!(p.categories[0].id, cat);
}

#[test]
fn edit_category_missing_id_is_not_found() {
    let (mut p, cat) = demo_project();
    let missing = cat.wrapping_add(1);
    assert_eq!(
        p.edit_category(missing, "X"),
        Err(ProjectError::NotFound(EntityKind::Category, missing))
    );
}

#[test]
fn remove_category_without_tasks_succeeds() {
    let (mut p, _cat) = demo_project();
    let extra = p.add_category("Scratch");
    assert_eq!(p.remove_category(extra), Ok(()));
    assert_eq!(p.categories.len(), 1);
}

#[test]
fn remove_default_category_is_refused() {
    let (mut p, cat) = demo_project();
    assert_eq!(p.remove_category(cat), Err(ProjectError::InvalidReference));
    assert_eq!(p.categories.len(), 1);
}

#[test]
fn add_task_uses_default_category_and_stamps_times() {
    let (mut p, cat) = demo_project();
    let id = p.add_task("Write spec", "a body of text").unwrap();
    assert_eq!(p.tasks.len(), 1);
    let t = &p.tasks[0];
    assert_eq!(t.id, id);
    assert_eq!(t.name, "Write spec");
    assert_eq!(t.description, "a body of text");
    assert_eq!(t.category, cat);
    assert_eq!(t.created_at_utc, t.updated_at_utc);
    assert!(t.archived_at_utc.is_none());
    assert!(t.due_date_utc.is_none());
    assert!(t.assigned_to.is_empty());
    assert!(t.check_list.is_empty());
    assert_eq!(t.last_check_list_index, 0);
}

#[test]
fn add_task_without_default_category_is_refused() {
    let mut p = Project::new(String::from("Demo"));
    assert_eq!(
        p.add_task("Write spec", ""),
        Err(ProjectError::InvalidReference)
    );
    assert!(p.tasks.is_empty());
}

#[test]
fn task_field_edits() {
    let (mut p, _cat) = demo_project();
    let id = p.add_task("a", "b").unwrap();
    assert_eq!(p.edit_task_name(id, "renamed"), Ok(()));
    assert_eq!(p.edit_task_description(id, "new text"), Ok(()));
    assert_eq!(p.tasks[0].name, "renamed");
    assert_eq!(p.tasks[0].description, "new text");
    let missing = id.wrapping_add(1);
    assert_eq!(
        p.edit_task_name(missing, "x"),
        Err(ProjectError::NotFound(EntityKind::Task, missing))
    );
    assert_eq!(
        p.edit_task_description(missing, "x"),
        Err(ProjectError::NotFound(EntityKind::Task, missing))
    );
}

#[test]
fn move_task_validates_target_category() {
    let (mut p, cat) = demo_project();
    let done = p.add_category("Done");
    let id = p.add_task("a", "").unwrap();
    assert_eq!(p.move_task(id, done), Ok(()));
    assert_eq!(p.tasks[0].category, done);
    let bad_cat = cat ^ done ^ 0xffff;
    assert_eq!(p.move_task(id, bad_cat), Err(ProjectError::InvalidReference));
    assert_eq!(p.tasks[0].category, done);
}

#[test]
fn due_date_set_and_clear() {
    let (mut p, _cat) = demo_project();
    let id = p.add_task("a", "").unwrap();
    assert_eq!(p.set_task_due_date(id, 1_700_000_000), Ok(()));
    assert_eq!(p.get_task_due_time(id), Some(1_700_000_000));
    assert_eq!(p.clear_task_due_date(id), Ok(()));
    assert_eq!(p.get_task_due_time(id), None);
}

#[test]
fn remove_task_deletes_record() {
    let (mut p, _cat) = demo_project();
    let id = p.add_task("a", "").unwrap();
    assert_eq!(p.remove_task(id), Ok(()));
    assert!(p.tasks.is_empty());
    assert_eq!(
        p.remove_task(id),
        Err(ProjectError::NotFound(EntityKind::Task, id))
    );
}

#[test]
fn assign_task_is_idempotent() {
    let (mut p, _cat) = demo_project();
    let t = p.add_task("a", "").unwrap();
    let u = p.add_user("ada", Some(String::from("ada@example.com")));
    assert_eq!(p.assign_task(u, t), Ok(()));
    assert_eq!(p.assign_task(u, t), Ok(()));
    assert_eq!(p.tasks[0].assigned_to, vec![u]);
}

#[test]
fn assign_task_validates_both_sides() {
    let (mut p, _cat) = demo_project();
    let t = p.add_task("a", "").unwrap();
    let u = p.add_user("ada", None);
    let missing_task = t.wrapping_add(1);
    assert_eq!(
        p.assign_task(u, missing_task),
        Err(ProjectError::NotFound(EntityKind::Task, missing_task))
    );
    let missing_user = u.wrapping_add(1);
    assert_eq!(
        p.assign_task(missing_user, t),
        Err(ProjectError::InvalidReference)
    );
    assert!(p.tasks[0].assigned_to.is_empty());
}

#[test]
fn unassign_task_removes_exact_membership() {
    let (mut p, _cat) = demo_project();
    let t = p.add_task("a", "").unwrap();
    let u1 = p.add_user("ada", None);
    let u2 = p.add_user("grace", None);
    assert_eq!(p.assign_task(u1, t), Ok(()));
    assert_eq!(p.assign_task(u2, t), Ok(()));
    assert_eq!(p.unassign_task(u1, t), Ok(()));
    assert_eq!(p.tasks[0].assigned_to, vec![u2]);
    // absent membership: a no-op, not an error
    assert_eq!(p.unassign_task(u1, t), Ok(()));
    assert_eq!(p.tasks[0].assigned_to, vec![u2]);
}

#[test]
fn assign_then_unassign_leaves_no_membership() {
    let (mut p, _cat) = demo_project();
    let t = p.add_task("a", "").unwrap();
    let u = p.add_user("ada", None);
    assert_eq!(p.assign_task(u, t), Ok(()));
    assert_eq!(p.unassign_task(u, t), Ok(()));
    assert!(p.get_assigned_users(t).is_empty());
}

#[test]
fn remove_user_retracts_every_membership() {
    let (mut p, _cat) = demo_project();
    let t1 = p.add_task("a", "").unwrap();
    let t2 = p.add_task("b", "").unwrap();
    let u = p.add_user("ada", None);
    let v = p.add_user("grace", None);
    assert_eq!(p.assign_task(u, t1), Ok(()));
    assert_eq!(p.assign_task(v, t1), Ok(()));
    assert_eq!(p.assign_task(u, t2), Ok(()));
    assert_eq!(p.remove_user(u), Ok(()));
    for t in &p.tasks {
        assert!(!t.assigned_to.contains(&u));
    }
    assert_eq!(p.tasks[0].assigned_to, vec![v]);
    assert_eq!(p.users.len(), 1);
    assert_eq!(p.users[0].id, v);
    assert_eq!(
        p.remove_user(u),
        Err(ProjectError::NotFound(EntityKind::User, u))
    );
}

#[test]
fn edit_user_updates_and_can_clear_email() {
    let (mut p, _cat) = demo_project();
    let u = p.add_user("ada", Some(String::from("ada@example.com")));
    assert_eq!(p.edit_user(u, "lovelace", None), Ok(()));
    assert_eq!(p.users[0].name, "lovelace");
    assert!(p.users[0].git_email.is_none());
    let missing = u.wrapping_add(1);
    assert_eq!(
        p.edit_user(missing, "x", None),
        Err(ProjectError::NotFound(EntityKind::User, missing))
    );
}

#[test]
fn get_user_by_email_skips_users_without_email() {
    let (mut p, _cat) = demo_project();
    let _no_mail = p.add_user("ghost", None);
    let u = p.add_user("ada", Some(String::from("ada@example.com")));
    let found = p.get_user_by_email("ada@example.com").expect("found");
    assert_eq!(found.id, u);
    assert!(p.get_user_by_email("nobody@example.com").is_none());
}

#[test]
fn lookups_resolve_by_id() {
    let (mut p, cat) = demo_project();
    let t = p.add_task("a", "text").unwrap();
    let u = p.add_user("ada", None);
    assert_eq!(p.get_category(cat).expect("category").name, "Todo");
    assert_eq!(p.get_category_name(cat), Some(String::from("Todo")));
    assert!(p.get_category(cat.wrapping_add(1)).is_none());
    assert_eq!(p.get_task(t).expect("task").name, "a");
    assert_eq!(p.get_task_description(t), Some(String::from("text")));
    assert_eq!(p.get_user(u).expect("user").name, "ada");
    assert_eq!(p.get_users().len(), 1);
}

#[test]
fn checklist_headroom_is_open_on_fresh_tasks() {
    let (mut p, _cat) = demo_project();
    let t = p.add_task("a", "").unwrap();
    assert!(p.checklist_has_headroom(t));
}

#[test]
fn remove_checklist_item_missing_index_is_not_found() {
    let (mut p, _cat) = demo_project();
    let t = p.add_task("a", "").unwrap();
    assert_eq!(p.add_checklist_item(t, "one"), Ok(1));
    assert_eq!(
        p.remove_checklist_item(t, 7),
        Err(ProjectError::NotFound(EntityKind::ChecklistItem, 7))
    );
    let missing = t.wrapping_add(1);
    assert_eq!(
        p.remove_checklist_item(missing, 1),
        Err(ProjectError::NotFound(EntityKind::Task, missing))
    );
}

#[test]
fn get_unused_id_avoids_given_ids() {
    let taken: Vec<u64> = (1000u64..9000).collect();
    let id = piqo::get_unused_id(taken.clone());
    assert!((1000..9999).contains(&id));
    assert!(!taken.contains(&id));
}

#[test]
fn queries_filter_tasks() {
    let (mut p, cat) = demo_project();
    let done = p.add_category("Done");
    let t1 = p.add_task("a", "").unwrap();
    let t2 = p.add_task("b", "").unwrap();
    let u = p.add_user("ada", None);
    assert_eq!(p.move_task(t2, done), Ok(()));
    assert_eq!(p.assign_task(u, t1), Ok(()));
    assert_eq!(p.count_tasks_in_category(cat), 1);
    assert_eq!(p.count_tasks_in_category(done), 1);
    let for_cat = p.get_tasks_for_category(done);
    assert_eq!(for_cat.len(), 1);
    assert_eq!(for_cat[0].id, t2);
    let for_user = p.get_tasks_for_user(u);
    assert_eq!(for_user.len(), 1);
    assert_eq!(for_user[0].id, t1);
}

#[test]
fn queries_on_missing_ids_come_back_empty() {
    let (p, _cat) = demo_project();
    assert!(p.get_assigned_users(4242).is_empty());
    assert!(p.get_task_checklist(4242).is_empty());
    assert!(p.get_task(4242).is_none());
    assert_eq!(p.get_task_due_time(4242), None);
    assert!(p.get_unarchived_tasks().is_empty());
    assert_eq!(p.count_tasks_in_category(4242), 0);
}

#[test]
fn validate_accepts_api_built_projects_and_rejects_corrupt_ones() {
    let (mut p, _cat) = demo_project();
    let t = p.add_task("a", "").unwrap();
    let u = p.add_user("ada", None);
    assert_eq!(p.assign_task(u, t), Ok(()));
    assert!(p.validate());
    // a duplicated category id is rejected
    let mut broken = piqo::Project::new(String::from("x"));
    broken.categories.push(piqo::Category { id: 1000, name: String::from("a") });
    broken.categories.push(piqo::Category { id: 1000, name: String::from("b") });
    assert!(!broken.validate());
    // a task pointing at a vanished category is rejected
    let mut dangling = piqo::Project::new(String::from("y"));
    dangling.tasks.push(piqo::Task {
        id: 1001,
        name: String::from("t"),
        description: String::new(),
        category: 1000,
        created_at_utc: 0,
        updated_at_utc: 0,
        archived_at_utc: None,
        due_date_utc: None,
        assigned_to: Vec::new(),
        check_list: Vec::new(),
        last_check_list_index: 0,
    });
    assert!(!dangling.validate());
}
