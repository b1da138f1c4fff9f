use piqo::EntityKind;
use piqo::Project;
use piqo::ProjectError;

// new Project -> default category -> second category -> task -> assign a
// fresh user -> move -> archive: the task ends in the second category,
// still assigned, archived yet retrievable, and absent from the
// unarchived listing.
#[test]
fn full_task_lifecycle() {
    let mut p = Project::new(String::from("Demo"));
    let a = p.add_default_category("Todo");
    let b = p.add_category("Done");
    let t = p.add_task("Write spec", "").unwrap();
    assert_eq!(p.tasks[0].category, a);
    let u = p.add_user("ada", Some(String::from("ada@example.com")));
    assert_eq!(p.assign_task(u, t), Ok(()));
    assert_eq!(p.move_task(t, b), Ok(()));
    assert_eq!(p.archive_task(t), Ok(()));

    let task = p.get_task(t).expect("task stays retrievable by id");
    assert_eq!(task.category, b);
    assert_eq!(task.assigned_to, vec![u]);
    assert!(task.archived_at_utc.is_some());

    let assigned = p.get_assigned_users(t);
    assert_eq!(assigned.len(), 1);
    assert_eq!(assigned[0].id, u);
    assert_eq!(assigned[0].name, "ada");

    assert!(p.get_unarchived_tasks().iter().all(|x| x.id != t));
}

// add "a", add "b", remove the item with index 1, add "c": the checklist
// then holds indices [2, 3] and index 1 is never reused.
#[test]
fn checklist_indices_are_never_reused() {
    let mut p = Project::new(String::from("Demo"));
    let _cat = p.add_default_category("Todo");
    let t = p.add_task("task", "").unwrap();
    assert_eq!(p.add_checklist_item(t, "a"), Ok(1));
    assert_eq!(p.add_checklist_item(t, "b"), Ok(2));
    assert_eq!(p.remove_checklist_item(t, 1), Ok(()));
    assert_eq!(p.add_checklist_item(t, "c"), Ok(3));
    let items = p.get_task_checklist(t);
    let indices: Vec<u64> = items.iter().map(|i| i.index).collect();
    assert_eq!(indices, vec![2, 3]);
    let names: Vec<&str> = items.iter().map(|i| i.name.as_str()).collect();
    assert_eq!(names, vec!["b", "c"]);
    assert!(items.iter().all(|i| !i.checked));
}

#[test]
fn checklist_indices_strictly_increase() {
    let mut p = Project::new(String::from("Demo"));
    let _cat = p.add_default_category("Todo");
    let t = p.add_task("task", "").unwrap();
    assert_eq!(p.add_checklist_item(t, "a"), Ok(1));
    assert_eq!(p.add_checklist_item(t, "b"), Ok(2));
    assert_eq!(p.remove_checklist_item(t, 2), Ok(()));
    assert_eq!(p.add_checklist_item(t, "c"), Ok(3));
    let items = p.get_task_checklist(t);
    for w in items.windows(2) {
        assert!(w[0].index < w[1].index);
    }
}

// remove_category must refuse while a task still references the category.
#[test]
fn remove_category_in_use_is_refused() {
    let mut p = Project::new(String::from("Demo"));
    let _todo = p.add_default_category("Todo");
    let doing = p.add_category("Doing");
    let t = p.add_task("task", "").unwrap();
    assert_eq!(p.move_task(t, doing), Ok(()));
    assert_eq!(p.remove_category(doing), Err(ProjectError::InvalidReference));
    assert_eq!(p.tasks[0].category, doing);
    assert_eq!(p.categories.len(), 2);
    // once the task has moved away, removal goes through
    let todo = p.categories[0].id;
    assert_eq!(p.move_task(t, todo), Ok(()));
    assert_eq!(p.remove_category(doing), Ok(()));
    assert_eq!(p.categories.len(), 1);
}

#[test]
fn remove_missing_category_is_not_found() {
    let mut p = Project::new(String::from("Demo"));
    let cat = p.add_default_category("Todo");
    let missing = cat.wrapping_add(1);
    assert_eq!(
        p.remove_category(missing),
        Err(ProjectError::NotFound(EntityKind::Category, missing))
    );
}

#[test]
fn ids_stay_distinct_across_creations() {
    let mut p = Project::new(String::from("Demo"));
    let _cat = p.add_default_category("Todo");
    let mut cat_ids = vec![p.categories[0].id];
    for i in 0..20 {
        cat_ids.push(p.add_category(&format!("c{}", i)));
    }
    let mut task_ids = Vec::new();
    for i in 0..20 {
        task_ids.push(p.add_task(&format!("t{}", i), "").unwrap());
    }
    let mut user_ids = Vec::new();
    for i in 0..20 {
        user_ids.push(p.add_user(&format!("u{}", i), None));
    }
    for ids in [&cat_ids, &task_ids, &user_ids] {
        let mut seen = ids.clone();
        seen.sort();
        seen.dedup();
        assert_eq!(seen.len(), ids.len());
    }
}

#[test]
fn archive_task_refreshes_timestamp_and_keeps_record() {
    let mut p = Project::new(String::from("Demo"));
    let _cat = p.add_default_category("Todo");
    let t = p.add_task("task", "").unwrap();
    assert_eq!(p.archive_task_at(t, 100), Ok(()));
    assert_eq!(p.tasks[0].archived_at_utc, Some(100));
    // re-archiving is not an error and refreshes the timestamp
    assert_eq!(p.archive_task_at(t, 200), Ok(()));
    assert_eq!(p.tasks[0].archived_at_utc, Some(200));
    assert_eq!(p.tasks.len(), 1);
}

#[test]
fn listing_rows_mirror_the_project() {
    let mut p = Project::new(String::from("Demo"));
    let cat = p.add_default_category("Todo");
    let t = p.add_task("task", "").unwrap();
    let u = p.add_user("ada", Some(String::from("ada@example.com")));
    assert_eq!(p.assign_task(u, t), Ok(()));

    let tasks = piqo::get_tasks_list(&p);
    assert_eq!(tasks.len(), 1);
    assert_eq!(tasks[0].id, t);
    assert_eq!(tasks[0].name, "task");
    assert!(tasks[0].category.is_none());

    let tasks_cat = piqo::get_tasks_list_with_categories(&p);
    assert_eq!(tasks_cat[0].category, Some(String::from("Todo")));

    let cats = piqo::get_categories_list(&p, true);
    assert_eq!(cats.len(), 1);
    assert_eq!(cats[0].id, cat);
    assert!(cats[0].not_deletable);
    let cats_unchecked = piqo::get_categories_list(&p, false);
    assert!(!cats_unchecked[0].not_deletable);

    let users = piqo::get_users_mod_list(&p);
    assert_eq!(users.len(), 1);
    assert_eq!(users[0].id, u);

    let assigned = piqo::get_users_assigned_mod_list(&p, t);
    assert_eq!(assigned.len(), 1);
    assert_eq!(assigned[0].id, u);
}
