use mental_os::task_tracker::{
    generate_task_id, parse_due_date, parse_i64, parse_priority, parse_relative_date, TaskPriority,
    TaskStatus, TaskTracker,
};

const DAY: i64 = 86_400_000;

#[test]
fn extracts_remind_me_tasks() {
    let mut tracker = TaskTracker::new("/tmp/mentalos-tasks-a");

    let tasks = tracker.extract_and_add_tasks(
        "Remind me to deploy the server by next week priority high",
        None,
        None,
    );

    assert_eq!(tasks.len(), 1);
    assert!(tasks[0].description.contains("deploy"));
    assert_eq!(tasks[0].priority, TaskPriority::High);
}

#[test]
fn extracts_todo_tasks() {
    let mut tracker = TaskTracker::new("/tmp/mentalos-tasks-b");

    let tasks = tracker.extract_and_add_tasks("TODO: Fix the login bug", None, None);

    assert_eq!(tasks.len(), 1);
    assert!(tasks[0].description.contains("login"));
}

#[test]
fn extracts_i_need_to_tasks() {
    let mut tracker = TaskTracker::new("/tmp/mentalos-tasks-c");

    let tasks = tracker.extract_and_add_tasks(
        "I need to update the documentation",
        Some("conv-123"),
        Some("my-project"),
    );

    assert_eq!(tasks.len(), 1);
    assert!(tasks[0].description.contains("documentation"));
    assert_eq!(tasks[0].related_conversation, Some("conv-123".to_string()));
    assert_eq!(tasks[0].related_project, Some("my-project".to_string()));
}

#[test]
fn updates_task_status() {
    let mut tracker = TaskTracker::new("/tmp/mentalos-tasks-d");

    let tasks = tracker.extract_and_add_tasks("Remind me to test", None, None);
    let task_id = &tasks[0].id;

    let updated = tracker.update_status(task_id, TaskStatus::Completed).unwrap();
    assert!(updated.is_some());
    assert_eq!(updated.unwrap().status, TaskStatus::Completed);
}

#[test]
fn extracted_tasks_persist_and_can_be_completed() {
    let mut tracker = TaskTracker::new("/tmp/mentalos-tasks-e");

    let created = tracker.extract_and_add_tasks(
        "TODO: ship release notes. I need to verify deployment by next week priority high.",
        Some("conv-42"),
        Some("alpha-app"),
    );

    assert!(created.len() >= 2, "expected at least two extracted tasks");
    assert_eq!(tracker.get_pending_count(), created.len());

    let first_id = created[0].id.clone();
    let updated = tracker
        .update_status(&first_id, TaskStatus::Completed)
        .expect("status update should succeed")
        .expect("task should exist");
    assert_eq!(updated.status, TaskStatus::Completed);

    let pending = tracker.list_tasks(Some(TaskStatus::Pending));
    assert_eq!(pending.len(), created.len() - 1);

    let by_project = tracker.get_tasks_by_project("alpha-app");
    assert_eq!(by_project.len(), created.len());

    // what the task file holds is what a reopened tracker starts from
    let reloaded = TaskTracker::with_store("/tmp/mentalos-tasks-e", tracker.store().clone());
    let completed = reloaded
        .get_task(&first_id)
        .expect("completed task should persist");
    assert_eq!(completed.status, TaskStatus::Completed);
    assert_eq!(completed.related_conversation.as_deref(), Some("conv-42"));
}

#[test]
fn duplicate_task_descriptions_in_single_message_are_deduped() {
    let mut tracker = TaskTracker::new("/tmp/mentalos-tasks-f");

    let created = tracker.extract_and_add_tasks(
        "TODO: fix auth bug. TODO: fix auth bug.",
        Some("conv-dup"),
        Some("alpha-app"),
    );

    assert_eq!(created.len(), 1, "duplicate descriptions should be collapsed");
    assert!(created[0].description.to_lowercase().contains("fix auth bug"));
    assert_eq!(tracker.get_pending_count(), 1);
}

#[test]
fn extraction_at_a_fixed_time_fills_every_field() {
    let mut tracker = TaskTracker::new("/tmp/mentalos-tasks-g");
    // 2024-01-02 03:04:05 UTC
    let now = 1_704_164_645_000;
    let created = tracker.extract_and_add_tasks_at(
        "Remind me to call Bob by tomorrow priority urgent.",
        Some("c1"),
        None,
        now,
    );
    assert_eq!(created.len(), 1);
    let t = &created[0];
    assert_eq!(t.id, "task-20240102030405");
    assert_eq!(t.description, "call Bob");
    assert_eq!(t.created_at, now);
    assert_eq!(t.status, TaskStatus::Pending);
    assert_eq!(t.priority, TaskPriority::Critical);
    assert_eq!(t.due_date, Some(now + DAY));
    assert_eq!(t.related_conversation.as_deref(), Some("c1"));
    assert_eq!(t.related_project, None);
    assert_eq!(tracker.store().tasks.len(), 1);
}

#[test]
fn text_without_task_phrases_adds_nothing() {
    let mut tracker = TaskTracker::new("/tmp/mentalos-tasks-h");
    let created = tracker.extract_and_add_tasks_at("The weather is nice.", None, None, 0);
    assert!(created.is_empty());
    assert_eq!(tracker.get_pending_count(), 0);
}

#[test]
fn priorities_are_read_from_words() {
    assert_eq!(parse_priority("ASAP please"), TaskPriority::Critical);
    assert_eq!(parse_priority("Urgent"), TaskPriority::Critical);
    assert_eq!(parse_priority("very HIGH"), TaskPriority::High);
    assert_eq!(parse_priority("low"), TaskPriority::Low);
    assert_eq!(parse_priority("whenever"), TaskPriority::Medium);
    assert_eq!(parse_priority("high but critical"), TaskPriority::Critical);
}

#[test]
fn relative_dates_count_units() {
    assert_eq!(parse_relative_date("3 days"), Some(3 * DAY));
    assert_eq!(parse_relative_date("in 2 weeks"), Some(14 * DAY));
    assert_eq!(parse_relative_date("5 minutes"), Some(300_000));
    assert_eq!(parse_relative_date("1 hour"), Some(3_600_000));
    assert_eq!(parse_relative_date("2 months"), Some(60 * DAY));
    assert_eq!(parse_relative_date("tomorrow"), Some(DAY));
    assert_eq!(parse_relative_date("today"), Some(0));
    assert_eq!(parse_relative_date("next week"), Some(7 * DAY));
    assert_eq!(parse_relative_date("someday"), None);
    assert_eq!(parse_relative_date("99999999999999999999 days"), None);
}

#[test]
fn due_dates_accept_relative_and_absolute_forms() {
    let now = 1_000_000;
    assert_eq!(parse_due_date("Tomorrow", now), Some(now + DAY));
    assert_eq!(parse_due_date("2024-01-02T03:04:05Z", now), Some(1_704_164_645_000));
    assert_eq!(parse_due_date("2024-01-02 03:04", now), Some(1_704_164_640_000));
    assert_eq!(parse_due_date("no idea", now), None);
}

#[test]
fn integers_parse_like_std() {
    assert_eq!(parse_i64("42"), Some(42));
    assert_eq!(parse_i64("+7"), Some(7));
    assert_eq!(parse_i64("-9223372036854775808"), Some(i64::MIN));
    assert_eq!(parse_i64("9223372036854775807"), Some(i64::MAX));
    assert_eq!(parse_i64("9223372036854775808"), None);
    assert_eq!(parse_i64(""), None);
    assert_eq!(parse_i64("-"), None);
    assert_eq!(parse_i64("1a"), None);
}

#[test]
fn task_ids_carry_the_utc_second() {
    assert_eq!(generate_task_id(0), "task-19700101000000");
}

#[test]
fn deleting_removes_every_task_with_the_id() {
    let mut tracker = TaskTracker::new("/tmp/mentalos-tasks-i");
    let created = tracker.extract_and_add_tasks_at("TODO: a. I should b.", None, Some("p"), 0);
    assert_eq!(created.len(), 2);
    assert_eq!(tracker.delete_task("task-19700101000000"), Ok(true));
    assert!(tracker.get_task("task-19700101000000").is_none());
    assert_eq!(tracker.delete_task("task-19700101000000"), Ok(false));
    assert!(tracker.get_tasks_by_project("p").is_empty());
}

#[test]
fn tasks_path_is_under_memory() {
    assert_eq!(TaskTracker::tasks_path_for("/w"), "/w/.memory/tasks.json");
    assert_eq!(TaskTracker::new("/w").tasks_path(), "/w/.memory/tasks.json");
}
