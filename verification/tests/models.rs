use discord_agent::db::{bool_to_sql, row_to_task, task_row};
use discord_agent::models::{TaskRecord, TaskStatus, TaskType};

#[test]
fn statuses_read_back_from_their_names() {
    let all = [
        TaskStatus::Accepted,
        TaskStatus::Queued,
        TaskStatus::Running,
        TaskStatus::AwaitingApproval,
        TaskStatus::Summarizing,
        TaskStatus::Completed,
        TaskStatus::Failed,
        TaskStatus::Rejected,
    ];
    for status in all {
        assert_eq!(TaskStatus::from_str(status.as_str()), status);
    }
    assert_eq!(TaskStatus::AwaitingApproval.as_str(), "awaiting_approval");
    assert_eq!(TaskStatus::from_str("bogus"), TaskStatus::Failed);
}

#[test]
fn task_types_read_back_from_their_names() {
    assert_eq!(TaskType::from_str(TaskType::Coding.as_str()), TaskType::Coding);
    assert_eq!(TaskType::from_str(TaskType::Research.as_str()), TaskType::Research);
    assert_eq!(TaskType::from_str("Coding"), TaskType::Research);
}

#[test]
fn new_tasks_are_accepted_and_unpublished() {
    let task = TaskRecord::new(5, 6, 7, "t".into(), "p".into(), TaskType::Research);
    assert_eq!(task.id.len(), 36);
    for (i, c) in task.id.chars().enumerate() {
        if [8, 13, 18, 23].contains(&i) {
            assert_eq!(c, '-');
        } else {
            assert!(c.is_ascii_digit() || ('a'..='f').contains(&c));
        }
    }
    assert_eq!(task.id.chars().nth(14), Some('4'));
    let other = TaskRecord::new(5, 6, 7, "t".into(), "p".into(), TaskType::Research);
    assert_ne!(task.id, other.id);
    assert_eq!(task.status, TaskStatus::Accepted);
    assert!(!task.publish);
    assert_eq!(task.created_at, task.updated_at);
    let at: Vec<char> = task.created_at.chars().collect();
    assert!(task.created_at.ends_with("+00:00"));
    assert_eq!((at[4], at[7], at[10], at[13], at[16]), ('-', '-', 'T', ':', ':'));
    assert!(at[..4].iter().all(|c| c.is_ascii_digit()));
    assert_eq!((task.thread_id, task.channel_id, task.discord_message_id), (5, 6, 7));
}

#[test]
fn stored_rows_read_back_as_the_task() {
    let mut task = TaskRecord::new(u64::MAX, 0, 123, "t".into(), "p".into(), TaskType::Coding);
    task.status = TaskStatus::Summarizing;
    task.publish = true;
    task.notion_page_url = Some("u".into());
    let row = task_row(&task);
    assert_eq!(row.thread_id, "18446744073709551615");
    assert_eq!(row.channel_id, "0");
    assert_eq!(row.task_type, "coding");
    assert_eq!(row.status, "summarizing");
    assert_eq!(row.publish, 1);
    let back = row_to_task(row);
    assert_eq!(back.thread_id, u64::MAX);
    assert_eq!(back.discord_message_id, 123);
    assert_eq!(back.status, TaskStatus::Summarizing);
    assert_eq!(back.task_type, TaskType::Coding);
    assert!(back.publish);
    assert_eq!(back.notion_page_url.as_deref(), Some("u"));
    assert_eq!(bool_to_sql(false), 0);
}

#[test]
fn malformed_ids_read_as_zero() {
    let task = TaskRecord::new(1, 2, 3, "t".into(), "p".into(), TaskType::Research);
    let mut row = task_row(&task);
    row.thread_id = "abc".into();
    row.channel_id = "+42".into();
    row.discord_message_id = "99999999999999999999".into();
    row.publish = 7;
    let back = row_to_task(row);
    assert_eq!(back.thread_id, 0);
    assert_eq!(back.channel_id, 42);
    assert_eq!(back.discord_message_id, 0);
    assert!(back.publish);
}
