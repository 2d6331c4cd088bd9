//! How a task is laid out in a row of the `tasks` table, and read back from one.
use vstd::prelude::*;

use crate::models::{
    status_name, status_name_round_trip, status_named, task_type_name,
    task_type_name_round_trip, task_type_named, TaskRecord, TaskStatus, TaskType,
};
use crate::text::{
    all_digits, chars_of, decimal, decimal_vec, digit_char, digit_value, digits_value,
    is_ascii_digit, parse_unsigned, parse_unsigned_vec, string_of,
};

verus! {

/// The columns of a task's row, as SQLite holds them: ids as decimal text, the type and the
/// status by name, the publish flag as an integer.
#[derive(Clone, Debug)]
pub struct TaskRow {
    pub id: String,
    pub thread_id: String,
    pub channel_id: String,
    pub discord_message_id: String,
    pub title: String,
    pub prompt: String,
    pub input_source_path: Option<String>,
    pub input_payload: Option<String>,
    pub task_type: String,
    pub status: String,
    pub publish: i64,
    pub public_summary: Option<String>,
    pub raw_output: Option<String>,
    pub notion_page_id: Option<String>,
    pub notion_page_url: Option<String>,
    pub error_text: Option<String>,
    pub started_at: Option<String>,
    pub completed_at: Option<String>,
    pub created_at: String,
    pub updated_at: String,
}

/// How a flag is stored: 1 for true, 0 for false.
pub fn bool_to_sql(value: bool) -> (v: i64)
    ensures
        v == (if value {
            1i64
        } else {
            0i64
        }),
{
    if value {
        1
    } else {
        0
    }
}

/// A stored id read back: its value where it is a number, 0 otherwise.
pub open spec fn id_from_text(t: Seq<char>) -> u64 {
    match parse_unsigned(t, u64::MAX as int) {
        Some(v) => v as u64,
        None => 0,
    }
}

/// The row that stores a task.
pub open spec fn row_of(task: TaskRecord, row: TaskRow) -> bool {
    &&& row.id == task.id
    &&& row.thread_id@ == decimal(task.thread_id as nat)
    &&& row.channel_id@ == decimal(task.channel_id as nat)
    &&& row.discord_message_id@ == decimal(task.discord_message_id as nat)
    &&& row.title == task.title
    &&& row.prompt == task.prompt
    &&& row.input_source_path == task.input_source_path
    &&& row.input_payload == task.input_payload
    &&& row.task_type@ == task_type_name(task.task_type)
    &&& row.status@ == status_name(task.status)
    &&& row.publish == (if task.publish {
        1i64
    } else {
        0i64
    })
    &&& row.public_summary == task.public_summary
    &&& row.raw_output == task.raw_output
    &&& row.notion_page_id == task.notion_page_id
    &&& row.notion_page_url == task.notion_page_url
    &&& row.error_text == task.error_text
    &&& row.started_at == task.started_at
    &&& row.completed_at == task.completed_at
    &&& row.created_at == task.created_at
    &&& row.updated_at == task.updated_at
}

/// The task that a row reads back as: ids that are not numbers read as 0, an unknown type
/// as research, an unknown status as failed, and any non-zero flag as set.
pub open spec fn task_of_row(row: TaskRow) -> TaskRecord {
    TaskRecord {
        id: row.id,
        thread_id: id_from_text(row.thread_id@),
        channel_id: id_from_text(row.channel_id@),
        discord_message_id: id_from_text(row.discord_message_id@),
        title: row.title,
        prompt: row.prompt,
        input_source_path: row.input_source_path,
        input_payload: row.input_payload,
        task_type: task_type_named(row.task_type@),
        status: status_named(row.status@),
        publish: row.publish != 0,
        public_summary: row.public_summary,
        raw_output: row.raw_output,
        notion_page_id: row.notion_page_id,
        notion_page_url: row.notion_page_url,
        error_text: row.error_text,
        started_at: row.started_at,
        completed_at: row.completed_at,
        created_at: row.created_at,
        updated_at: row.updated_at,
    }
}

fn id_text(v: u64) -> (s: String)
    ensures
        s@ == decimal(v as nat),
{
    string_of(&decimal_vec(v))
}

fn id_value(s: &String) -> (v: u64)
    ensures
        v == id_from_text(s@),
{
    let chars = chars_of(s.as_str());
    match parse_unsigned_vec(&chars, u64::MAX) {
        Some(v) => v,
        None => 0,
    }
}

fn copy_option(v: &Option<String>) -> (r: Option<String>)
    ensures
        r == *v,
{
    match v {
        Some(s) => Some(s.clone()),
        None => None,
    }
}

/// The row that stores a task.
pub fn task_row(task: &TaskRecord) -> (row: TaskRow)
    ensures
        row_of(*task, row),
{
    TaskRow {
        id: task.id.clone(),
        thread_id: id_text(task.thread_id),
        channel_id: id_text(task.channel_id),
        discord_message_id: id_text(task.discord_message_id),
        title: task.title.clone(),
        prompt: task.prompt.clone(),
        input_source_path: copy_option(&task.input_source_path),
        input_payload: copy_option(&task.input_payload),
        task_type: String::from_str(task.task_type.as_str()),
        status: String::from_str(task.status.as_str()),
        publish: bool_to_sql(task.publish),
        public_summary: copy_option(&task.public_summary),
        raw_output: copy_option(&task.raw_output),
        notion_page_id: copy_option(&task.notion_page_id),
        notion_page_url: copy_option(&task.notion_page_url),
        error_text: copy_option(&task.error_text),
        started_at: copy_option(&task.started_at),
        completed_at: copy_option(&task.completed_at),
        created_at: task.created_at.clone(),
        updated_at: task.updated_at.clone(),
    }
}

/// The task that a row holds.
pub fn row_to_task(row: TaskRow) -> (task: TaskRecord)
    ensures
        task == task_of_row(row),
{
    let thread_id = id_value(&row.thread_id);
    let channel_id = id_value(&row.channel_id);
    let discord_message_id = id_value(&row.discord_message_id);
    let task_type = TaskType::from_str(row.task_type.as_str());
    let status = TaskStatus::from_str(row.status.as_str());
    TaskRecord {
        id: row.id,
        thread_id,
        channel_id,
        discord_message_id,
        title: row.title,
        prompt: row.prompt,
        input_source_path: row.input_source_path,
        input_payload: row.input_payload,
        task_type,
        status,
        publish: row.publish != 0,
        public_summary: row.public_summary,
        raw_output: row.raw_output,
        notion_page_id: row.notion_page_id,
        notion_page_url: row.notion_page_url,
        error_text: row.error_text,
        started_at: row.started_at,
        completed_at: row.completed_at,
        created_at: row.created_at,
        updated_at: row.updated_at,
    }
}

/// The decimal text of a number consists of digits whose value is that number.
pub proof fn decimal_digits_value(n: nat)
    ensures
        decimal(n).len() > 0,
        all_digits(decimal(n)),
        digits_value(decimal(n)) == n,
    decreases n,
{
    let d = (n % 10) as int;
    assert(digit_value(digit_char(d)) == d && is_ascii_digit(digit_char(d))) by {
        assert(0 <= d < 10);
    }
    if n < 10 {
        assert(decimal(n) =~= seq![digit_char(n as int)]);
        assert(decimal(n).drop_last() =~= Seq::<char>::empty());
        assert(n % 10 == n);
        assert(digits_value(decimal(n)) == 10 * digits_value(decimal(n).drop_last())
            + digit_value(decimal(n).last()));
    } else {
        decimal_digits_value(n / 10);
        let p = decimal(n / 10);
        assert(decimal(n) == p.push(digit_char(d)));
        assert(decimal(n).drop_last() =~= p);
        assert forall|i: int| 0 <= i < decimal(n).len() implies is_ascii_digit(
            #[trigger] decimal(n)[i],
        ) by {
            if i < p.len() {
                assert(decimal(n)[i] == p[i]);
            }
        }
        assert(decimal(n).last() == digit_char(d));
        assert(digits_value(decimal(n)) == 10 * digits_value(decimal(n).drop_last())
            + digit_value(decimal(n).last()));
        assert(10 * (n / 10) + d == n);
    }
}

/// A stored id reads back as the same id.
pub proof fn id_text_round_trip(n: u64)
    ensures
        id_from_text(decimal(n as nat)) == n,
{
    decimal_digits_value(n as nat);
    assert(decimal(n as nat)[0] != '+') by {
        assert(is_ascii_digit(decimal(n as nat)[0]));
    }
}

/// What is stored of a task reads back as the same task.
pub proof fn stored_task_round_trip(task: TaskRecord, row: TaskRow)
    requires
        row_of(task, row),
    ensures
        task_of_row(row) == task,
{
    id_text_round_trip(task.thread_id);
    id_text_round_trip(task.channel_id);
    id_text_round_trip(task.discord_message_id);
    task_type_name_round_trip(task.task_type);
    status_name_round_trip(task.status);
}

} // verus!
