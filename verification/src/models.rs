//! Tasks, their kinds and their states.
use vstd::prelude::*;

use crate::text::str_equal;

verus! {

/// What a task asks for.
#[derive(Clone, Copy, Debug, PartialEq, Eq, Structural)]
pub enum TaskType {
    Research,
    Coding,
}

/// The stored name of a task type.
pub open spec fn task_type_name(t: TaskType) -> Seq<char> {
    match t {
        TaskType::Research => "research"@,
        TaskType::Coding => "coding"@,
    }
}

/// The task type that a stored name stands for; anything but `coding` is research.
pub open spec fn task_type_named(s: Seq<char>) -> TaskType {
    if s == "coding"@ {
        TaskType::Coding
    } else {
        TaskType::Research
    }
}

impl TaskType {
    pub fn as_str(&self) -> (s: &'static str)
        ensures
            s@ == task_type_name(*self),
    {
        match self {
            TaskType::Research => "research",
            TaskType::Coding => "coding",
        }
    }

    pub fn from_str(value: &str) -> (t: TaskType)
        ensures
            t == task_type_named(value@),
    {
        if str_equal(value, "coding") {
            TaskType::Coding
        } else {
            TaskType::Research
        }
    }
}

/// Where a task stands in its life.
#[derive(Clone, Copy, Debug, PartialEq, Eq, Structural)]
pub enum TaskStatus {
    Accepted,
    Queued,
    Running,
    AwaitingApproval,
    Summarizing,
    Completed,
    Failed,
    Rejected,
}

/// The stored name of a status.
pub open spec fn status_name(s: TaskStatus) -> Seq<char> {
    match s {
        TaskStatus::Accepted => "accepted"@,
        TaskStatus::Queued => "queued"@,
        TaskStatus::Running => "running"@,
        TaskStatus::AwaitingApproval => "awaiting_approval"@,
        TaskStatus::Summarizing => "summarizing"@,
        TaskStatus::Completed => "completed"@,
        TaskStatus::Failed => "failed"@,
        TaskStatus::Rejected => "rejected"@,
    }
}

/// The status that a stored name stands for; a name that is no status's reads as failed.
pub open spec fn status_named(v: Seq<char>) -> TaskStatus {
    if v == "accepted"@ {
        TaskStatus::Accepted
    } else if v == "queued"@ {
        TaskStatus::Queued
    } else if v == "running"@ {
        TaskStatus::Running
    } else if v == "awaiting_approval"@ {
        TaskStatus::AwaitingApproval
    } else if v == "summarizing"@ {
        TaskStatus::Summarizing
    } else if v == "completed"@ {
        TaskStatus::Completed
    } else if v == "rejected"@ {
        TaskStatus::Rejected
    } else {
        TaskStatus::Failed
    }
}

impl TaskStatus {
    pub fn as_str(&self) -> (s: &'static str)
        ensures
            s@ == status_name(*self),
    {
        match self {
            TaskStatus::Accepted => "accepted",
            TaskStatus::Queued => "queued",
            TaskStatus::Running => "running",
            TaskStatus::AwaitingApproval => "awaiting_approval",
            TaskStatus::Summarizing => "summarizing",
            TaskStatus::Completed => "completed",
            TaskStatus::Failed => "failed",
            TaskStatus::Rejected => "rejected",
        }
    }

    pub fn from_str(value: &str) -> (s: TaskStatus)
        ensures
            s == status_named(value@),
    {
        if str_equal(value, "accepted") {
            TaskStatus::Accepted
        } else if str_equal(value, "queued") {
            TaskStatus::Queued
        } else if str_equal(value, "running") {
            TaskStatus::Running
        } else if str_equal(value, "awaiting_approval") {
            TaskStatus::AwaitingApproval
        } else if str_equal(value, "summarizing") {
            TaskStatus::Summarizing
        } else if str_equal(value, "completed") {
            TaskStatus::Completed
        } else if str_equal(value, "rejected") {
            TaskStatus::Rejected
        } else {
            TaskStatus::Failed
        }
    }
}

/// Reading back the stored name of a task type gives that type.
pub proof fn task_type_name_round_trip(t: TaskType)
    ensures
        task_type_named(task_type_name(t)) == t,
{
    reveal_strlit("research");
    reveal_strlit("coding");
    assert("research"@.len() != "coding"@.len());
}

/// Reading back the stored name of a status gives that status.
pub proof fn status_name_round_trip(s: TaskStatus)
    ensures
        status_named(status_name(s)) == s,
{
    reveal_strlit("accepted");
    reveal_strlit("queued");
    reveal_strlit("running");
    reveal_strlit("awaiting_approval");
    reveal_strlit("summarizing");
    reveal_strlit("completed");
    reveal_strlit("failed");
    reveal_strlit("rejected");
    assert("accepted"@[0] != "rejected"@[0]);
    assert("queued"@[0] != "failed"@[0]);
    assert("accepted"@.len() == 8 && "queued"@.len() == 6 && "running"@.len() == 7);
    assert("awaiting_approval"@.len() == 17 && "summarizing"@.len() == 11);
    assert("completed"@.len() == 9 && "failed"@.len() == 6 && "rejected"@.len() == 8);
}

/// Distinct statuses have distinct stored names.
pub proof fn status_names_distinct(a: TaskStatus, b: TaskStatus)
    requires
        a != b,
    ensures
        status_name(a) != status_name(b),
{
    status_name_round_trip(a);
    status_name_round_trip(b);
}

/// One task: the request, where it came from, and what became of it.
#[derive(Clone, Debug)]
pub struct TaskRecord {
    pub id: String,
    pub thread_id: u64,
    pub channel_id: u64,
    pub discord_message_id: u64,
    pub title: String,
    pub prompt: String,
    pub input_source_path: Option<String>,
    pub input_payload: Option<String>,
    pub task_type: TaskType,
    pub status: TaskStatus,
    pub publish: bool,
    pub public_summary: Option<String>,
    pub raw_output: Option<String>,
    pub notion_page_id: Option<String>,
    pub notion_page_url: Option<String>,
    pub error_text: Option<String>,
    pub started_at: Option<String>,
    pub completed_at: Option<String>,
    pub created_at: String,
    pub updated_at: String,
}

/// The characters from `a` up to `b` are ASCII digits.
pub open spec fn digits_between(s: Seq<char>, a: int, b: int) -> bool {
    forall|i: int| a <= i < b ==> '0' <= #[trigger] s[i] <= '9'
}

/// The layout of an RFC 3339 time in UTC as `DateTime::to_rfc3339` writes it, with a year
/// part of `y` characters and a fraction part of `f`: the year (four digits, or `+` and
/// at least five digits past 9999), `-MM-DDThh:mm:ss`, then nothing or `.` and 3, 6 or 9
/// digits, then `+00:00`.
pub open spec fn rfc3339_utc_layout(s: Seq<char>, y: int, f: int) -> bool {
    &&& (y == 4 && digits_between(s, 0, 4)) || (y >= 6 && s[0] == '+' && digits_between(s, 1, y))
    &&& f == 0 || ((f == 4 || f == 7 || f == 10) && s[y + 15] == '.' && digits_between(
        s,
        y + 16,
        y + 15 + f,
    ))
    &&& s.len() == y + 15 + f + 6
    &&& s[y] == '-' && s[y + 3] == '-' && s[y + 6] == 'T' && s[y + 9] == ':' && s[y + 12] == ':'
    &&& digits_between(s, y + 1, y + 3) && digits_between(s, y + 4, y + 6)
    &&& digits_between(s, y + 7, y + 9) && digits_between(s, y + 10, y + 12)
    &&& digits_between(s, y + 13, y + 15)
    &&& s.subrange(y + 15 + f, s.len() as int) == "+00:00"@
}

/// An RFC 3339 time in UTC, such as `2024-05-01T12:34:56.789+00:00`.
pub open spec fn is_rfc3339_utc_text(s: Seq<char>) -> bool {
    exists|y: int, f: int| rfc3339_utc_layout(s, y, f)
}

/// `chrono::Utc::now()` formatted by `DateTime::to_rfc3339`. Which time it is depends on
/// the clock; the contract claims only the layout that `to_rfc3339` writes for a UTC time
/// (offset `+00:00`, sub-seconds left out or given to 3, 6 or 9 digits).
#[verifier::external_body]
fn current_timestamp() -> (now: String)
    ensures
        is_rfc3339_utc_text(now@),
{
    chrono::Utc::now().to_rfc3339()
}

/// The text of a version-4 UUID in hyphenated lower-case form, such as
/// `67e55044-10b1-426f-9247-bb680e5fe0c8`: 36 characters, hyphens after the 8th, 12th, 16th
/// and 20th hex digit, and the version digit `4` first in the third group.
pub open spec fn is_uuid_v4_text(s: Seq<char>) -> bool {
    &&& s.len() == 36
    &&& forall|i: int|
        0 <= i < 36 ==> if i == 8 || i == 13 || i == 18 || i == 23 {
            s[i] == '-'
        } else {
            ('0' <= s[i] <= '9') || ('a' <= s[i] <= 'f')
        }
    &&& s[14] == '4'
}

/// `uuid::Uuid::new_v4()` formatted by its `Display` impl, which writes the hyphenated
/// lower-case form; the id itself is random, so only that form is stated.
#[verifier::external_body]
fn random_task_id() -> (id: String)
    ensures
        is_uuid_v4_text(id@),
{
    uuid::Uuid::new_v4().to_string()
}

impl TaskRecord {
    /// A freshly accepted task with a random id, created and updated now. The clock and the
    /// random source belong to the machine: `Utc::now` panics where the system clock reads
    /// before 1970, and `Uuid::new_v4` where the operating system's random source fails.
    pub fn new(
        thread_id: u64,
        channel_id: u64,
        discord_message_id: u64,
        title: String,
        prompt: String,
        task_type: TaskType,
    ) -> (t: TaskRecord)
        ensures
            is_uuid_v4_text(t.id@),
            t.thread_id == thread_id,
            t.channel_id == channel_id,
            t.discord_message_id == discord_message_id,
            t.title == title,
            t.prompt == prompt,
            t.input_source_path is None,
            t.input_payload is None,
            t.task_type == task_type,
            t.status == TaskStatus::Accepted,
            !t.publish,
            t.public_summary is None,
            t.raw_output is None,
            t.notion_page_id is None,
            t.notion_page_url is None,
            t.error_text is None,
            t.started_at is None,
            t.completed_at is None,
            t.created_at == t.updated_at,
            is_rfc3339_utc_text(t.created_at@),
    {
        let now = current_timestamp();
        TaskRecord {
            id: random_task_id(),
            thread_id,
            channel_id,
            discord_message_id,
            title,
            prompt,
            input_source_path: None,
            input_payload: None,
            task_type,
            status: TaskStatus::Accepted,
            publish: false,
            public_summary: None,
            raw_output: None,
            notion_page_id: None,
            notion_page_url: None,
            error_text: None,
            started_at: None,
            completed_at: None,
            created_at: now.clone(),
            updated_at: now,
        }
    }
}

/// A queued request to run the task with this id.
#[derive(Clone, Debug)]
pub struct TaskJob {
    pub task_id: String,
}

/// What the public feed shows of a task.
#[derive(Clone, Debug)]
pub struct PublicTaskSummary {
    pub task_id: String,
    pub title: String,
    pub summary: String,
    pub completed_at: Option<String>,
    pub updated_at: String,
}

} // verus!
