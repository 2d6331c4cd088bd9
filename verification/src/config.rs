//! The program's settings, and how they are derived from the environment's values.
use vstd::prelude::*;

use crate::error::AgentError;
use crate::text::{
    CharClass, chars_of, parse_unsigned, parse_unsigned_vec, split_by, split_by_vec, trim,
    trim_vec, views,
};

verus! {

/// All settings of the bot and the command-line agent.
#[derive(Clone, Debug)]
pub struct AppConfig {
    pub discord_token: String,
    pub discord_allowed_channel_ids: Vec<u64>,
    pub sqlite_path: String,
    pub log_file_path: String,
    pub research_prompt_path: String,
    pub codex_bin: String,
    pub codex_model: Option<String>,
    pub worker_concurrency: usize,
    pub notion_token: Option<String>,
    pub notion_task_database_id: Option<String>,
    pub public_base_url: String,
}

/// The environment's value of each setting, `None` where the variable is unset.
#[derive(Clone, Debug)]
pub struct EnvValues {
    pub discord_token: Option<String>,
    pub discord_allowed_channel_ids: Option<String>,
    pub sqlite_path: Option<String>,
    pub log_file_path: Option<String>,
    pub research_prompt_path: Option<String>,
    pub codex_bin: Option<String>,
    pub codex_model: Option<String>,
    pub worker_concurrency: Option<String>,
    pub notion_token: Option<String>,
    pub notion_task_database_id: Option<String>,
    pub public_base_url: Option<String>,
}

pub open spec fn value_or(v: Option<String>, default: Seq<char>) -> Seq<char> {
    match v {
        Some(s) => s@,
        None => default,
    }
}

/// A value that is set and not empty.
pub open spec fn non_empty(v: Option<String>) -> Option<Seq<char>> {
    match v {
        Some(s) => if s@.len() > 0 {
            Some(s@)
        } else {
            None
        },
        None => None,
    }
}

pub open spec fn option_view(v: Option<String>) -> Option<Seq<char>> {
    match v {
        Some(s) => Some(s@),
        None => None,
    }
}

/// The number of workers: the value read as an unsigned number, at least 1; 1 where it is
/// unset or not a number.
pub open spec fn worker_count(v: Option<String>) -> int {
    match v {
        Some(s) => match parse_unsigned(s@, usize::MAX as int) {
            Some(n) => if n < 1 {
                1
            } else {
                n
            },
            None => 1,
        },
        None => 1,
    }
}

/// The channel ids of the comma-separated pieces, each trimmed; pieces that are not
/// numbers are skipped.
pub open spec fn ids_of(pieces: Seq<Seq<char>>) -> Seq<u64>
    decreases pieces.len(),
{
    if pieces.len() == 0 {
        Seq::empty()
    } else {
        let rest = ids_of(pieces.drop_last());
        match parse_unsigned(trim(pieces.last()), u64::MAX as int) {
            Some(v) => rest.push(v as u64),
            None => rest,
        }
    }
}

pub open spec fn channel_id_list(s: Seq<char>) -> Seq<u64> {
    ids_of(split_by(s, CharClass::Exactly(','), true))
}

/// The allowed channel ids written as a comma-separated list.
pub fn parse_channel_ids(list: &str) -> (ids: Vec<u64>)
    ensures
        ids@ == channel_id_list(list@),
{
    let chars = chars_of(list);
    let pieces = split_by_vec(&chars, CharClass::Exactly(','), true);
    let ghost pv = views(pieces@);
    let mut ids: Vec<u64> = Vec::new();
    let mut i: usize = 0;
    while i < pieces.len()
        invariant
            i <= pieces.len(),
            pv == views(pieces@),
            ids@ == ids_of(pv.take(i as int)),
        decreases pieces.len() - i,
    {
        assert(pv.take(i + 1).drop_last() =~= pv.take(i as int));
        assert(pv.take(i + 1).last() == pieces@[i as int]@);
        let piece = trim_vec(&pieces[i]);
        match parse_unsigned_vec(&piece, u64::MAX) {
            Some(v) => ids.push(v),
            None => {},
        }
        i = i + 1;
    }
    assert(pv.take(pieces.len() as int) =~= pv);
    ids
}

pub fn parse_worker_count(v: &Option<String>) -> (n: usize)
    ensures
        n as int == worker_count(*v),
{
    match v {
        Some(s) => {
            let chars = chars_of(s.as_str());
            match parse_unsigned_vec(&chars, usize::MAX as u64) {
                Some(n) => {
                    if n < 1 {
                        1
                    } else {
                        n as usize
                    }
                },
                None => 1,
            }
        },
        None => 1,
    }
}

/// The bot always runs at least one worker, whatever the setting holds.
pub proof fn there_is_always_a_worker(v: Option<String>)
    ensures
        1 <= worker_count(v) <= usize::MAX,
{
}

fn string_or(v: &Option<String>, default: &str) -> (s: String)
    ensures
        s@ == value_or(*v, default@),
{
    match v {
        Some(s) => s.clone(),
        None => String::from_str(default),
    }
}

fn keep_non_empty(v: &Option<String>) -> (r: Option<String>)
    ensures
        option_view(r) == non_empty(*v),
{
    match v {
        Some(s) => if s.as_str().unicode_len() > 0 {
            Some(s.clone())
        } else {
            None
        },
        None => None,
    }
}

impl AppConfig {
    /// The settings derived from the environment's values, with the documented defaults.
    pub fn from_values(values: &EnvValues) -> (c: AppConfig)
        ensures
            c.discord_token@ == value_or(values.discord_token, Seq::empty()),
            c.discord_allowed_channel_ids@ == channel_id_list(
                value_or(values.discord_allowed_channel_ids, Seq::empty()),
            ),
            c.sqlite_path@ == value_or(values.sqlite_path, "data/discord-agent.sqlite3"@),
            c.log_file_path@ == value_or(values.log_file_path, "logs/discord-agent.log"@),
            c.research_prompt_path@ == value_or(
                values.research_prompt_path,
                "prompts/research.md"@,
            ),
            c.codex_bin@ == value_or(values.codex_bin, "codex"@),
            option_view(c.codex_model) == non_empty(values.codex_model),
            c.worker_concurrency as int == worker_count(values.worker_concurrency),
            option_view(c.notion_token) == non_empty(values.notion_token),
            option_view(c.notion_task_database_id) == non_empty(values.notion_task_database_id),
            c.public_base_url@ == value_or(values.public_base_url, "http://localhost:3000"@),
    {
        proof {
            reveal_strlit("");
            assert(""@ =~= Seq::<char>::empty());
        }
        let ids = match &values.discord_allowed_channel_ids {
            Some(s) => parse_channel_ids(s.as_str()),
            None => parse_channel_ids(""),
        };
        AppConfig {
            discord_token: string_or(&values.discord_token, ""),
            discord_allowed_channel_ids: ids,
            sqlite_path: string_or(&values.sqlite_path, "data/discord-agent.sqlite3"),
            log_file_path: string_or(&values.log_file_path, "logs/discord-agent.log"),
            research_prompt_path: string_or(&values.research_prompt_path, "prompts/research.md"),
            codex_bin: string_or(&values.codex_bin, "codex"),
            codex_model: keep_non_empty(&values.codex_model),
            worker_concurrency: parse_worker_count(&values.worker_concurrency),
            notion_token: keep_non_empty(&values.notion_token),
            notion_task_database_id: keep_non_empty(&values.notion_task_database_id),
            public_base_url: string_or(&values.public_base_url, "http://localhost:3000"),
        }
    }

    /// The bot cannot start without a Discord token.
    pub fn validate_for_bot(&self) -> (r: Result<(), AgentError>)
        ensures
            r is Ok <==> self.discord_token@.len() > 0,
            r is Err ==> r == Err::<(), AgentError>(AgentError::MissingDiscordToken),
    {
        if self.discord_token.as_str().unicode_len() == 0 {
            return Err(AgentError::MissingDiscordToken);
        }
        Ok(())
    }
}

} // verus!
