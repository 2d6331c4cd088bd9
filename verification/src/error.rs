//! The errors that the library's decisions produce, and their messages.
use vstd::prelude::*;

verus! {

/// An error that one of the library's checks reports.
#[derive(Debug)]
pub enum AgentError {
    /// The bot was started without a Discord token.
    MissingDiscordToken,
    /// Codex printed nothing on either stream.
    CodexNoOutput,
    /// A command-line flag was given as the last argument, without its value.
    MissingFlagValue(String),
    /// A required command-line flag was not given.
    MissingFlag(String),
    /// A Notion call answered with a status outside 200..=299.
    NotionStatus { operation: String, status: String, body: String },
    /// A created Notion page came back without an `id`.
    NotionMissingPageId,
    /// A created Notion page came back without a `url`.
    NotionMissingPageUrl,
    /// A Notion database query came back without `results`.
    NotionMissingResults,
    /// An input directory holds no file of a supported type.
    EmptyInputDirectory(String),
    /// An input file is not of a supported type.
    UnsupportedInputFile(String),
    /// An input path is neither a file nor a directory.
    InputNotFound(String),
    /// The command-line agent was started without a command.
    CliUsage,
    /// The command-line agent was given a command it does not know.
    UnknownCommand(String),
}

/// The text of an error, as the program reports it.
pub open spec fn message_of(e: AgentError) -> Seq<char> {
    match e {
        AgentError::MissingDiscordToken => "DISCORD_TOKEN is required"@,
        AgentError::CodexNoOutput => "codex returned no output"@,
        AgentError::MissingFlagValue(flag) => "missing value for "@ + flag@,
        AgentError::MissingFlag(flag) => "missing required flag "@ + flag@,
        AgentError::NotionStatus { operation, status, body } => operation@ + " returned error: "@
            + status@ + " "@ + body@,
        AgentError::NotionMissingPageId => "notion response did not include page id"@,
        AgentError::NotionMissingPageUrl => "notion response did not include page url"@,
        AgentError::NotionMissingResults => "notion query did not include results"@,
        AgentError::EmptyInputDirectory(path) => "input directory does not contain supported files: "@
            + path@,
        AgentError::UnsupportedInputFile(path) => "unsupported input file type: "@ + path@,
        AgentError::InputNotFound(path) => "input path not found: "@ + path@,
        AgentError::CliUsage => "usage: agent-cli <submit|status|result|worker> ..."@,
        AgentError::UnknownCommand(c) => "unknown command: "@ + c@,
    }
}

impl AgentError {
    /// The error's message.
    pub fn message(&self) -> (m: String)
        ensures
            m@ == message_of(*self),
    {
        let mut m = String::new();
        match self {
            AgentError::MissingDiscordToken => m.append("DISCORD_TOKEN is required"),
            AgentError::CodexNoOutput => m.append("codex returned no output"),
            AgentError::MissingFlagValue(flag) => {
                m.append("missing value for ");
                m.append(flag.as_str());
            },
            AgentError::MissingFlag(flag) => {
                m.append("missing required flag ");
                m.append(flag.as_str());
            },
            AgentError::NotionStatus { operation, status, body } => {
                m.append(operation.as_str());
                m.append(" returned error: ");
                m.append(status.as_str());
                m.append(" ");
                m.append(body.as_str());
            },
            AgentError::NotionMissingPageId => m.append("notion response did not include page id"),
            AgentError::NotionMissingPageUrl => m.append(
                "notion response did not include page url",
            ),
            AgentError::NotionMissingResults => m.append("notion query did not include results"),
            AgentError::EmptyInputDirectory(path) => {
                m.append("input directory does not contain supported files: ");
                m.append(path.as_str());
            },
            AgentError::UnsupportedInputFile(path) => {
                m.append("unsupported input file type: ");
                m.append(path.as_str());
            },
            AgentError::InputNotFound(path) => {
                m.append("input path not found: ");
                m.append(path.as_str());
            },
            AgentError::CliUsage => m.append("usage: agent-cli <submit|status|result|worker> ..."),
            AgentError::UnknownCommand(c) => {
                m.append("unknown command: ");
                m.append(c.as_str());
            },
        }
        m
    }
}

} // verus!
