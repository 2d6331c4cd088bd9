# discord-agent

A Discord bot that takes research requests posted in allowed server channels, runs them
with the Codex CLI, stores the tasks in SQLite, publishes the reports to a Notion database,
and serves the published summaries as an RSS feed and public task pages. A command-line
agent submits tasks with local input files.

The decisions and the text processing are a library verified with Verus; the programs
around it do the I/O.

## Layout

- `src/` — the verified library:
  - `text.rs`: character-level text operations (trimming, splitting, lines, searching,
    replacing, decimal numbers) with their specifications and lemmas;
  - `order.rs`: lexicographic order of texts and sorted lists without repeats;
  - `models.rs`, `error.rs`, `config.rs`: tasks and their states, errors, settings;
  - `discord_bot.rs`: which commands run where, titles, prompts and URLs of requests,
    and the bot's messages;
  - `codex.rs`, `task_processor.rs`: the Codex prompt and command line, the stored raw
    output, the public one-sentence summary, and what happens after a run;
  - `notion.rs`, `json.rs`: report sections, the Notion page of a task, and reading
    Notion's answers;
  - `db.rs`, `rss_server.rs`, `local_input.rs`, `cli.rs`: the stored row of a task, the
    feed and page markup, local input files, and the command-line agent's arguments.
- `tests/` — tests of the library on concrete values.
- `app/` — the programs: the Discord bot (`serenity`), the feed server (`axum`), the
  command-line agent, SQLite (`rusqlite`), the Notion API (`reqwest`) and the Codex process.

The program that `app/` builds picks its role from the name it is started under: `bot`,
`rss` or `agent-cli`.

## Settings

`DISCORD_TOKEN` (required by the bot), `DISCORD_ALLOWED_CHANNEL_IDS` (comma-separated),
`SQLITE_PATH`, `LOG_FILE_PATH`, `RESEARCH_PROMPT_PATH`, `CODEX_BIN`, `CODEX_MODEL`,
`WORKER_CONCURRENCY`, `NOTION_TOKEN`, `NOTION_TASK_DATABASE_ID`, `PUBLIC_BASE_URL`; the feed
server binds `0.0.0.0:$PORT` where `PORT` is set, else `RSS_BIND_ADDR` (by default
`0.0.0.0:8080`).
