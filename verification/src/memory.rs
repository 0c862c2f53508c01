//! What the agent remembers: the chat of a profile, and the frames of its
//! context program.

use vstd::prelude::*;

use crate::json::{field, or_null, Json, JsonView};
use crate::json_text::{json_parsed, json_printed, parse, parse_view, print};
use crate::paths::{below, join_path, profile_directory, profile_root};
use crate::progress::compact_progress_text;
use crate::text::{
    chars_of, concat, decimal, decimal_of, ends_with, first_chars, first_position, has_text,
    is_blank, join, joined, lemma_long_text_is_cut, lines, occurs_at, opt_text, position_of,
    rest_from, shortened, split_lines, squeezed, starts_with, texts, trimmed, words,
};

verus! {

/// How many messages of the chat are read.
pub const CHAT_CONTEXT_LIMIT: u64 = 8;

/// How long the context program may take.
pub const CTX_TIMEOUT_MS: u64 = 5_000;

/// The statements that make the table of the chat.
pub const CHAT_SCHEMA_SQL: &'static str = "PRAGMA journal_mode=WAL; PRAGMA synchronous=NORMAL; CREATE TABLE IF NOT EXISTS chat_messages( id INTEGER PRIMARY KEY AUTOINCREMENT, turn_id TEXT NOT NULL, profile TEXT NOT NULL, role TEXT NOT NULL, text TEXT NOT NULL, action_json TEXT, evidence_json TEXT, model TEXT NOT NULL, created_at_ms INTEGER NOT NULL); CREATE INDEX IF NOT EXISTS idx_chat_messages_profile_id ON chat_messages(profile, id);";

/// The query for the newest messages, the newest first: the role and the text,
/// with a tab between them.
pub const CHAT_RECENT_SQL: &'static str = "SELECT role || char(9) || replace(replace(text, char(10), ' '), char(9), ' ') FROM chat_messages ORDER BY id DESC LIMIT 8;";

/// What is said where the home directory is not known.
pub const NO_HOME: &'static str = "environment variable not found";

/// A text in one line, at most `limit` characters long.
pub open spec fn one_line(value: Seq<char>, limit: nat) -> Seq<char> {
    shortened(squeezed(value), limit)
}

/// A text in one line, at most `limit` characters long.
pub fn compact_text(value: &str, limit: usize) -> (result: String)
    ensures
        result@ == one_line(value@, limit as nat),
{
    compact_progress_text(value, limit)
}

/// A text with every quotation mark doubled.
pub open spec fn doubled(s: Seq<char>) -> Seq<char>
    decreases s.len(),
{
    if s.len() == 0 {
        Seq::empty()
    } else if s.last() == '\'' {
        doubled(s.drop_last()) + seq!['\'', '\'']
    } else {
        doubled(s.drop_last()).push(s.last())
    }
}

/// A text as SQL writes it.
pub open spec fn quoted(s: Seq<char>) -> Seq<char> {
    seq!['\''] + doubled(s) + seq!['\'']
}

/// A text as SQL writes it.
pub fn sql_quote(value: &str) -> (result: String)
    ensures
        result@ == quoted(value@),
{
    let chars = chars_of(value);
    let mut result = String::new();
    result.push('\'');
    let mut i: usize = 0;
    assert(chars@.take(0).len() == 0);
    assert(result@ =~= seq!['\''] + doubled(chars@.take(0)));
    while i < chars.len()
        invariant
            i <= chars@.len(),
            result@ == seq!['\''] + doubled(chars@.take(i as int)),
        decreases chars@.len() - i,
    {
        let c = chars[i];
        let ghost before = doubled(chars@.take(i as int));
        assert(chars@.take(i + 1).drop_last() =~= chars@.take(i as int));
        if c == '\'' {
            result.push('\'');
        }
        result.push(c);
        assert(result@ =~= seq!['\''] + doubled(chars@.take(i + 1)));
        i = i + 1;
    }
    assert(chars@.take(chars@.len() as int) =~= chars@);
    result.push('\'');
    assert(result@ =~= quoted(value@));
    result
}

/// What a text in which every quotation mark is doubled stands for.
pub open spec fn undoubled(s: Seq<char>) -> Seq<char>
    decreases s.len(),
{
    if s.len() == 0 {
        Seq::empty()
    } else if s.len() >= 2 && s.last() == '\'' && s[s.len() - 2] == '\'' {
        undoubled(s.take(s.len() - 2)).push('\'')
    } else {
        undoubled(s.drop_last()).push(s.last())
    }
}

proof fn lemma_doubled(s: Seq<char>)
    ensures
        undoubled(doubled(s)) == s,
    decreases s.len(),
{
    if s.len() > 0 {
        let rest = s.drop_last();
        lemma_doubled(rest);
        let d = doubled(s);
        if s.last() == '\'' {
            assert(d.take(d.len() - 2) =~= doubled(rest));
        } else {
            assert(d.drop_last() =~= doubled(rest));
        }
        assert(s =~= rest.push(s.last()));
    }
}

/// SQL reads back from a quoted text what was quoted: between the outer marks
/// no mark stands alone.
pub proof fn lemma_quoted_text_reads_back(s: Seq<char>)
    ensures
        ({
            let q = quoted(s);
            &&& q.len() >= 2
            &&& q[0] == '\'' && q.last() == '\''
            &&& undoubled(q.subrange(1, q.len() - 1)) == s
        }),
{
    let q = quoted(s);
    assert(q.subrange(1, q.len() - 1) =~= doubled(s));
    lemma_doubled(s);
}

/// The chat of a profile.
#[derive(Clone, Debug, PartialEq, Eq)]
pub struct ChatStore {
    pub profile: String,
    pub db_path: String,
}

/// One row of the chat. The fields are as SQL writes them.
pub open spec fn insert_row(
    turn_id: Seq<char>,
    profile: Seq<char>,
    role: Seq<char>,
    text: Seq<char>,
    action: Seq<char>,
    evidence: Seq<char>,
    model: Seq<char>,
) -> Seq<char> {
    "INSERT INTO chat_messages(turn_id, profile, role, text, action_json, evidence_json, model, created_at_ms) VALUES("@
        + turn_id + ", "@ + profile + ", "@ + role + ", "@ + text + ", "@ + action + ", "@ + evidence
        + ", "@ + model + ", CAST(strftime('%s','now') AS INTEGER) * 1000); "@
}

/// The statements that add a turn: what the user said and what was replied,
/// both or neither.
pub open spec fn append_sql(
    profile: Seq<char>,
    turn_id: Seq<char>,
    user_text: Seq<char>,
    assistant_text: Seq<char>,
    action_json: Seq<char>,
    evidence_json: Seq<char>,
    model: Seq<char>,
) -> Seq<char> {
    "BEGIN IMMEDIATE; "@ + insert_row(
        quoted(turn_id),
        quoted(profile),
        "'user'"@,
        quoted(user_text),
        "NULL"@,
        "NULL"@,
        quoted(model),
    ) + insert_row(
        quoted(turn_id),
        quoted(profile),
        "'assistant'"@,
        quoted(assistant_text),
        quoted(action_json),
        quoted(evidence_json),
        quoted(model),
    ) + "COMMIT;"@
}

fn row_sql(
    turn_id: &str,
    profile: &str,
    role: &str,
    text: &str,
    action: &str,
    evidence: &str,
    model: &str,
) -> (sql: String)
    ensures
        sql@ == insert_row(turn_id@, profile@, role@, text@, action@, evidence@, model@),
{
    let mut sql = "INSERT INTO chat_messages(turn_id, profile, role, text, action_json, evidence_json, model, created_at_ms) VALUES(".to_owned();
    sql.append(turn_id);
    sql.append(", ");
    sql.append(profile);
    sql.append(", ");
    sql.append(role);
    sql.append(", ");
    sql.append(text);
    sql.append(", ");
    sql.append(action);
    sql.append(", ");
    sql.append(evidence);
    sql.append(", ");
    sql.append(model);
    sql.append(", CAST(strftime('%s','now') AS INTEGER) * 1000); ");
    sql
}

/// A value as text; "null" where there is none.
pub open spec fn value_text(printed: Option<Seq<char>>) -> Seq<char> {
    match printed {
        Some(text) => text,
        None => "null"@,
    }
}

fn printed_value(value: &Option<Json>) -> (text: String)
    ensures
        text@ == value_text(json_printed(or_null(crate::json::opt_view(*value)))),
{
    let printed = match value {
        Some(value) => print(value),
        None => print(&Json::Null),
    };
    match printed {
        Some(text) => text,
        None => "null".to_owned(),
    }
}

/// A line of the chat: the role, and the text in short.
pub open spec fn chat_row(line: Seq<char>) -> Option<Seq<char>> {
    match first_position(line, "\t"@) {
        Some(at) => Some(line.take(at) + ": "@ + one_line(line.skip(at + 1), 220)),
        None => None,
    }
}

/// The lines of the chat from the last to the first; lines without a tab are
/// left out.
pub open spec fn chat_rows(rows: Seq<Seq<char>>) -> Seq<Seq<char>>
    decreases rows.len(),
{
    if rows.len() == 0 {
        Seq::empty()
    } else {
        let later = chat_rows(rows.skip(1));
        match chat_row(rows[0]) {
            Some(row) => later.push(row),
            None => later,
        }
    }
}

/// The chat as the planner reads it, the newest message last; `output` has the
/// newest first.
pub open spec fn chat_context(output: Seq<char>) -> Seq<char> {
    let rows = chat_rows(lines(output));
    if rows.len() == 0 {
        "Recent chat: none."@
    } else {
        "Recent chat:\n"@ + joined(rows, "\n"@)
    }
}

/// A message that the query gives is read as it was stored: the role, and the
/// text in short.
pub proof fn lemma_stored_message_reads_back(role: Seq<char>, text: Seq<char>)
    requires
        !role.contains('\t'),
    ensures
        chat_row(role + "\t"@ + text) == Some(role + ": "@ + one_line(text, 220)),
{
    let line = role + "\t"@ + text;
    reveal_strlit("\t");
    assert(crate::text::first_at(line, "\t"@, role.len() as int)) by {
        assert(line.subrange(role.len() as int, role.len() as int + 1) =~= "\t"@);
        assert forall|j: int| j < role.len() implies !crate::text::occurs_at(
            line,
            "\t"@,
            j,
        ) by {
            if crate::text::occurs_at(line, "\t"@, j) {
                assert(line.subrange(j, j + 1)[0] == "\t"@[0]);
                assert(line[j] == role[j]);
                assert(role.contains(role[j]));
            }
        }
    }
    crate::text::lemma_first_position(line, "\t"@, role.len() as int);
    assert(line.take(role.len() as int) =~= role);
    assert(line.skip(role.len() as int + 1) =~= text);
}

/// The query gives the newest message first; the planner reads it last.
pub proof fn lemma_newest_message_is_last(rows: Seq<Seq<char>>)
    requires
        rows.len() > 0,
        chat_row(rows[0]) is Some,
    ensures
        chat_rows(rows).len() > 0,
        Some(chat_rows(rows).last()) == chat_row(rows[0]),
        chat_rows(rows).drop_last() == chat_rows(rows.skip(1)),
{
    assert(chat_rows(rows).drop_last() =~= chat_rows(rows.skip(1)));
}

fn row_of(line: &str) -> (row: Option<String>)
    ensures
        opt_text(row) == chat_row(line@),
{
    proof {
        reveal_strlit("\t");
    }
    match position_of(line, "\t") {
        Some(at) => {
            let count = crate::text::char_count(line);
            assert(at + 1 <= count);
            let mut row = first_chars(line, at);
            row.append(": ");
            let text = rest_from(line, at + 1);
            row.append(compact_text(text.as_str(), 220).as_str());
            Some(row)
        },
        None => None,
    }
}

/// The chat as the planner reads it, from what the query gave.
pub fn recent_context_from(output: &str) -> (context: String)
    ensures
        context@ == chat_context(output@),
{
    let all = split_lines(output);
    let ghost views = texts(all@);
    let mut rows: Vec<String> = Vec::new();
    let mut i: usize = all.len();
    assert(views.skip(i as int).len() == 0);
    assert(texts(rows@) =~= chat_rows(views.skip(i as int)));
    while i > 0
        invariant
            i <= all@.len(),
            views == texts(all@),
            texts(rows@) == chat_rows(views.skip(i as int)),
        decreases i,
    {
        i = i - 1;
        let ghost before = texts(rows@);
        assert(views.skip(i as int).skip(1) =~= views.skip(i + 1));
        assert(views.skip(i as int)[0] == all@[i as int]@);
        if let Some(row) = row_of(all[i].as_str()) {
            rows.push(row);
            assert(texts(rows@) =~= before.push(row@));
        }
    }
    assert(views.skip(0) =~= views);
    if rows.len() == 0 {
        return "Recent chat: none.".to_owned();
    }
    concat("Recent chat:\n", join(&rows, "\n").as_str())
}

impl ChatStore {
    /// The chat of a profile, below the home directory.
    pub fn new(profile: &str, home: &Option<String>) -> (result: Result<ChatStore, String>)
        ensures
            match (result, *home) {
                (Ok(store), Some(home)) => store.profile@ == profile@ && store.db_path@ == below(
                    profile_directory(home@, profile@),
                    "chat.db"@,
                ),
                (Err(message), None) => message@ == NO_HOME@,
                _ => false,
            },
    {
        match home {
            Some(home) => Ok(
                ChatStore {
                    profile: profile.to_owned(),
                    db_path: join_path(profile_root(home.as_str(), profile).as_str(), "chat.db"),
                },
            ),
            None => Err(NO_HOME.to_owned()),
        }
    }

    /// The statements that add a turn, given the action and the evidence as
    /// text.
    pub fn append_turn_sql(
        &self,
        turn_id: &str,
        user_text: &str,
        assistant_text: &str,
        action_json: &str,
        evidence_json: &str,
        model: &str,
    ) -> (sql: String)
        ensures
            sql@ == append_sql(
                self.profile@,
                turn_id@,
                user_text@,
                assistant_text@,
                action_json@,
                evidence_json@,
                model@,
            ),
    {
        let turn_id = sql_quote(turn_id);
        let profile = sql_quote(self.profile.as_str());
        let model = sql_quote(model);
        let user = row_sql(
            turn_id.as_str(),
            profile.as_str(),
            "'user'",
            sql_quote(user_text).as_str(),
            "NULL",
            "NULL",
            model.as_str(),
        );
        let assistant = row_sql(
            turn_id.as_str(),
            profile.as_str(),
            "'assistant'",
            sql_quote(assistant_text).as_str(),
            sql_quote(action_json).as_str(),
            sql_quote(evidence_json).as_str(),
            model.as_str(),
        );
        let mut sql = "BEGIN IMMEDIATE; ".to_owned();
        sql.append(user.as_str());
        sql.append(assistant.as_str());
        sql.append("COMMIT;");
        sql
    }

    /// The statements that add a turn.
    pub fn append_turn(
        &self,
        turn_id: &str,
        user_text: &str,
        assistant_text: &str,
        action: &Option<Json>,
        evidence: &Option<Json>,
        model: &str,
    ) -> (sql: String)
        ensures
            sql@ == append_sql(
                self.profile@,
                turn_id@,
                user_text@,
                assistant_text@,
                value_text(json_printed(or_null(crate::json::opt_view(*action)))),
                value_text(json_printed(or_null(crate::json::opt_view(*evidence)))),
                model@,
            ),
    {
        let action_json = printed_value(action);
        let evidence_json = printed_value(evidence);
        self.append_turn_sql(
            turn_id,
            user_text,
            assistant_text,
            action_json.as_str(),
            evidence_json.as_str(),
            model,
        )
    }
}

/// The context program of a profile.
#[derive(Clone, Debug, PartialEq, Eq)]
pub struct CtxMemory {
    pub profile: String,
    pub binary: String,
    pub workspace_root: String,
}

/// What the planner is told before a turn.
#[derive(Clone, Debug, PartialEq, Eq)]
pub struct AgentContext {
    pub chat: String,
    pub ctx: String,
}

/// The path of the context program: the setting, unless it is blank; else the
/// one beside the executable, if there is one; else the bundled one.
pub fn ctx_binary(setting: &Option<String>, sibling: &Option<String>, bundled: &str) -> (path: String)
    ensures
        path@ == (match (*setting, *sibling) {
            (Some(setting), sibling) => if trimmed(setting@).len() > 0 {
                setting@
            } else {
                match sibling {
                    Some(sibling) => sibling@,
                    None => bundled@,
                }
            },
            (None, Some(sibling)) => sibling@,
            (None, None) => bundled@,
        }),
{
    if let Some(setting) = setting {
        if !is_blank(setting.as_str()) {
            return setting.clone();
        }
    }
    match sibling {
        Some(sibling) => sibling.clone(),
        None => bundled.to_owned(),
    }
}

/// An exit status, as it is written in a message.
pub open spec fn status_text(code: Option<u32>) -> Seq<char> {
    match code {
        Some(code) => "Some("@ + decimal(code as nat) + ")"@,
        None => "None"@,
    }
}

/// The frame as the planner reads it; the parts are given as text.
pub open spec fn frame_text(registers: Seq<char>, memory: Seq<char>, protocol: Seq<char>) -> Seq<
    char,
> {
    "Context:\nregisters="@ + one_line(registers, 1_200) + "\nselected_memory="@ + one_line(
        memory,
        2_000,
    ) + "\nprotocol="@ + one_line(protocol, 1_200)
}

/// The frame as the planner reads it; the parts are given as text.
pub fn ctx_frame_text(registers: &str, memory: &str, protocol: &str) -> (text: String)
    ensures
        text@ == frame_text(registers@, memory@, protocol@),
{
    let mut text = "Context:\nregisters=".to_owned();
    text.append(compact_text(registers, 1_200).as_str());
    text.append("\nselected_memory=");
    text.append(compact_text(memory, 2_000).as_str());
    text.append("\nprotocol=");
    text.append(compact_text(protocol, 1_200).as_str());
    text
}

/// The memory that a frame selects; none, where it does not say.
pub open spec fn selected_memory(frame: JsonView) -> JsonView {
    match field(frame, "selected_memory"@) {
        Some(memory) => memory,
        None => JsonView::Array(Seq::empty()),
    }
}

/// The frame that a text writes, as the planner reads it.
pub open spec fn frame_context(frame: JsonView) -> Seq<char> {
    frame_text(
        value_text(json_printed(or_null(field(frame, "registers"@)))),
        value_text(json_printed(selected_memory(frame))),
        value_text(json_printed(or_null(field(frame, "protocol"@)))),
    )
}

fn copied_or_null(value: Option<&Json>) -> (copy: Json)
    ensures
        copy@ == or_null(crate::json::opt_ref_view(value)),
{
    match value {
        Some(value) => value.clone(),
        None => Json::Null,
    }
}

/// The parts of a frame that the planner reads.
#[derive(Debug)]
pub struct CtxFrameParts {
    pub registers: Json,
    pub memory: Json,
    pub protocol: Json,
}

/// The parts of a frame: null where it has no registers or no protocol, and an
/// empty list where it selects no memory.
pub fn ctx_frame_parts(frame: &Json) -> (parts: CtxFrameParts)
    ensures
        parts.registers@ == or_null(field(frame@, "registers"@)),
        parts.memory@ == selected_memory(frame@),
        parts.protocol@ == or_null(field(frame@, "protocol"@)),
{
    let memory = match frame.get("selected_memory") {
        Some(memory) => memory.clone(),
        None => {
            let none = Json::Array(Vec::new());
            assert(none@->Array_0 =~= Seq::<JsonView>::empty());
            none
        },
    };
    CtxFrameParts {
        registers: copied_or_null(frame.get("registers")),
        memory,
        protocol: copied_or_null(frame.get("protocol")),
    }
}

/// What the planner reads of a frame, or what is said of one that cannot be
/// read.
pub open spec fn frame_result(parsed: Result<JsonView, Seq<char>>) -> Result<Seq<char>, Seq<char>> {
    match parsed {
        Ok(frame) => Ok(frame_context(frame)),
        Err(words) => Err("decode ctx frame: "@ + words),
    }
}

/// What the planner reads of a frame of the context program, or what is said of
/// one that cannot be read.
pub fn ctx_frame_result(parsed: Result<Json, String>) -> (result: Result<String, String>)
    ensures
        match (result, frame_result(parse_view(parsed))) {
            (Ok(text), Ok(context)) => text@ == context,
            (Err(message), Err(words)) => message@ == words,
            _ => false,
        },
{
    match parsed {
        Ok(frame) => {
            let parts = ctx_frame_parts(&frame);
            let registers = printed_value(&Some(parts.registers));
            let memory = printed_value(&Some(parts.memory));
            let protocol = printed_value(&Some(parts.protocol));
            Ok(ctx_frame_text(registers.as_str(), memory.as_str(), protocol.as_str()))
        },
        Err(words) => {
            let mut message = "decode ctx frame: ".to_owned();
            message.append(words.as_str());
            Err(message)
        },
    }
}

/// A frame of the context program, as the planner reads it; for a text that is
/// not JSON, why it cannot be read.
pub fn format_ctx_frame(raw: &str) -> (result: Result<String, String>)
    ensures
        match (result, frame_result(json_parsed(raw@))) {
            (Ok(text), Ok(context)) => text@ == context,
            (Err(message), Err(words)) => message@ == words,
            _ => false,
        },
{
    ctx_frame_result(parse(raw))
}

impl CtxMemory {
    /// The context program of a profile, with its files below the home
    /// directory.
    pub fn new(profile: &str, home: &Option<String>, binary: String) -> (result: Result<
        CtxMemory,
        String,
    >)
        ensures
            match (result, *home) {
                (Ok(memory), Some(home)) => memory.profile@ == profile@ && memory.binary == binary
                    && memory.workspace_root@ == below(
                    profile_directory(home@, profile@),
                    "ctx"@,
                ),
                (Err(message), None) => message@ == NO_HOME@,
                _ => false,
            },
    {
        match home {
            Some(home) => Ok(
                CtxMemory {
                    workspace_root: join_path(
                        profile_root(home.as_str(), profile).as_str(),
                        "ctx",
                    ),
                    binary,
                    profile: profile.to_owned(),
                },
            ),
            None => Err(NO_HOME.to_owned()),
        }
    }

    /// The session of a profile.
    pub fn session_id(&self) -> (id: String)
        ensures
            id@ == "cua-"@ + self.profile@,
    {
        concat("cua-", self.profile.as_str())
    }

    /// The arguments that ask for a frame.
    pub fn frame_args(&self, request: &str, chat_context: &str) -> (args: Vec<String>)
        ensures
            texts(args@) == seq![
                "frame"@,
                "cua-"@ + self.profile@,
                self.profile@,
                request@ + "\n\nCurrent cua chat context:\n"@ + one_line(chat_context@, 2_000),
            ],
    {
        let mut text = request.to_owned();
        text.append("\n\nCurrent cua chat context:\n");
        text.append(compact_text(chat_context, 2_000).as_str());
        let args = vec!["frame".to_owned(), self.session_id(), self.profile.clone(), text];
        assert(texts(args@) =~= seq![
            "frame"@,
            "cua-"@ + self.profile@,
            self.profile@,
            request@ + "\n\nCurrent cua chat context:\n"@ + one_line(chat_context@, 2_000),
        ]);
        args
    }

    /// The arguments that hand over a turn to remember.
    pub fn remember_args(&self, user_text: &str, assistant_text: &str) -> (args: Vec<String>)
        ensures
            texts(args@) == seq![
                "remember"@,
                "session"@,
                "chat"@,
                "30"@,
                "80"@,
                "User said: "@ + one_line(user_text@, 360) + " Assistant replied: "@ + one_line(
                    assistant_text@,
                    360,
                ),
            ],
    {
        let mut content = "User said: ".to_owned();
        content.append(compact_text(user_text, 360).as_str());
        content.append(" Assistant replied: ");
        content.append(compact_text(assistant_text, 360).as_str());
        let args = vec![
            "remember".to_owned(),
            "session".to_owned(),
            "chat".to_owned(),
            "30".to_owned(),
            "80".to_owned(),
            content,
        ];
        assert(texts(args@) =~= seq![
            "remember"@,
            "session"@,
            "chat"@,
            "30"@,
            "80"@,
            "User said: "@ + one_line(user_text@, 360) + " Assistant replied: "@ + one_line(
                assistant_text@,
                360,
            ),
        ]);
        args
    }

    /// The program has to be there.
    pub fn require_binary(&self, is_file: bool) -> (result: Result<(), String>)
        ensures
            match result {
                Ok(_) => is_file,
                Err(message) => !is_file && message@ == "ctx binary is required at "@
                    + self.binary@,
            },
    {
        if is_file {
            Ok(())
        } else {
            Err(concat("ctx binary is required at ", self.binary.as_str()))
        }
    }

    /// What the program wrote, or how it failed.
    pub fn command_result(
        &self,
        success: bool,
        code: Option<u32>,
        stdout: &str,
        stderr: &str,
    ) -> (result: Result<String, String>)
        ensures
            match result {
                Ok(output) => success && output@ == trimmed(stdout@),
                Err(message) => !success && message@ == "ctx exited "@ + status_text(code) + ": "@
                    + one_line(stderr@, 1_200),
            },
    {
        if success {
            return Ok(crate::text::trim(stdout));
        }
        let mut message = "ctx exited ".to_owned();
        match code {
            Some(code) => {
                message.append("Some(");
                message.append(decimal_of(code as u64).as_str());
                message.append(")");
            },
            None => message.append("None"),
        }
        message.append(": ");
        message.append(compact_text(stderr, 1_200).as_str());
        assert(message@ =~= "ctx exited "@ + status_text(code) + ": "@ + one_line(stderr@, 1_200));
        Err(message)
    }
}

/// What the database program wrote, or how it failed.
pub fn sqlite_result(success: bool, stdout: &str, stderr: &str) -> (result: Result<String, String>)
    ensures
        match result {
            Ok(output) => success && output@ == trimmed(stdout@),
            Err(message) => !success && message@ == "sqlite3 failed: "@ + one_line(stderr@, 1_200),
        },
{
    if success {
        Ok(crate::text::trim(stdout))
    } else {
        Err(concat("sqlite3 failed: ", compact_text(stderr, 1_200).as_str()))
    }
}

/// The rows of a chat are told oldest first, those that are no messages left out.
pub proof fn lemma_chat_is_told_oldest_first(
    newer: Seq<Seq<char>>,
    older: Seq<Seq<char>>,
    row: Seq<char>,
)
    ensures
        chat_rows(newer + older) == chat_rows(older) + chat_rows(newer),
        chat_row(row) matches Some(told) ==> chat_rows(seq![row]) == seq![told],
        chat_row(row) is None ==> chat_rows(seq![row]) == Seq::<Seq<char>>::empty(),
        !has_text(row, "\t"@) ==> chat_row(row) is None,
    decreases newer.len(),
{
    let one = seq![row];
    assert(one.skip(1) =~= Seq::<Seq<char>>::empty());
    assert(chat_rows(one.skip(1)) =~= Seq::<Seq<char>>::empty());
    if chat_row(row) is Some {
        assert(chat_rows(one) =~= seq![chat_row(row)->0]);
    }
    if newer.len() == 0 {
        assert(newer + older =~= older);
        assert(chat_rows(older) + chat_rows(newer) =~= chat_rows(older));
    } else {
        lemma_chat_is_told_oldest_first(newer.skip(1), older, row);
        assert((newer + older).skip(1) =~= newer.skip(1) + older);
        assert((newer + older)[0] == newer[0]);
        assert(chat_rows(newer + older) =~= chat_rows(older) + chat_rows(newer));
    }
}

/// A text on one line has the words of the value, cut to the limit where they are
/// longer; how the words were parted does not matter.
pub proof fn lemma_one_line_has_the_words(value: Seq<char>, other: Seq<char>, limit: nat)
    ensures
        squeezed(value).len() <= limit ==> one_line(value, limit) == squeezed(value),
        limit >= 3 ==> one_line(value, limit).len() <= limit,
        words(value) == words(other) ==> one_line(value, limit) == one_line(other, limit),
{
    if limit >= 3 {
        lemma_long_text_is_cut(squeezed(value), limit, 0);
    }
}

/// A turn is stored in one transaction: what the user said first, then the reply
/// with its action and its evidence, each text quoted.
pub proof fn lemma_turn_is_stored_whole(
    profile: Seq<char>,
    turn_id: Seq<char>,
    user_text: Seq<char>,
    assistant_text: Seq<char>,
    action_json: Seq<char>,
    evidence_json: Seq<char>,
    model: Seq<char>,
)
    ensures
        ({
            let sql = append_sql(
                profile,
                turn_id,
                user_text,
                assistant_text,
                action_json,
                evidence_json,
                model,
            );
            let said = "'user'"@ + ", "@ + quoted(user_text) + ", "@;
            let replied = "'assistant'"@ + ", "@ + quoted(assistant_text) + ", "@ + quoted(
                action_json,
            ) + ", "@ + quoted(evidence_json) + ", "@ + quoted(model);
            &&& starts_with(sql, "BEGIN IMMEDIATE; "@)
            &&& ends_with(sql, "COMMIT;"@)
            &&& exists|i: int, j: int| #[trigger]
                occurs_at(sql, said, i) && #[trigger] occurs_at(sql, replied, j) && i < j
        }),
{
    let sql = append_sql(
        profile,
        turn_id,
        user_text,
        assistant_text,
        action_json,
        evidence_json,
        model,
    );
    let begin = "BEGIN IMMEDIATE; "@;
    let head = "INSERT INTO chat_messages(turn_id, profile, role, text, action_json, evidence_json, model, created_at_ms) VALUES("@;
    let first = insert_row(
        quoted(turn_id),
        quoted(profile),
        "'user'"@,
        quoted(user_text),
        "NULL"@,
        "NULL"@,
        quoted(model),
    );
    let second = insert_row(
        quoted(turn_id),
        quoted(profile),
        "'assistant'"@,
        quoted(assistant_text),
        quoted(action_json),
        quoted(evidence_json),
        quoted(model),
    );
    let said = "'user'"@ + ", "@ + quoted(user_text) + ", "@;
    let replied = "'assistant'"@ + ", "@ + quoted(assistant_text) + ", "@ + quoted(action_json)
        + ", "@ + quoted(evidence_json) + ", "@ + quoted(model);
    let named = (head.len() + quoted(turn_id).len() + ", "@.len() + quoted(profile).len()
        + ", "@.len()) as int;
    assert(first.subrange(named, named + said.len()) =~= said);
    assert(second.subrange(named, named + replied.len()) =~= replied);
    let i = begin.len() + named;
    let j = begin.len() + first.len() + named;
    assert(sql =~= begin + first + second + "COMMIT;"@);
    assert(sql.subrange(i, i + said.len()) =~= first.subrange(named, named + said.len()));
    assert(sql.subrange(j, j + replied.len()) =~= second.subrange(named, named + replied.len()));
    assert(occurs_at(sql, said, i));
    assert(occurs_at(sql, replied, j));
    assert(sql.subrange(0, begin.len() as int) =~= begin);
    let end = "COMMIT;"@;
    let tail = sql.len() - end.len();
    assert(sql.subrange(tail, tail + end.len()) =~= end);
    assert(first.len() > 0) by {
        assert(quoted(turn_id).len() >= 2);
    }
}

/// A frame that can be read is told by its parts: its registers, the memory that
/// was selected, an empty list where none was, and its protocol; one that cannot
/// be read is told with the reason.
pub proof fn lemma_frame_is_told(frame: JsonView, reason: Seq<char>)
    ensures
        frame_result(Err(reason)) == Err::<Seq<char>, Seq<char>>("decode ctx frame: "@ + reason),
        frame_result(Ok(frame)) == Ok::<Seq<char>, Seq<char>>(frame_context(frame)),
        field(frame, "selected_memory"@) is None ==> selected_memory(frame) == JsonView::Array(
            Seq::empty(),
        ),
        field(frame, "selected_memory"@) matches Some(memory) ==> selected_memory(frame) == memory,
{
}

} // verus!
