//! The event stream of an agent session: each line is one JSON object, and
//! each object one event. A `type` that is not known becomes an event of its
//! own; only a line that is no JSON is an error.
use vstd::prelude::*;
use crate::json::{
    json_complaint, json_display, json_text, parse_json, render_json, trees, Json, JsonV,
};
use crate::text::{cat2, join, joins_can_be_split, same_text};

verus! {

/// One event of the stream.
#[allow(inconsistent_fields)]
#[derive(Debug, Clone, PartialEq)]
pub enum JsonEvent {
    /// Session metadata, as it came.
    System { content: Json },
    /// What the agent wrote, and the tools it asked for.
    Assistant { content_blocks: Vec<AssistantBlock> },
    /// What the tools gave back.
    User { content_blocks: Vec<UserBlock> },
    /// The end of the turn, with the closing text.
    Result { stop_reason: String, final_text: String },
    /// An event of a type that is not known here, as it came.
    Unknown { event_type: String, raw: Json },
}

#[derive(Debug, Clone, PartialEq)]
pub enum AssistantBlock {
    Text { text: String },
    ToolUse { tool_name: String, tool_input: Json },
}

#[derive(Debug, Clone, PartialEq)]
pub enum UserBlock {
    ToolResult { tool_use_id: String, content: String, is_error: bool },
}

/// Why a line gives no event.
#[derive(Debug)]
pub enum ParseError {
    /// The line is no JSON, for the reason that serde_json gives.
    MalformedJson { underlying: String },
}

pub open spec fn malformed_text(detail: Seq<char>) -> Seq<char> {
    "malformed JSON line: "@ + detail
}

impl ParseError {
    /// What is said of the line, with the reason.
    pub fn message(&self) -> (r: String)
        ensures
            r@ == malformed_text(self->underlying@),
    {
        match self {
            ParseError::MalformedJson { underlying } => cat2(
                "malformed JSON line: ",
                underlying.as_str(),
            ),
        }
    }
}

/// The mathematical counterpart of [`JsonEvent`].
pub enum EventV {
    System(JsonV),
    Assistant(Seq<AssistantV>),
    User(Seq<UserV>),
    Result { stop_reason: Seq<char>, final_text: Seq<char> },
    Unknown { event_type: Seq<char>, raw: JsonV },
}

/// The mathematical counterpart of [`AssistantBlock`].
pub enum AssistantV {
    Text(Seq<char>),
    ToolUse { tool_name: Seq<char>, tool_input: JsonV },
}

/// The mathematical counterpart of [`UserBlock`].
pub struct UserV {
    pub tool_use_id: Seq<char>,
    pub content: Seq<char>,
    pub is_error: bool,
}

impl AssistantBlock {
    pub open spec fn view(&self) -> AssistantV {
        match self {
            AssistantBlock::Text { text } => AssistantV::Text(text@),
            AssistantBlock::ToolUse { tool_name, tool_input } => AssistantV::ToolUse {
                tool_name: tool_name@,
                tool_input: tool_input@,
            },
        }
    }
}

impl UserBlock {
    pub open spec fn view(&self) -> UserV {
        match self {
            UserBlock::ToolResult { tool_use_id, content, is_error } => UserV {
                tool_use_id: tool_use_id@,
                content: content@,
                is_error: *is_error,
            },
        }
    }
}

impl JsonEvent {
    pub open spec fn view(&self) -> EventV {
        match self {
            JsonEvent::System { content } => EventV::System(content@),
            JsonEvent::Assistant { content_blocks } => EventV::Assistant(
                Seq::new(content_blocks@.len(), |i: int| content_blocks@[i]@),
            ),
            JsonEvent::User { content_blocks } => EventV::User(
                Seq::new(content_blocks@.len(), |i: int| content_blocks@[i]@),
            ),
            JsonEvent::Result { stop_reason, final_text } => EventV::Result {
                stop_reason: stop_reason@,
                final_text: final_text@,
            },
            JsonEvent::Unknown { event_type, raw } => EventV::Unknown {
                event_type: event_type@,
                raw: raw@,
            },
        }
    }
}

/// The content blocks of a message: those of its `message`, else its own.
pub open spec fn message_blocks(v: JsonV) -> Option<Seq<JsonV>> {
    let nested = match v.get("message"@) {
        Some(m) => m.array_at("content"@),
        None => None,
    };
    match nested {
        Some(items) => Some(items),
        None => v.array_at("content"@),
    }
}

/// What one block of an assistant message holds; a block of another type is dropped.
pub open spec fn assistant_block(v: JsonV) -> Option<AssistantV> {
    let kind = v.str_or_empty("type"@);
    if kind == "text"@ {
        Some(AssistantV::Text(v.str_or_empty("text"@)))
    } else if kind == "tool_use"@ {
        Some(
            AssistantV::ToolUse {
                tool_name: v.str_or_empty("name"@),
                tool_input: match v.get("input"@) {
                    Some(i) => i,
                    None => JsonV::Null,
                },
            },
        )
    } else {
        None
    }
}

/// The blocks of an assistant message, in order.
pub open spec fn assistant_blocks(items: Seq<JsonV>) -> Seq<AssistantV>
    decreases items.len(),
{
    if items.len() == 0 {
        Seq::empty()
    } else {
        let before = assistant_blocks(items.drop_last());
        match assistant_block(items.last()) {
            Some(b) => before.push(b),
            None => before,
        }
    }
}

/// The `text` fields of a list on lines of their own. An empty text at the
/// front leaves no empty line.
pub open spec fn joined_texts(items: Seq<JsonV>) -> Seq<char>
    decreases items.len(),
{
    if items.len() == 0 {
        Seq::empty()
    } else {
        let before = joined_texts(items.drop_last());
        match items.last().str_at("text"@) {
            Some(t) => if before.len() == 0 {
                t
            } else {
                before.push('\n') + t
            },
            None => before,
        }
    }
}

/// The text of a tool's result: a string as it is, a list by its texts, and
/// anything else as JSON.
pub open spec fn result_content(v: JsonV) -> Seq<char> {
    match v.get("content"@) {
        Some(JsonV::Str(s)) => s,
        Some(JsonV::Arr(items)) => joined_texts(items),
        Some(other) => json_display(other),
        None => Seq::empty(),
    }
}

/// What one block of a user message holds; only tool results are kept.
pub open spec fn user_block(v: JsonV) -> Option<UserV> {
    if v.str_or_empty("type"@) == "tool_result"@ {
        Some(
            UserV {
                tool_use_id: v.str_or_empty("tool_use_id"@),
                content: result_content(v),
                is_error: v.bool_at("is_error"@) == Some(true),
            },
        )
    } else {
        None
    }
}

/// The tool results of a user message, in order.
pub open spec fn user_blocks(items: Seq<JsonV>) -> Seq<UserV>
    decreases items.len(),
{
    if items.len() == 0 {
        Seq::empty()
    } else {
        let before = user_blocks(items.drop_last());
        match user_block(items.last()) {
            Some(b) => before.push(b),
            None => before,
        }
    }
}

/// The text of the first of two fields that is a string, or the empty text.
pub open spec fn either_str(v: JsonV, first: Seq<char>, second: Seq<char>) -> Seq<char> {
    match v.str_at(first) {
        Some(s) => s,
        None => v.str_or_empty(second),
    }
}

/// The event that a JSON value stands for.
pub open spec fn event_of(v: JsonV) -> EventV {
    let kind = v.str_or_empty("type"@);
    if kind == "system"@ {
        EventV::System(v)
    } else if kind == "assistant"@ {
        EventV::Assistant(
            match message_blocks(v) {
                Some(items) => assistant_blocks(items),
                None => Seq::empty(),
            },
        )
    } else if kind == "user"@ {
        EventV::User(
            match message_blocks(v) {
                Some(items) => user_blocks(items),
                None => Seq::empty(),
            },
        )
    } else if kind == "result"@ {
        EventV::Result {
            stop_reason: either_str(v, "stop_reason"@, "subtype"@),
            final_text: either_str(v, "result"@, "final_text"@),
        }
    } else {
        EventV::Unknown { event_type: kind, raw: v }
    }
}

/// The content blocks of a message.
fn find_blocks(value: &Json) -> (r: Option<&Vec<Json>>)
    ensures
        match r {
            Some(items) => message_blocks(value@) == Some(trees(items@)),
            None => message_blocks(value@) is None,
        },
{
    if let Some(message) = value.get("message") {
        if let Some(items) = message.get_array("content") {
            return Some(items);
        }
    }
    value.get_array("content")
}

fn read_assistant_block(block: &Json) -> (r: Option<AssistantBlock>)
    ensures
        match r {
            Some(b) => assistant_block(block@) == Some(b@),
            None => assistant_block(block@) is None,
        },
{
    let kind = block.get_str_or_empty("type");
    if same_text(kind.as_str(), "text") {
        Some(AssistantBlock::Text { text: block.get_str_or_empty("text") })
    } else if same_text(kind.as_str(), "tool_use") {
        let tool_name = block.get_str_or_empty("name");
        let tool_input = match block.get("input") {
            Some(i) => i.copy(),
            None => Json::Null,
        };
        Some(AssistantBlock::ToolUse { tool_name, tool_input })
    } else {
        None
    }
}

/// The blocks of an assistant message.
fn extract_assistant_blocks(value: &Json) -> (r: Vec<AssistantBlock>)
    ensures
        Seq::new(r@.len(), |i: int| r@[i]@) == (match message_blocks(value@) {
            Some(items) => assistant_blocks(items),
            None => Seq::empty(),
        }),
{
    let mut out: Vec<AssistantBlock> = Vec::new();
    let ghost mut done: Seq<AssistantV> = Seq::empty();
    if let Some(items) = find_blocks(value) {
        let ghost all = trees(items@);
        let mut i: usize = 0;
        while i < items.len()
            invariant
                i <= items@.len(),
                all == trees(items@),
                done == assistant_blocks(all.take(i as int)),
                done =~= Seq::new(out@.len(), |k: int| out@[k]@),
            decreases items@.len() - i,
        {
            proof {
                assert(all.take(i + 1).drop_last() =~= all.take(i as int));
                assert(all.take(i + 1).last() == items@[i as int]@);
            }
            if let Some(b) = read_assistant_block(&items[i]) {
                proof {
                    done = done.push(b@);
                }
                out.push(b);
            }
            i += 1;
        }
        proof {
            assert(all.take(all.len() as int) =~= all);
        }
    }
    proof {
        assert(done =~= Seq::new(out@.len(), |k: int| out@[k]@));
    }
    out
}

fn join_item_texts(items: &Vec<Json>) -> (r: String)
    ensures
        r@ == joined_texts(trees(items@)),
{
    let mut buf = String::new();
    let ghost all = trees(items@);
    let mut i: usize = 0;
    while i < items.len()
        invariant
            i <= items@.len(),
            all == trees(items@),
            buf@ == joined_texts(all.take(i as int)),
        decreases items@.len() - i,
    {
        proof {
            assert(all.take(i + 1).drop_last() =~= all.take(i as int));
            assert(all.take(i + 1).last() == items@[i as int]@);
        }
        if let Some(t) = items[i].get_str("text") {
            if !buf.as_str().is_empty() {
                buf.push('\n');
            }
            let ghost head = buf@;
            buf.append(t.as_str());
            proof {
                if head.len() == 0 {
                    assert(buf@ =~= t@);
                }
            }
        }
        i += 1;
    }
    proof {
        assert(all.take(all.len() as int) =~= all);
    }
    buf
}

fn read_content(block: &Json) -> (r: String)
    ensures
        r@ == result_content(block@),
{
    match block.get("content") {
        Some(value) => match value {
            Json::Str(s) => s.clone(),
            Json::Array(items) => {
                proof {
                    crate::json::lemma_array_view(*value, *items);
                }
                join_item_texts(items)
            },
            _ => render_json(value),
        },
        None => String::new(),
    }
}

fn read_user_block(block: &Json) -> (r: Option<UserBlock>)
    ensures
        match r {
            Some(b) => user_block(block@) == Some(b@),
            None => user_block(block@) is None,
        },
{
    let kind = block.get_str_or_empty("type");
    if !same_text(kind.as_str(), "tool_result") {
        return None;
    }
    let tool_use_id = block.get_str_or_empty("tool_use_id");
    let content = read_content(block);
    let is_error: bool = match block.get_bool("is_error") {
        Some(b) => b,
        None => false,
    };
    Some(UserBlock::ToolResult { tool_use_id, content, is_error })
}

/// The tool results of a user message.
fn extract_user_blocks(value: &Json) -> (r: Vec<UserBlock>)
    ensures
        Seq::new(r@.len(), |i: int| r@[i]@) == (match message_blocks(value@) {
            Some(items) => user_blocks(items),
            None => Seq::empty(),
        }),
{
    let mut out: Vec<UserBlock> = Vec::new();
    let ghost mut done: Seq<UserV> = Seq::empty();
    if let Some(items) = find_blocks(value) {
        let ghost all = trees(items@);
        let mut i: usize = 0;
        while i < items.len()
            invariant
                i <= items@.len(),
                all == trees(items@),
                done == user_blocks(all.take(i as int)),
                done =~= Seq::new(out@.len(), |k: int| out@[k]@),
            decreases items@.len() - i,
        {
            proof {
                assert(all.take(i + 1).drop_last() =~= all.take(i as int));
                assert(all.take(i + 1).last() == items@[i as int]@);
            }
            if let Some(b) = read_user_block(&items[i]) {
                proof {
                    done = done.push(b@);
                }
                out.push(b);
            }
            i += 1;
        }
        proof {
            assert(all.take(all.len() as int) =~= all);
        }
    }
    proof {
        assert(done =~= Seq::new(out@.len(), |k: int| out@[k]@));
    }
    out
}

fn first_str(value: &Json, first: &str, second: &str) -> (r: String)
    ensures
        r@ == either_str(value@, first@, second@),
{
    match value.get_str(first) {
        Some(s) => s,
        None => value.get_str_or_empty(second),
    }
}

/// The event that a JSON value stands for.
pub fn read_event(value: Json) -> (r: JsonEvent)
    ensures
        r@ == event_of(value@),
{
    let event_type = value.get_str_or_empty("type");
    if same_text(event_type.as_str(), "system") {
        JsonEvent::System { content: value }
    } else if same_text(event_type.as_str(), "assistant") {
        JsonEvent::Assistant { content_blocks: extract_assistant_blocks(&value) }
    } else if same_text(event_type.as_str(), "user") {
        JsonEvent::User { content_blocks: extract_user_blocks(&value) }
    } else if same_text(event_type.as_str(), "result") {
        JsonEvent::Result {
            stop_reason: first_str(&value, "stop_reason", "subtype"),
            final_text: first_str(&value, "result", "final_text"),
        }
    } else {
        JsonEvent::Unknown { event_type, raw: value }
    }
}

/// The event of one line. It fails on a line that is no JSON, and on no other.
pub fn parse_event_line(line: &str) -> (r: Result<JsonEvent, ParseError>)
    ensures
        match r {
            Ok(event) => json_text(line@) matches Some(v) && event@ == event_of(v),
            Err(e) => json_text(line@) is None && e->underlying@ == json_complaint(line@),
        },
{
    match parse_json(line) {
        Ok(value) => Ok(read_event(value)),
        Err(underlying) => Err(ParseError::MalformedJson { underlying }),
    }
}

/// The text of a field, or the empty text where there is no such string.
spec fn text_in(v: JsonV, key: Seq<char>) -> Seq<char> {
    match v.get(key) {
        Some(JsonV::Str(s)) => s,
        _ => Seq::empty(),
    }
}

/// How many of the first `n` items are of one of two types.
pub open spec fn count_of(items: Seq<JsonV>, one: Seq<char>, other: Seq<char>, n: int) -> int
    decreases n,
{
    if n <= 0 {
        0
    } else {
        let kind = match items[n - 1].get("type"@) {
            Some(JsonV::Str(s)) => s,
            _ => Seq::empty(),
        };
        count_of(items, one, other, n - 1) + if kind == one || kind == other {
            1int
        } else {
            0
        }
    }
}

/// Whether a list is the content of a message: that of its `message` where there is
/// one, and its own otherwise.
pub open spec fn is_content(v: JsonV, items: Seq<JsonV>) -> bool {
    match v.get("message"@) {
        Some(m) => match m.get("content"@) {
            Some(JsonV::Arr(a)) => a == items,
            _ => v.get("content"@) == Some(JsonV::Arr(items)),
        },
        None => v.get("content"@) == Some(JsonV::Arr(items)),
    }
}

/// The names of the types tell them apart.
proof fn lemma_names()
    ensures
        "user"@.len() == 4,
        "text"@.len() == 4,
        "user"@ != "text"@,
        "system"@.len() == 6,
        "result"@.len() == 6,
        "system"@ != "result"@,
        "tool_use"@.len() == 8,
        "assistant"@.len() == 9,
        "tool_result"@.len() == 11,
{
    reveal_strlit("system");
    reveal_strlit("assistant");
    reveal_strlit("user");
    reveal_strlit("result");
    reveal_strlit("text");
    reveal_strlit("tool_use");
    reveal_strlit("tool_result");
    assert("user"@[0] != "text"@[0]);
    assert("system"@[0] != "result"@[0]);
}

proof fn lemma_assistant_blocks(items: Seq<JsonV>, n: int)
    requires
        0 <= n <= items.len(),
    ensures
        assistant_blocks(items.take(n)).len() == count_of(items, "text"@, "tool_use"@, n),
        forall|i: int|
            0 <= i < n ==> {
                let kind = text_in(#[trigger] items[i], "type"@);
                let at = count_of(items, "text"@, "tool_use"@, i);
                let blocks = assistant_blocks(items.take(n));
                &&& kind == "text"@ ==> 0 <= at < blocks.len() && blocks[at]
                    == AssistantV::Text(text_in(items[i], "text"@))
                &&& kind == "tool_use"@ ==> 0 <= at < blocks.len() && blocks[at]
                    == (AssistantV::ToolUse {
                    tool_name: text_in(items[i], "name"@),
                    tool_input: match items[i].get("input"@) {
                        Some(input) => input,
                        None => JsonV::Null,
                    },
                })
            },
    decreases n,
{
    lemma_names();
    if n > 0 {
        lemma_assistant_blocks(items, n - 1);
        assert(items.take(n).drop_last() =~= items.take(n - 1));
        assert(items.take(n).last() == items[n - 1]);
    }
}

proof fn lemma_user_blocks(items: Seq<JsonV>, n: int)
    requires
        0 <= n <= items.len(),
    ensures
        user_blocks(items.take(n)).len() == count_of(items, "tool_result"@, "tool_result"@, n),
        forall|i: int|
            0 <= i < n && text_in(#[trigger] items[i], "type"@) == "tool_result"@ ==> {
                let at = count_of(items, "tool_result"@, "tool_result"@, i);
                let blocks = user_blocks(items.take(n));
                &&& 0 <= at < blocks.len()
                &&& blocks[at].tool_use_id == text_in(items[i], "tool_use_id"@)
                &&& blocks[at].is_error == (items[i].get("is_error"@) == Some(JsonV::Bool(true)))
                &&& blocks[at].content == result_content(items[i])
            },
    decreases n,
{
    lemma_names();
    if n > 0 {
        lemma_user_blocks(items, n - 1);
        assert(items.take(n).drop_last() =~= items.take(n - 1));
        assert(items.take(n).last() == items[n - 1]);
    }
}

/// No block of an assistant message is lost, and none moves: there are as many as its
/// content has items of the types `text` and `tool_use`, and such an item at place `i`
/// gives the block that stands behind those of the items before it, with its text, or
/// with the name of the tool and what is put into it.
pub proof fn every_assistant_block_is_kept(v: JsonV, items: Seq<JsonV>, i: int)
    requires
        v.get("type"@) == Some(JsonV::Str("assistant"@)),
        is_content(v, items),
        0 <= i < items.len(),
    ensures
        event_of(v) matches EventV::Assistant(blocks) && {
            let at = count_of(items, "text"@, "tool_use"@, i);
            &&& blocks.len() == count_of(items, "text"@, "tool_use"@, items.len() as int)
            &&& items[i].get("type"@) == Some(JsonV::Str("text"@)) ==> 0 <= at < blocks.len()
                && blocks[at] == AssistantV::Text(
                match items[i].get("text"@) {
                    Some(JsonV::Str(s)) => s,
                    _ => Seq::empty(),
                },
            )
            &&& items[i].get("type"@) == Some(JsonV::Str("tool_use"@)) ==> 0 <= at < blocks.len()
                && blocks[at] == (AssistantV::ToolUse {
                tool_name: match items[i].get("name"@) {
                    Some(JsonV::Str(s)) => s,
                    _ => Seq::empty(),
                },
                tool_input: match items[i].get("input"@) {
                    Some(input) => input,
                    None => JsonV::Null,
                },
            })
        },
{
    lemma_names();
    lemma_assistant_blocks(items, items.len() as int);
    assert(items.take(items.len() as int) =~= items);
    let it = items[i];
}

/// No result of a tool is lost, and none moves: there are as many as the content has
/// items of the type `tool_result`, and such an item at place `i` gives the block behind
/// those of the items before it, with the use that it answers, with its content, and as
/// an error exactly where it says so.
pub proof fn every_tool_result_is_kept(v: JsonV, items: Seq<JsonV>, i: int)
    requires
        v.get("type"@) == Some(JsonV::Str("user"@)),
        is_content(v, items),
        0 <= i < items.len(),
    ensures
        event_of(v) matches EventV::User(blocks) && {
            let at = count_of(items, "tool_result"@, "tool_result"@, i);
            &&& blocks.len() == count_of(
                items,
                "tool_result"@,
                "tool_result"@,
                items.len() as int,
            )
            &&& items[i].get("type"@) == Some(JsonV::Str("tool_result"@)) ==> {
                &&& 0 <= at < blocks.len()
                &&& blocks[at].tool_use_id == match items[i].get("tool_use_id"@) {
                    Some(JsonV::Str(s)) => s,
                    _ => Seq::empty(),
                }
                &&& blocks[at].is_error == (items[i].get("is_error"@) == Some(JsonV::Bool(true)))
                &&& items[i].get("content"@) matches Some(JsonV::Str(s)) ==> blocks[at].content
                    == s
                &&& items[i].get("content"@) matches Some(JsonV::Arr(a)) ==> blocks[at].content
                    == joined_texts(a)
                &&& items[i].get("content"@) is None ==> blocks[at].content.len() == 0
                &&& items[i].get("content"@) matches Some(other) ==> (!(other is Str) && !(
                other is Arr) ==> blocks[at].content == json_display(other))
            }
        },
{
    lemma_names();
    lemma_user_blocks(items, items.len() as int);
    assert(items.take(items.len() as int) =~= items);
    let it = items[i];
}

/// A message without a content list has no blocks.
pub proof fn no_content_gives_no_blocks(v: JsonV)
    requires
        forall|items: Seq<JsonV>| !#[trigger] is_content(v, items),
    ensures
        v.get("type"@) == Some(JsonV::Str("assistant"@)) ==> event_of(v) == EventV::Assistant(
            Seq::empty(),
        ),
        v.get("type"@) == Some(JsonV::Str("user"@)) ==> event_of(v) == EventV::User(Seq::empty()),
{
    lemma_names();
    if let Some(items) = message_blocks(v) {
        assert(is_content(v, items));
    }
}

/// Which event an object stands for: its type decides, and a type that is not known
/// gives an event that keeps the type and the whole object. The end of a turn tells why
/// it ended and the closing text, each under the first of two names that holds a string.
pub proof fn the_type_decides_the_event(v: JsonV)
    ensures
        ({
            let kind = match v.get("type"@) {
                Some(JsonV::Str(s)) => s,
                _ => Seq::empty(),
            };
            &&& kind == "system"@ ==> event_of(v) == EventV::System(v)
            &&& kind == "assistant"@ <==> event_of(v) is Assistant
            &&& kind == "user"@ <==> event_of(v) is User
            &&& kind == "result"@ ==> (event_of(v) matches EventV::Result {
                stop_reason,
                final_text,
            } && {
                &&& v.get("stop_reason"@) matches Some(JsonV::Str(s)) ==> stop_reason == s
                &&& v.str_at("stop_reason"@) is None ==> stop_reason == (match v.get("subtype"@) {
                    Some(JsonV::Str(s)) => s,
                    _ => Seq::empty(),
                })
                &&& v.get("result"@) matches Some(JsonV::Str(s)) ==> final_text == s
                &&& v.str_at("result"@) is None ==> final_text == (match v.get("final_text"@) {
                    Some(JsonV::Str(s)) => s,
                    _ => Seq::empty(),
                })
            })
            &&& kind != "system"@ && kind != "assistant"@ && kind != "user"@ && kind != "result"@
                ==> event_of(v) == (EventV::Unknown { event_type: kind, raw: v })
        }),
{
    lemma_names();
}

/// The texts of a list stand on lines of their own, in order, where the first is not
/// empty.
pub proof fn texts_stand_on_lines_of_their_own(items: Seq<JsonV>, parts: Seq<Seq<char>>)
    requires
        items.len() == parts.len(),
        forall|i: int|
            0 <= i < items.len() ==> (#[trigger] items[i]).get("text"@) == Some(
                JsonV::Str(parts[i]),
            ),
        parts.len() > 0 ==> parts[0].len() > 0,
    ensures
        joined_texts(items) == join(parts, "\n"@),
    decreases items.len(),
{
    reveal_strlit("\n");
    if items.len() > 0 {
        let n = items.len() - 1;
        texts_stand_on_lines_of_their_own(items.drop_last(), parts.drop_last());
        assert(items.last() == items[n]);
        let before = joined_texts(items.drop_last());
        if n > 0 {
            joins_can_be_split(parts.drop_last(), "\n"@, 1);
            assert(parts.drop_last().take(1)[0] == parts[0]);
            assert(before.len() > 0);
            assert(before.push('\n') + parts[n] =~= before + "\n"@ + parts[n]);
        } else {
            assert(before.len() == 0);
        }
    }
}

/// An item without a text leaves nothing behind among the texts, wherever it stands, and
/// an empty text leaves nothing where it stands first.
pub proof fn texts_leave_out_what_has_none(before: Seq<JsonV>, item: JsonV, after: Seq<JsonV>)
    requires
        !(item.get("text"@) matches Some(JsonV::Str(_))) || (before.len() == 0 && item.get(
            "text"@,
        ) == Some(JsonV::Str(Seq::empty()))),
    ensures
        joined_texts(before.push(item) + after) == joined_texts(before + after),
    decreases after.len(),
{
    if after.len() == 0 {
        assert(before.push(item) + after =~= before.push(item));
        assert(before + after =~= before);
        assert(before.push(item).drop_last() =~= before);
        if before.len() == 0 {
            assert(joined_texts(before.push(item)) =~= joined_texts(before));
        }
    } else {
        texts_leave_out_what_has_none(before, item, after.drop_last());
        let a = before.push(item) + after;
        let b = before + after;
        assert(a.drop_last() =~= before.push(item) + after.drop_last());
        assert(b.drop_last() =~= before + after.drop_last());
        assert(a.last() == after.last() && b.last() == after.last());
    }
}

/// A line that is no JSON is told as such, with what is wrong with it.
pub proof fn a_malformed_line_says_what_is_wrong(
    line: &str,
    r: Result<JsonEvent, ParseError>,
    error: ParseError,
    message: String,
)
    requires
        call_ensures(parse_event_line, (line,), r),
        call_ensures(ParseError::message, (&error,), message),
    ensures
        r is Ok <==> json_text(line@) is Some,
        r matches Ok(event) ==> (json_text(line@) matches Some(v) && event@ == event_of(v)),
        r matches Err(e) ==> e->underlying@ == json_complaint(line@),
        message@ == "malformed JSON line: "@ + error->underlying@,
{
}

/// An event is read of its value.
pub proof fn an_event_is_read_of_its_value(value: Json, r: JsonEvent)
    requires
        call_ensures(read_event, (value,), r),
    ensures
        r@ == event_of(value@),
{
}

} // verus!
