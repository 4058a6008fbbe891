//! What records of an export are read as, field by field.

use crate::cass::decode;
use crate::cass::session;
use crate::cass::session::{MessageView, ToolCallView, ToolResultView};
use crate::json;
use crate::json::JsonView;
use crate::places;
use crate::text;
use vstd::prelude::*;

verus! {

// ---------------------------------------------------------------------------------------------
// Words
// ---------------------------------------------------------------------------------------------

/// A text that is not empty stands under a name.
pub open spec fn names_text(value: JsonView, key: Seq<char>, said: Seq<char>) -> bool {
    value.field(key) == Some(JsonView::Text(said)) && said.len() > 0
}

/// No text that is not empty stands under a name.
pub open spec fn names_no_text(value: JsonView, key: Seq<char>) -> bool {
    forall|said: Seq<char>| !names_text(value, key, said)
}

/// A block says words: it is a text, or it has one under `text` and does not say that it is of
/// another kind than a text.
pub open spec fn says(block: JsonView, words: Seq<char>) -> bool {
    &&& words.len() > 0
    &&& {
        ||| block == JsonView::Text(words)
        ||| {
            &&& block.field("text"@) == Some(JsonView::Text(words))
            &&& match block.field("type"@) {
                Some(JsonView::Text(kind)) => kind == "text"@ || kind == "input_text"@ || kind
                    == "output_text"@ || kind == ""@,
                _ => true,
            }
        }
    }
}

/// What a block says is what [`says`] tells.
proof fn block_says(block: JsonView)
    ensures
        match decode::block_text(block) {
            Some(words) => says(block, words),
            None => forall|words: Seq<char>| !says(block, words),
        },
        forall|words: Seq<char>|
            says(block, words) ==> decode::block_text(block) == Some(words),
{
    reveal_strlit("thinking");
    reveal_strlit("reasoning");
    reveal_strlit("text");
    reveal_strlit("input_text");
    reveal_strlit("output_text");
    reveal_strlit("");
    assert("thinking"@.len() == 8 && "reasoning"@.len() == 9 && "text"@.len() == 4
        && "input_text"@.len() == 10 && "output_text"@.len() == 11 && ""@.len() == 0);
}

/// Which blocks say words.
pub open spec fn speaking(blocks: Seq<JsonView>) -> spec_fn(int) -> bool {
    |i: int| exists|words: Seq<char>| says(blocks[i], words)
}

/// The words of blocks are what those say that say any, in order.
proof fn words_are_those_said(blocks: Seq<JsonView>) -> (at: Seq<int>)
    ensures
        places::are_places(at, blocks.len() as int, speaking(blocks)),
        decode::block_texts(blocks).len() == at.len(),
        forall|k: int|
            0 <= k < at.len() ==> says(
                blocks[#[trigger] at[k]],
                decode::block_texts(blocks)[k],
            ),
    decreases blocks.len(),
{
    if blocks.len() == 0 {
        Seq::empty()
    } else {
        let fewer = blocks.drop_last();
        let last = blocks.len() - 1;
        let before = words_are_those_said(fewer);
        block_says(blocks.last());
        assert forall|k: int| 0 <= k < before.len() implies 0 <= #[trigger] before[k] < last
            && speaking(blocks)(before[k]) && blocks[before[k]] == fewer[before[k]] by {
            assert(speaking(fewer)(before[k]));
        }
        assert forall|i: int| #![trigger speaking(blocks)(i)] 0 <= i < last && speaking(blocks)(
            i,
        ) implies before.contains(i) by {
            assert(blocks[i] == fewer[i]);
            assert(speaking(fewer)(i));
        }
        assert(places::are_places(before, last, speaking(blocks)));
        places::one_more_place(before, last, speaking(blocks));
        if decode::block_text(blocks.last()) is Some {
            let said = decode::block_text(blocks.last())->Some_0;
            assert(says(blocks[last], said));
            assert(speaking(blocks)(last));
            let at = before.push(last);
            assert forall|k: int| 0 <= k < at.len() implies says(
                blocks[#[trigger] at[k]],
                decode::block_texts(blocks)[k],
            ) by {
                if k < before.len() {
                    assert(at[k] == before[k]);
                    assert(says(fewer[before[k]], decode::block_texts(fewer)[k]));
                }
            }
            at
        } else {
            assert(!speaking(blocks)(last));
            assert forall|k: int| 0 <= k < before.len() implies says(
                blocks[#[trigger] before[k]],
                decode::block_texts(blocks)[k],
            ) by {
                assert(says(fewer[before[k]], decode::block_texts(fewer)[k]));
            }
            before
        }
    }
}

/// The text of a list of blocks: what the blocks say that say anything, in order, a line break
/// between each two.
pub open spec fn is_text_of_blocks(joined: Seq<char>, blocks: Seq<JsonView>) -> bool {
    exists|at: Seq<int>, parts: Seq<Seq<char>>|
        #![trigger places::are_places(at, blocks.len() as int, speaking(blocks)), text::join(
            parts,
            "\n"@,
        )]
        {
            &&& places::are_places(at, blocks.len() as int, speaking(blocks))
            &&& parts.len() == at.len()
            &&& forall|k: int| 0 <= k < at.len() ==> says(blocks[#[trigger] at[k]], parts[k])
            &&& joined == text::join(parts, "\n"@)
        }
}

proof fn joined_texts_are_those_said(blocks: Seq<JsonView>)
    ensures
        is_text_of_blocks(decode::joined_texts(blocks), blocks),
{
    let at = words_are_those_said(blocks);
    let parts = decode::block_texts(blocks);
    assert(decode::joined_texts(blocks) == text::join(parts, "\n"@));
    assert(places::are_places(at, blocks.len() as int, speaking(blocks)));
}

/// The words of a message's content are a text as it is, the text of a list of blocks, or what
/// stands under `text` in an object; anything else has none.
pub proof fn content_is_its_words(content: JsonView)
    ensures
        content matches JsonView::Text(words) ==> decode::content_text(content) == words,
        content matches JsonView::Array(blocks) ==> is_text_of_blocks(
            decode::content_text(content),
            blocks,
        ),
        content is Object ==> (match content.field("text"@) {
            Some(JsonView::Text(words)) => decode::content_text(content) == words,
            _ => decode::content_text(content).len() == 0,
        }),
        content is Null || content is Bool || content is Number ==> decode::content_text(
            content,
        ).len() == 0,
{
    reveal_strlit("");
    if let JsonView::Array(blocks) = content {
        joined_texts_are_those_said(blocks);
    }
}

/// The output of a tool is a text as it is, the text of a list of blocks, that of the content of an
/// object, and otherwise the JSON of the value; nothing where it is `null`.
pub proof fn output_is_its_words(output: JsonView)
    ensures
        output matches JsonView::Text(words) ==> decode::output_text(output) == words,
        output is Null ==> decode::output_text(output).len() == 0,
        output matches JsonView::Array(blocks) ==> is_text_of_blocks(
            decode::output_text(output),
            blocks,
        ),
        output is Object ==> (match output.field("content"@) {
            Some(content) => decode::output_text(output) == decode::output_text(content),
            None => decode::output_text(output) == json::json_text(output),
        }),
        output is Bool || output is Number ==> decode::output_text(output) == json::json_text(
            output,
        ),
{
    reveal_strlit("");
    if let JsonView::Array(blocks) = output {
        joined_texts_are_those_said(blocks);
    }
}

/// A message says something just where its words are not white space alone, or it has a call or a
/// result.
pub proof fn message_says_something(message: MessageView)
    ensures
        session::is_material(message) <==> !text::is_blank_text(message.content)
            || message.tool_calls.len() > 0 || message.tool_results.len() > 0,
{
    let words = message.content;
    text::trimmed_text_stands_between_white_space(words);
    let trimmed = text::trim(words);
    let (before, behind) = choose|before: Seq<char>, behind: Seq<char>|
        #![trigger before + trimmed + behind]
        {
            &&& words == before + trimmed + behind
            &&& text::is_blank_text(before)
            &&& text::is_blank_text(behind)
        };
    if trimmed.len() > 0 {
        assert(words[before.len() as int] == trimmed[0]);
    } else {
        assert forall|i: int| 0 <= i < words.len() implies text::is_white_space(
            #[trigger] words[i],
        ) by {
            if i < before.len() {
                assert(words[i] == before[i]);
            } else {
                assert(words[i] == behind[i - before.len()]);
            }
        }
    }
}

// ---------------------------------------------------------------------------------------------
// Codex records
// ---------------------------------------------------------------------------------------------

/// A record is a Codex item with a payload of a kind, and no flat message.
pub open spec fn is_item(record: JsonView, payload: JsonView, kind: Seq<char>) -> bool {
    &&& record.field("type"@) == Some(JsonView::Text("response_item"@))
    &&& record.field("payload"@) == Some(payload)
    &&& payload.field("type"@) == Some(JsonView::Text(kind))
    &&& record.field("role"@) is None || record.field("content"@) is None
}

/// The id that a payload gives, or the one that is made of a prefix and the number of the record.
pub open spec fn is_id_of(
    id: Seq<char>,
    payload: JsonView,
    prefix: Seq<char>,
    number: nat,
) -> bool {
    &&& forall|given: Seq<char>| names_text(payload, "call_id"@, given) ==> id == given
    &&& names_no_text(payload, "call_id"@) ==> {
        &&& forall|given: Seq<char>| names_text(payload, "id"@, given) ==> id == given
        &&& names_no_text(payload, "id"@) ==> id == prefix + text::decimal(number)
    }
}

/// The name that a call gives, or `unknown`.
pub open spec fn is_name_of(name: Seq<char>, call: JsonView) -> bool {
    &&& forall|given: Seq<char>| names_text(call, "name"@, given) ==> name == given
    &&& names_no_text(call, "name"@) ==> name == "unknown"@
}

/// A record of a Codex item is read by its payload.
proof fn item_is_read_by_its_payload(
    record: JsonView,
    payload: JsonView,
    kind: Seq<char>,
    number: nat,
)
    requires
        is_item(record, payload, kind),
    ensures
        decode::record_message(record, number) == Ok::<Option<MessageView>, Seq<char>>(
            decode::codex_message(record, number),
        ),
        payload is Object,
        decode::kind_of(payload) == kind,
        forall|key: Seq<char>, given: Seq<char>|
            #[trigger] names_text(payload, key, given) ==> payload.nonempty_field(key) == Some(
                given,
            ),
        forall|key: Seq<char>|
            names_no_text(payload, key) ==> #[trigger] payload.nonempty_field(key) is None,
{
    reveal_strlit("response_item");
    reveal_strlit("user");
    reveal_strlit("assistant");
    assert("response_item"@.len() == 13 && "user"@.len() == 4 && "assistant"@.len() == 9);
    assert forall|key: Seq<char>| names_no_text(payload, key) implies (
    #[trigger] payload.nonempty_field(key)) is None by {
        if let Some(said) = payload.nonempty_field(key) {
            assert(names_text(payload, key, said));
        }
    }
}

/// A tool's output in a Codex record is one message of the tool with one result: the text of what
/// stands under `output`, or, where nothing does, of what stands under `result`. It failed where the
/// payload says so, and where nothing stands under either name there is no message.
pub proof fn codex_output_is_one_result(
    record: JsonView,
    payload: JsonView,
    stem: Seq<char>,
    number: nat,
)
    requires
        is_item(record, payload, stem + "_output"@),
    ensures
        ({
            let given = if payload.field("output"@) is Some {
                payload.field("output"@)
            } else {
                payload.field("result"@)
            };
            match given {
                None => decode::record_message(record, number) == Ok::<
                    Option<MessageView>,
                    Seq<char>,
                >(None),
                Some(output) => {
                    &&& decode::record_message(record, number) matches Ok(Some(message))
                    &&& message.role == "tool"@
                    &&& message.content.len() == 0
                    &&& message.tool_calls.len() == 0
                    &&& message.tool_results.len() == 1
                    &&& output matches JsonView::Text(said) ==> message.tool_results[0].content
                        == said
                    &&& message.tool_results[0].content == decode::output_text(output)
                    &&& is_id_of(
                        message.tool_results[0].tool_call_id,
                        payload,
                        "codex_result_"@,
                        number,
                    )
                    &&& message.tool_results[0].is_error <==> tells_of_failure(payload)
                },
            }
        }),
{
    reveal_strlit("_output");
    reveal_strlit("reasoning");
    reveal_strlit("message");
    reveal_strlit("function_call");
    reveal_strlit("custom_tool_call");
    reveal_strlit("");
    let kind = stem + "_output"@;
    item_is_read_by_its_payload(record, payload, kind, number);
    assert(kind.last() == 't');
    assert("reasoning"@.last() == 'g' && "message"@.last() == 'e' && "function_call"@.last() == 'l'
        && "custom_tool_call"@.last() == 'l');
    assert(kind.skip(kind.len() - "_output"@.len()) =~= "_output"@);
    failure_is_told(payload);
}

/// A payload tells that its tool failed: under `is_error`, or with the status `error` or `failed`,
/// whatever letters of it are capital.
pub open spec fn tells_of_failure(payload: JsonView) -> bool {
    ||| payload.field("is_error"@) == Some(JsonView::Bool(true))
    ||| exists|status: Seq<char>|
        payload.field("status"@) == Some(JsonView::Text(status)) && (
        #[trigger] text::ascii_lowercase(status) == "error"@ || text::ascii_lowercase(status)
            == "failed"@)
}

proof fn failure_is_told(payload: JsonView)
    ensures
        decode::says_error(payload) <==> tells_of_failure(payload),
{
    if let Some(JsonView::Text(status)) = payload.field("status"@) {
        assert(text::ascii_lowercase(status) == text::ascii_lowercase(status));
    }
}

/// The arguments that a value gives: an object is what they are, nothing and `null` are none, and
/// anything else stands under a name.
pub open spec fn are_arguments_of(
    arguments: JsonView,
    given: Option<JsonView>,
    key: Seq<char>,
) -> bool {
    match given {
        None => arguments == JsonView::Object(Map::empty()),
        Some(value) => if value is Null {
            arguments == JsonView::Object(Map::empty())
        } else if value is Object {
            arguments == value
        } else {
            arguments == JsonView::Object(Map::empty().insert(key, value))
        },
    }
}

/// A function call in a Codex record is one message of the assistant with one call. Its arguments
/// may be given as a text: then they are what the text spells, under `value` where that is no object,
/// and the text itself under `raw` where it is no JSON.
pub proof fn codex_function_call_is_one_call(record: JsonView, payload: JsonView, number: nat)
    requires
        is_item(record, payload, "function_call"@),
    ensures
        ({
            &&& decode::record_message(record, number) matches Ok(Some(message))
            &&& message.role == "assistant"@
            &&& message.content.len() == 0
            &&& message.tool_results.len() == 0
            &&& message.tool_calls.len() == 1
            &&& is_id_of(message.tool_calls[0].id, payload, "codex_call_"@, number)
            &&& is_name_of(message.tool_calls[0].name, payload)
            &&& match payload.field("arguments"@) {
                Some(JsonView::Text(raw)) => match json::parsed_text(raw) {
                    Ok(value) => if value is Object {
                        message.tool_calls[0].arguments == value
                    } else {
                        message.tool_calls[0].arguments == JsonView::Object(
                            Map::empty().insert("value"@, value),
                        )
                    },
                    Err(_) => message.tool_calls[0].arguments == JsonView::Object(
                        Map::empty().insert("raw"@, JsonView::Text(raw)),
                    ),
                },
                given => are_arguments_of(message.tool_calls[0].arguments, given, "value"@),
            }
        }),
{
    reveal_strlit("reasoning");
    reveal_strlit("message");
    reveal_strlit("function_call");
    reveal_strlit("");
    assert("reasoning"@.len() == 9 && "message"@.len() == 7 && "function_call"@.len() == 13);
    item_is_read_by_its_payload(record, payload, "function_call"@, number);
}

/// A call of a custom tool in a Codex record is one message of the assistant with one call. Its input
/// may be given as a text: then it is the object that the text spells, or the text under `input`.
pub proof fn codex_custom_call_is_one_call(record: JsonView, payload: JsonView, number: nat)
    requires
        is_item(record, payload, "custom_tool_call"@),
    ensures
        ({
            &&& decode::record_message(record, number) matches Ok(Some(message))
            &&& message.role == "assistant"@
            &&& message.content.len() == 0
            &&& message.tool_results.len() == 0
            &&& message.tool_calls.len() == 1
            &&& is_id_of(message.tool_calls[0].id, payload, "codex_custom_call_"@, number)
            &&& is_name_of(message.tool_calls[0].name, payload)
            &&& match payload.field("input"@) {
                Some(JsonView::Text(raw)) => match json::parsed_text(raw) {
                    Ok(JsonView::Object(fields)) => message.tool_calls[0].arguments
                        == JsonView::Object(fields),
                    _ => message.tool_calls[0].arguments == JsonView::Object(
                        Map::empty().insert("input"@, JsonView::Text(raw)),
                    ),
                },
                given => are_arguments_of(message.tool_calls[0].arguments, given, "input"@),
            }
        }),
{
    reveal_strlit("reasoning");
    reveal_strlit("message");
    reveal_strlit("function_call");
    reveal_strlit("custom_tool_call");
    reveal_strlit("");
    assert("reasoning"@.len() == 9 && "message"@.len() == 7 && "function_call"@.len() == 13
        && "custom_tool_call"@.len() == 16);
    item_is_read_by_its_payload(record, payload, "custom_tool_call"@, number);
}

/// A message in a Codex record is one of the user, or of the assistant, who may be called an agent,
/// with the words of its content. One of any other role, and one without words, is none.
pub proof fn codex_message_is_what_one_side_says(
    record: JsonView,
    payload: JsonView,
    number: nat,
)
    requires
        is_item(record, payload, "message"@),
    ensures
        ({
            let words = match payload.field("content"@) {
                Some(content) => decode::content_text(content),
                None => Seq::empty(),
            };
            let role = payload.field("role"@);
            let is_user = role == Some(JsonView::Text("user"@));
            let is_assistant = role == Some(JsonView::Text("assistant"@)) || role == Some(
                JsonView::Text("agent"@),
            );
            if (is_user || is_assistant) && !text::is_blank_text(words) {
                &&& decode::record_message(record, number) matches Ok(Some(message))
                &&& message.role == (if is_user {
                    "user"@
                } else {
                    "assistant"@
                })
                &&& message.content == words
                &&& message.tool_calls.len() == 0
                &&& message.tool_results.len() == 0
            } else {
                decode::record_message(record, number) == Ok::<Option<MessageView>, Seq<char>>(
                    None,
                )
            }
        }),
{
    reveal_strlit("reasoning");
    reveal_strlit("message");
    reveal_strlit("user");
    reveal_strlit("assistant");
    reveal_strlit("agent");
    reveal_strlit("");
    assert("reasoning"@.len() == 9 && "message"@.len() == 7 && "user"@.len() == 4
        && "assistant"@.len() == 9 && "agent"@.len() == 5);
    item_is_read_by_its_payload(record, payload, "message"@, number);
    let content = match payload.field("content"@) {
        Some(content) => decode::content_text(content),
        None => ""@,
    };
    assert(payload.field("content"@) is None ==> content =~= Seq::<char>::empty());
    if let Some(JsonView::Text(given)) = payload.field("role"@) {
        if let Some(role) = decode::codex_role(given) {
            message_says_something(
                MessageView {
                    index: 0,
                    role,
                    content,
                    tool_calls: Seq::empty(),
                    tool_results: Seq::empty(),
                },
            );
        }
    }
}

/// A Codex record of private reasoning, and one of a kind that is not known and holds no output, is
/// no message.
pub proof fn other_codex_items_are_no_message(
    record: JsonView,
    payload: JsonView,
    kind: Seq<char>,
    number: nat,
)
    requires
        is_item(record, payload, kind),
        kind == "reasoning"@ || kind != "message"@ && kind != "function_call"@ && kind
            != "custom_tool_call"@ && !text::has_suffix(kind, "_output"@),
    ensures
        decode::record_message(record, number) == Ok::<Option<MessageView>, Seq<char>>(None),
{
    item_is_read_by_its_payload(record, payload, kind, number);
}

// ---------------------------------------------------------------------------------------------
// Records with the message inside
// ---------------------------------------------------------------------------------------------

/// A record has a message of one side inside, with content, and is no flat message.
pub open spec fn has_message_inside(
    record: JsonView,
    role: Seq<char>,
    content: JsonView,
) -> bool {
    &&& record.field("type"@) == Some(JsonView::Text("user"@)) || record.field("type"@) == Some(
        JsonView::Text("assistant"@),
    )
    &&& role == "user"@ || role == "assistant"@
    &&& record.field("message"@) matches Some(message) && {
        &&& message.field("role"@) == Some(JsonView::Text(role))
        &&& message.field("content"@) == Some(content)
    }
    &&& record.field("role"@) is None || record.field("content"@) is None
}

/// A block is of a kind.
pub open spec fn is_block_of(block: JsonView, kind: Seq<char>) -> bool {
    block.field("type"@) == Some(JsonView::Text(kind))
}

/// Which blocks are of a kind.
pub open spec fn blocks_of(blocks: Seq<JsonView>, kind: Seq<char>) -> spec_fn(int) -> bool {
    |i: int| is_block_of(blocks[i], kind)
}

/// The id that a block gives, or the one that is made of a prefix and the numbers of the record and
/// the block.
pub open spec fn is_made_block_id(id: Seq<char>, prefix: Seq<char>, number: nat, i: int) -> bool {
    id == prefix + text::decimal(number) + "_"@ + text::decimal(i as nat)
}

/// A call is the one that a `tool_use` block makes.
pub open spec fn is_call_of_block(
    call: ToolCallView,
    block: JsonView,
    number: nat,
    i: int,
) -> bool {
    &&& forall|given: Seq<char>| names_text(block, "id"@, given) ==> call.id == given
    &&& names_no_text(block, "id"@) ==> is_made_block_id(call.id, "claude_call_"@, number, i)
    &&& is_name_of(call.name, block)
    &&& are_arguments_of(call.arguments, block.field("input"@), "input"@)
}

/// A result is the one that a `tool_result` block gives.
pub open spec fn is_result_of_block(
    result: ToolResultView,
    block: JsonView,
    number: nat,
    i: int,
) -> bool {
    &&& forall|given: Seq<char>|
        names_text(block, "tool_use_id"@, given) ==> result.tool_call_id == given
    &&& names_no_text(block, "tool_use_id"@) ==> {
        &&& forall|given: Seq<char>|
            names_text(block, "tool_call_id"@, given) ==> result.tool_call_id == given
        &&& names_no_text(block, "tool_call_id"@) ==> is_made_block_id(
            result.tool_call_id,
            "claude_result_"@,
            number,
            i,
        )
    }
    &&& match block.field("content"@) {
        Some(content) => result.content == decode::output_text(content),
        None => result.content.len() == 0,
    }
    &&& result.is_error <==> block.field("is_error"@) == Some(JsonView::Bool(true))
}

/// The calls are those that the `tool_use` blocks make, in order.
pub open spec fn are_calls_of_blocks(
    calls: Seq<ToolCallView>,
    blocks: Seq<JsonView>,
    number: nat,
) -> bool {
    exists|at: Seq<int>| #[trigger]
        places::are_places(at, blocks.len() as int, blocks_of(blocks, "tool_use"@)) && {
            &&& calls.len() == at.len()
            &&& forall|k: int|
                0 <= k < at.len() ==> is_call_of_block(
                    calls[k],
                    blocks[#[trigger] at[k]],
                    number,
                    at[k],
                )
        }
}

/// The results are those that the `tool_result` blocks give, in order.
pub open spec fn are_results_of_blocks(
    results: Seq<ToolResultView>,
    blocks: Seq<JsonView>,
    number: nat,
) -> bool {
    exists|at: Seq<int>| #[trigger]
        places::are_places(at, blocks.len() as int, blocks_of(blocks, "tool_result"@)) && {
            &&& results.len() == at.len()
            &&& forall|k: int|
                0 <= k < at.len() ==> is_result_of_block(
                    results[k],
                    blocks[#[trigger] at[k]],
                    number,
                    at[k],
                )
        }
}

proof fn nonempty_fields(value: JsonView)
    ensures
        forall|key: Seq<char>, given: Seq<char>|
            #[trigger] names_text(value, key, given) ==> value.nonempty_field(key) == Some(given),
        forall|key: Seq<char>|
            names_no_text(value, key) ==> #[trigger] value.nonempty_field(key) is None,
{
    assert forall|key: Seq<char>| names_no_text(value, key) implies (
    #[trigger] value.nonempty_field(key)) is None by {
        if let Some(said) = value.nonempty_field(key) {
            assert(names_text(value, key, said));
        }
    }
}

proof fn call_is_of_its_block(block: JsonView, number: nat, i: nat)
    ensures
        is_call_of_block(decode::claude_call(block, number, i), block, number, i as int),
{
    nonempty_fields(block);
}

proof fn result_is_of_its_block(block: JsonView, number: nat, i: nat)
    ensures
        is_result_of_block(decode::claude_result(block, number, i), block, number, i as int),
{
    reveal_strlit("");
    nonempty_fields(block);
}

proof fn calls_go_by_blocks(blocks: Seq<JsonView>, number: nat, n: nat) -> (at: Seq<int>)
    requires
        n <= blocks.len(),
    ensures
        places::are_places(at, n as int, blocks_of(blocks, "tool_use"@)),
        decode::claude_calls(blocks, number, n).len() == at.len(),
        forall|k: int|
            0 <= k < at.len() ==> is_call_of_block(
                decode::claude_calls(blocks, number, n)[k],
                blocks[#[trigger] at[k]],
                number,
                at[k],
            ),
    decreases n,
{
    if n == 0 {
        Seq::empty()
    } else {
        let i = (n - 1) as nat;
        let before = calls_go_by_blocks(blocks, number, i);
        let is_use = blocks_of(blocks, "tool_use"@);
        places::one_more_place(before, i as int, is_use);
        call_is_of_its_block(blocks[i as int], number, i);
        assert(is_use(i as int) <==> blocks[i as int] is Object && decode::kind_of(
            blocks[i as int],
        ) == "tool_use"@) by {
            reveal_strlit("tool_use");
            reveal_strlit("");
            assert("tool_use"@.len() == 8 && ""@.len() == 0);
        }
        if is_use(i as int) {
            before.push(i as int)
        } else {
            before
        }
    }
}

proof fn results_go_by_blocks(blocks: Seq<JsonView>, number: nat, n: nat) -> (at: Seq<int>)
    requires
        n <= blocks.len(),
    ensures
        places::are_places(at, n as int, blocks_of(blocks, "tool_result"@)),
        decode::claude_results(blocks, number, n).len() == at.len(),
        forall|k: int|
            0 <= k < at.len() ==> is_result_of_block(
                decode::claude_results(blocks, number, n)[k],
                blocks[#[trigger] at[k]],
                number,
                at[k],
            ),
    decreases n,
{
    if n == 0 {
        Seq::empty()
    } else {
        let i = (n - 1) as nat;
        let before = results_go_by_blocks(blocks, number, i);
        let is_result = blocks_of(blocks, "tool_result"@);
        places::one_more_place(before, i as int, is_result);
        result_is_of_its_block(blocks[i as int], number, i);
        assert(is_result(i as int) <==> blocks[i as int] is Object && decode::kind_of(
            blocks[i as int],
        ) == "tool_result"@) by {
            reveal_strlit("tool_result");
            reveal_strlit("");
            assert("tool_result"@.len() == 11 && ""@.len() == 0);
        }
        if is_result(i as int) {
            before.push(i as int)
        } else {
            before
        }
    }
}

/// A record with a message inside is that message: one side says the words of its content and, where
/// that is a list of blocks, makes the calls and gives the results of its blocks. It is none where
/// there are no words, no calls and no results.
pub proof fn message_inside_is_what_its_blocks_say(
    record: JsonView,
    role: Seq<char>,
    content: JsonView,
    number: nat,
)
    requires
        has_message_inside(record, role, content),
    ensures
        match decode::record_message(record, number) {
            Ok(Some(message)) => {
                &&& message.role == role
                &&& message.content == decode::content_text(content)
                &&& match content {
                    JsonView::Array(blocks) => are_calls_of_blocks(
                        message.tool_calls,
                        blocks,
                        number,
                    ) && are_results_of_blocks(message.tool_results, blocks, number),
                    _ => message.tool_calls.len() == 0 && message.tool_results.len() == 0,
                }
            },
            Ok(None) => {
                &&& text::is_blank_text(decode::content_text(content))
                &&& content matches JsonView::Array(blocks) ==> forall|i: int|
                    0 <= i < blocks.len() ==> !is_block_of(#[trigger] blocks[i], "tool_use"@)
                        && !is_block_of(blocks[i], "tool_result"@)
            },
            Err(_) => false,
        },
        decode::record_message(record, number) matches Ok(Some(message)) ==> session::is_material(
            message,
        ),
{
    let spoken = decode::claude_spoken(role, content, number);
    message_says_something(spoken);
    assert(decode::is_claude(record));
    assert(decode::record_message(record, number) == Ok::<Option<MessageView>, Seq<char>>(
        decode::claude_message(record, number),
    ));
    if let JsonView::Array(blocks) = content {
        let uses = calls_go_by_blocks(blocks, number, blocks.len());
        let results = results_go_by_blocks(blocks, number, blocks.len());
        let is_use = blocks_of(blocks, "tool_use"@);
        let is_result = blocks_of(blocks, "tool_result"@);
        assert(places::are_places(uses, blocks.len() as int, is_use));
        assert(places::are_places(results, blocks.len() as int, is_result));
        assert(are_calls_of_blocks(spoken.tool_calls, blocks, number));
        assert(are_results_of_blocks(spoken.tool_results, blocks, number));
        if !session::is_material(spoken) {
            assert forall|i: int| 0 <= i < blocks.len() implies !is_block_of(
                #[trigger] blocks[i],
                "tool_use"@,
            ) && !is_block_of(blocks[i], "tool_result"@) by {
                if is_block_of(blocks[i], "tool_use"@) {
                    assert(is_use(i));
                    assert(uses.contains(i));
                }
                if is_block_of(blocks[i], "tool_result"@) {
                    assert(is_result(i));
                    assert(results.contains(i));
                }
            }
        }
    }
}

} // verus!
