//! Tool calls that are written into a message's text.
//!
//! A message may carry markers of the form `[Tool: <Name> - <detail>]`, where `<detail>` is a
//! path for tools that work on files and a description for tools that run commands. Each marker
//! stands for one tool call.

use crate::cass::session::{ToolCall, ToolCallView};
use crate::json;
use crate::json::JsonView;
use crate::text;
use crate::text::{
    chars_of, decimal_text, find_chars, in_small_letters, same_text, string_of, trim_chars,
};
use vstd::prelude::*;
use vstd::slice::slice_subrange;
use vstd::string::*;

verus! {

/// The id of the call number `seq` of message number `message`.
pub open spec fn inline_id(message: nat, seq: nat) -> Seq<char> {
    "inline_"@ + text::decimal(message) + "_"@ + text::decimal(seq)
}

/// The tools, by small-letter name, whose detail is a command.
pub open spec fn is_command_tool(name: Seq<char>) -> bool {
    ||| name == "bash"@
    ||| name == "shell"@
    ||| name == "command"@
    ||| name == "terminal"@
    ||| name == "exec"@
}

/// The tools, by small-letter name, whose detail is a path.
pub open spec fn is_file_tool(name: Seq<char>) -> bool {
    ||| name == "read"@
    ||| name == "edit"@
    ||| name == "write"@
    ||| name == "notebookedit"@
    ||| name == "multiedit"@
}

/// The argument that the detail of a marker stands for.
pub open spec fn marker_key(name: Seq<char>) -> Seq<char> {
    if is_command_tool(name) {
        "command"@
    } else if is_file_tool(name) {
        "file_path"@
    } else {
        "detail"@
    }
}

/// The arguments of a call, from the small-letter name of its tool and the marker's detail.
pub open spec fn marker_arguments(name: Seq<char>, detail: Option<Seq<char>>) -> JsonView {
    match detail {
        Some(d) => json::object_of(marker_key(name), JsonView::Text(d)),
        None => json::empty_object(),
    }
}

/// The name and the detail in the trimmed inside of a marker.
pub open spec fn marker_parts(inner: Seq<char>) -> (Seq<char>, Option<Seq<char>>) {
    match text::find_from(inner, " - "@, 0) {
        Some(at) => (
            text::trim(inner.take(at)),
            Some(text::trim(inner.skip(at + " - "@.len()))),
        ),
        None => (inner, None),
    }
}

/// The first marker of a text: what stands between its brackets, and the text behind it.
pub open spec fn first_marker(content: Seq<char>) -> Option<(Seq<char>, Seq<char>)> {
    match text::find_from(content, "[Tool:"@, 0) {
        Some(start) => {
            let after = content.skip(start + "[Tool:"@.len());
            match text::find_from(after, "]"@, 0) {
                Some(end) => Some((after.take(end), after.skip(end + "]"@.len()))),
                None => None,
            }
        },
        None => None,
    }
}

/// The calls that the markers of a text stand for, numbered from `seq` on. A marker without a
/// name stands for none.
pub open spec fn inline_calls(content: Seq<char>, message: nat, seq: nat) -> Seq<ToolCallView>
    decreases content.len(),
    via inline_calls_decreases
{
    match first_marker(content) {
        Some((inside, rest)) => {
            let (name, detail) = marker_parts(text::trim(inside));
            if name.len() == 0 {
                inline_calls(rest, message, seq)
            } else {
                seq![
                    ToolCallView {
                        id: inline_id(message, seq),
                        name,
                        arguments: marker_arguments(text::small_letters(name), detail),
                    },
                ] + inline_calls(rest, message, seq + 1)
            }
        },
        None => Seq::empty(),
    }
}

/// The text behind a marker is shorter than the text that it stands in.
proof fn first_marker_shrinks(content: Seq<char>)
    ensures
        first_marker(content) matches Some((_, rest)) ==> rest.len() < content.len(),
{
    reveal_strlit("[Tool:");
    reveal_strlit("]");
    text::find_from_is_first(content, "[Tool:"@, 0);
    if let Some(start) = text::find_from(content, "[Tool:"@, 0) {
        text::find_from_is_first(content.skip(start + "[Tool:"@.len()), "]"@, 0);
    }
}

#[via_fn]
proof fn inline_calls_decreases(content: Seq<char>, message: nat, seq: nat) {
    first_marker_shrinks(content);
}

/// No two calls share an id: the id tells the message and the call's number in it.
pub proof fn inline_ids_are_unique(message1: nat, seq1: nat, message2: nat, seq2: nat)
    requires
        inline_id(message1, seq1) == inline_id(message2, seq2),
    ensures
        message1 == message2,
        seq1 == seq2,
{
    reveal_strlit("inline_");
    reveal_strlit("_");
    let prefix = "inline_"@;
    let m1 = text::decimal(message1);
    let m2 = text::decimal(message2);
    let s1 = text::decimal(seq1);
    let s2 = text::decimal(seq2);
    assert("_"@ == seq!['_']);
    assert(inline_id(message1, seq1).skip(prefix.len() as int) == m1 + seq!['_'] + s1);
    assert(inline_id(message2, seq2).skip(prefix.len() as int) == m2 + seq!['_'] + s2);
    text::decimal_is_digits(message1);
    text::decimal_is_digits(message2);
    text::digits_end_at(m1, s1, m2, s2, '_');
    text::decimal_is_injective(message1, message2);
    text::decimal_is_injective(seq1, seq2);
}

/// The calls of a message are numbered in order, without a gap, and none is without a name.
pub proof fn inline_calls_are_numbered(content: Seq<char>, message: nat, seq: nat)
    ensures
        forall|k: int|
            0 <= k < inline_calls(content, message, seq).len() ==> {
                &&& (#[trigger] inline_calls(content, message, seq)[k]).id == inline_id(
                    message,
                    (seq + k) as nat,
                )
                &&& inline_calls(content, message, seq)[k].name.len() > 0
            },
    decreases content.len(),
{
    first_marker_shrinks(content);
    if let Some((inside, rest)) = first_marker(content) {
        let (name, detail) = marker_parts(text::trim(inside));
        if name.len() == 0 {
            inline_calls_are_numbered(rest, message, seq);
        } else {
            inline_calls_are_numbered(rest, message, seq + 1);
            let tail = inline_calls(rest, message, seq + 1);
            assert forall|k: int| 0 <= k < inline_calls(content, message, seq).len() implies {
                &&& (#[trigger] inline_calls(content, message, seq)[k]).id == inline_id(
                    message,
                    (seq + k) as nat,
                )
                &&& inline_calls(content, message, seq)[k].name.len() > 0
            } by {
                if k > 0 {
                    assert(inline_calls(content, message, seq)[k] == tail[k - 1]);
                }
            }
        }
    }
}

/// The calls that a text's markers stand for differ from message to message in their ids alone.
pub proof fn inline_calls_differ_in_ids_alone(content: Seq<char>, m: nat, n: nat, seq: nat)
    ensures
        ({
            let a = inline_calls(content, m, seq);
            let b = inline_calls(content, n, seq);
            &&& a.len() == b.len()
            &&& forall|i: int|
                #![trigger a[i]]
                #![trigger b[i]]
                0 <= i < a.len() ==> a[i].name == b[i].name && a[i].arguments == b[i].arguments
        }),
    decreases content.len(),
{
    first_marker_shrinks(content);
    if let Some((inside, rest)) = first_marker(content) {
        let (name, detail) = marker_parts(text::trim(inside));
        if name.len() == 0 {
            inline_calls_differ_in_ids_alone(rest, m, n, seq);
        } else {
            inline_calls_differ_in_ids_alone(rest, m, n, seq + 1);
            let a = inline_calls(content, m, seq);
            let b = inline_calls(content, n, seq);
            let a_tail = inline_calls(rest, m, seq + 1);
            let b_tail = inline_calls(rest, n, seq + 1);
            assert forall|i: int|
                #![trigger a[i]]
                #![trigger b[i]]
                0 <= i < a.len() implies a[i].name == b[i].name && a[i].arguments
                == b[i].arguments by {
                if i > 0 {
                    assert(a[i] == a_tail[i - 1] && b[i] == b_tail[i - 1]);
                }
            }
        }
    }
}

/// The calls that one message's markers stand for have different ids, and none of them has the id
/// of a call of another message.
pub proof fn inline_calls_are_distinct(
    content1: Seq<char>,
    message1: nat,
    k1: int,
    content2: Seq<char>,
    message2: nat,
    k2: int,
)
    requires
        0 <= k1 < inline_calls(content1, message1, 0).len(),
        0 <= k2 < inline_calls(content2, message2, 0).len(),
        message1 != message2 || k1 != k2,
    ensures
        inline_calls(content1, message1, 0)[k1].id != inline_calls(content2, message2, 0)[k2].id,
{
    inline_calls_are_numbered(content1, message1, 0);
    inline_calls_are_numbered(content2, message2, 0);
    if inline_calls(content1, message1, 0)[k1].id == inline_calls(content2, message2, 0)[k2].id {
        inline_ids_are_unique(message1, k1 as nat, message2, k2 as nat);
    }
}

/// A text without an opening bracket of a marker stands for no call.
pub proof fn no_marker_no_call(content: Seq<char>, message: nat, seq: nat)
    requires
        !text::occurs_in(content, "[Tool:"@),
    ensures
        inline_calls(content, message, seq).len() == 0,
{
    text::find_from_is_first(content, "[Tool:"@, 0);
}

/// The id of the call number `seq` of message number `message`.
fn inline_call_id(message: usize, seq: usize) -> (r: String)
    ensures
        r@ == inline_id(message as nat, seq as nat),
{
    let mut out = "inline_".to_owned();
    let m = decimal_text(message as u64);
    let s = decimal_text(seq as u64);
    out.append(m.as_str());
    out.append("_");
    out.append(s.as_str());
    out
}

/// The argument that the detail of a marker stands for.
fn detail_key(name: &str) -> (r: &'static str)
    ensures
        r@ == marker_key(name@),
{
    if same_text(name, "bash") || same_text(name, "shell") || same_text(name, "command")
        || same_text(name, "terminal") || same_text(name, "exec") {
        "command"
    } else if same_text(name, "read") || same_text(name, "edit") || same_text(name, "write")
        || same_text(name, "notebookedit") || same_text(name, "multiedit") {
        "file_path"
    } else {
        "detail"
    }
}

/// The arguments of a call, from the small-letter name of its tool and the marker's detail.
pub fn inline_arguments(name_lower: &str, detail: Option<&str>) -> (r: serde_json::Value)
    ensures
        json::json_contents(r) == marker_arguments(name_lower@, text::opt_str(detail)),
{
    match detail {
        Some(d) => json::value_of_entry(detail_key(name_lower), json::value_of_text(d)),
        None => json::value_of_nothing(),
    }
}

/// The name and the detail in the trimmed inside of a marker.
fn split_marker(inner: &[char]) -> (r: (String, Option<String>))
    ensures
        (r.0@, text::opt_text(r.1)) == marker_parts(inner@),
{
    let separator = chars_of(" - ");
    match find_chars(inner, separator.as_slice(), 0) {
        Some(at) => {
            let name = trim_chars(slice_subrange(inner, 0, at));
            let detail = trim_chars(slice_subrange(inner, at + separator.len(), inner.len()));
            proof {
                assert(inner@.subrange(0, at as int) == inner@.take(at as int));
                assert(inner@.subrange(at + separator@.len(), inner@.len() as int) == inner@.skip(
                    at + " - "@.len(),
                ));
            }
            (string_of(name), Some(string_of(detail)))
        },
        None => (string_of(inner), None),
    }
}

/// Reconstruct structured tool calls from inline `[Tool: …]` markers.
///
/// The detail of a marker becomes the argument `command` for tools that run commands and
/// `file_path` for tools that work on files. `msg_index` is woven into a synthetic id, which no
/// other call has.
pub fn parse_inline_tool_markers(content: &str, msg_index: usize) -> (r: Vec<ToolCall>)
    ensures
        crate::cass::session::call_views(r@) == inline_calls(content@, msg_index as nat, 0),
{
    let all = chars_of(content);
    let open = chars_of("[Tool:");
    let close = chars_of("]");
    let mut calls: Vec<ToolCall> = Vec::new();
    let mut rest: &[char] = all.as_slice();
    let ghost whole = inline_calls(content@, msg_index as nat, 0);
    proof {
        assert(crate::cass::session::call_views(calls@) + inline_calls(
            rest@,
            msg_index as nat,
            0,
        ) == whole);
    }
    loop
        invariant
            open@ == "[Tool:"@,
            close@ == "]"@,
            calls@.len() + rest@.len() <= all@.len(),
            crate::cass::session::call_views(calls@) + inline_calls(
                rest@,
                msg_index as nat,
                calls@.len(),
            ) == whole,
        ensures
            crate::cass::session::call_views(calls@) == whole,
        decreases rest@.len(),
    {
        proof {
            first_marker_shrinks(rest@);
        }
        let ghost before = crate::cass::session::call_views(calls@);
        let ghost left = rest@;
        let start = match find_chars(rest, open.as_slice(), 0) {
            Some(start) => start,
            None => {
                assert(before + inline_calls(left, msg_index as nat, calls@.len()) == before);
                break;
            },
        };
        let after = slice_subrange(rest, start + open.len(), rest.len());
        assert(after@ == left.skip(start + "[Tool:"@.len()));
        let end = match find_chars(after, close.as_slice(), 0) {
            Some(end) => end,
            None => {
                assert(before + inline_calls(left, msg_index as nat, calls@.len()) == before);
                break;
            },
        };
        let inside = slice_subrange(after, 0, end);
        assert(inside@ == after@.take(end as int));
        rest = slice_subrange(after, end + close.len(), after.len());
        assert(rest@ == after@.skip(end + "]"@.len()));
        assert(first_marker(left) == Some((inside@, rest@)));
        let (name, detail) = split_marker(trim_chars(inside));
        if name.as_str().is_empty() {
            continue;
        }
        let lower = in_small_letters(name.as_str());
        let arguments = match &detail {
            Some(d) => inline_arguments(lower.as_str(), Some(d.as_str())),
            None => inline_arguments(lower.as_str(), None),
        };
        let call = ToolCall { id: inline_call_id(msg_index, calls.len()), name, arguments };
        let ghost call_view = call@;
        let ghost seq = calls@.len();
        calls.push(call);
        proof {
            let tail = inline_calls(rest@, msg_index as nat, seq + 1);
            assert(crate::cass::session::call_views(calls@) == before + seq![call_view]);
            assert(inline_calls(left, msg_index as nat, seq) == seq![call_view] + tail);
            assert(before + seq![call_view] + tail == before + (seq![call_view] + tail));
        }
    }
    calls
}

} // verus!
