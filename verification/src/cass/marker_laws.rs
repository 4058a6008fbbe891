//! What inline markers are read as.

use crate::cass::markers;
use crate::cass::session::ToolCallView;
use crate::json::JsonView;
use crate::text;
use vstd::prelude::*;

verus! {

/// The first position at which a pattern stands is the one that `find_from` gives.
proof fn found_first(whole: Seq<char>, pattern: Seq<char>, at: int)
    requires
        text::occurs_at(whole, pattern, at),
        forall|j: int| 0 <= j < at ==> !text::occurs_at(whole, pattern, j),
    ensures
        text::find_from(whole, pattern, 0) == Some(at),
{
    text::find_from_is_first(whole, pattern, 0);
    if let Some(i) = text::find_from(whole, pattern, 0) {
        if i < at {
            assert(!text::occurs_at(whole, pattern, i));
        }
        if at < i {
            assert(!text::occurs_at(whole, pattern, at));
        }
    }
}

/// A text has no character of a kind.
pub open spec fn lacks(text: Seq<char>, c: char) -> bool {
    forall|i: int| 0 <= i < text.len() ==> #[trigger] text[i] != c
}

/// A marker is what stands between `[Tool:` and the first `]` behind it.
proof fn marker_is_found(before: Seq<char>, inside: Seq<char>, rest: Seq<char>)
    requires
        lacks(before, '['),
        lacks(inside, ']'),
    ensures
        markers::first_marker(before + "[Tool:"@ + inside + "]"@ + rest) == Some((inside, rest)),
{
    reveal_strlit("[Tool:");
    reveal_strlit("]");
    let content = before + "[Tool:"@ + inside + "]"@ + rest;
    let start = before.len() as int;
    assert(content.subrange(start, start + 6) =~= "[Tool:"@);
    assert forall|j: int| 0 <= j < start implies !text::occurs_at(content, "[Tool:"@, j) by {
        if text::occurs_at(content, "[Tool:"@, j) {
            assert(content.subrange(j, j + 6)[0] == '[');
            assert(content[j] == before[j]);
        }
    }
    found_first(content, "[Tool:"@, start);
    let after = content.skip(start + 6);
    assert(after =~= inside + "]"@ + rest);
    let end = inside.len() as int;
    assert(after.subrange(end, end + 1) =~= "]"@);
    assert forall|j: int| 0 <= j < end implies !text::occurs_at(after, "]"@, j) by {
        if text::occurs_at(after, "]"@, j) {
            assert(after.subrange(j, j + 1)[0] == ']');
            assert(after[j] == inside[j]);
        }
    }
    found_first(after, "]"@, end);
    assert(after.take(end) =~= inside);
    assert(after.skip(end + 1) =~= rest);
}

/// The arguments with one text under one name.
pub open spec fn one_argument(key: Seq<char>, value: Seq<char>) -> JsonView {
    JsonView::Object(Map::empty().insert(key, JsonView::Text(value)))
}

/// A text that can be the name in a marker: it does not begin or end with white space, does not end
/// the marker, and has no dash that white space could stand around.
pub open spec fn is_marker_name(name: Seq<char>) -> bool {
    &&& name.len() > 0
    &&& !text::is_white_space(name[0])
    &&& !text::is_white_space(name.last())
    &&& lacks(name, ']')
    &&& lacks(name, '-') || forall|i: int|
        0 <= i < name.len() ==> !text::is_white_space(#[trigger] name[i])
}

/// A text that can be the detail in a marker: it does not begin or end with white space, and does
/// not end the marker.
pub open spec fn is_marker_detail(detail: Seq<char>) -> bool {
    &&& detail.len() > 0
    &&& !text::is_white_space(detail[0])
    &&& !text::is_white_space(detail.last())
    &&& lacks(detail, ']')
}

/// A marker with a detail is one call, numbered, with the name and with the detail as its one
/// argument: `command` for the five tools that run commands, `file_path` for the five that work on
/// files, whatever letters of their names are capital, and `detail` for any other. White space around
/// the parts does not count, and the calls of the text behind the marker follow.
pub proof fn marker_with_detail_is_one_call(
    before: Seq<char>,
    name: Seq<char>,
    detail: Seq<char>,
    rest: Seq<char>,
    blanks: (Seq<char>, Seq<char>, Seq<char>, Seq<char>),
    message: nat,
    seq: nat,
)
    requires
        lacks(before, '['),
        is_marker_name(name),
        is_marker_detail(detail),
        text::is_blank_text(blanks.0),
        text::is_blank_text(blanks.1),
        text::is_blank_text(blanks.2),
        text::is_blank_text(blanks.3),
    ensures
        ({
            let inside = blanks.0 + name + blanks.1 + " - "@ + blanks.2 + detail + blanks.3;
            let calls = markers::inline_calls(
                before + "[Tool:"@ + inside + "]"@ + rest,
                message,
                seq,
            );
            let arguments = calls[0].arguments;
            let small = text::small_letters(name);
            &&& calls.len() > 0
            &&& calls[0].id == "inline_"@ + text::decimal(message) + "_"@ + text::decimal(seq)
            &&& calls[0].name == name
            &&& calls.drop_first() == markers::inline_calls(rest, message, seq + 1)
            &&& small == "bash"@ ==> arguments == one_argument("command"@, detail)
            &&& small == "shell"@ ==> arguments == one_argument("command"@, detail)
            &&& small == "command"@ ==> arguments == one_argument("command"@, detail)
            &&& small == "terminal"@ ==> arguments == one_argument("command"@, detail)
            &&& small == "exec"@ ==> arguments == one_argument("command"@, detail)
            &&& small == "read"@ ==> arguments == one_argument("file_path"@, detail)
            &&& small == "edit"@ ==> arguments == one_argument("file_path"@, detail)
            &&& small == "write"@ ==> arguments == one_argument("file_path"@, detail)
            &&& small == "notebookedit"@ ==> arguments == one_argument("file_path"@, detail)
            &&& small == "multiedit"@ ==> arguments == one_argument("file_path"@, detail)
            &&& small != "bash"@ && small != "shell"@ && small != "command"@ && small != "terminal"@ && small != "exec"@ && small != "read"@ && small != "edit"@ && small != "write"@ && small != "notebookedit"@ && small != "multiedit"@
                ==> arguments == one_argument("detail"@, detail)
        }),
{
    reveal_strlit("bash");
    reveal_strlit("shell");
    reveal_strlit("command");
    reveal_strlit("terminal");
    reveal_strlit("exec");
    reveal_strlit("read");
    reveal_strlit("edit");
    reveal_strlit("write");
    reveal_strlit("notebookedit");
    reveal_strlit("multiedit");
    reveal_strlit(" - ");
    let inside = blanks.0 + name + blanks.1 + " - "@ + blanks.2 + detail + blanks.3;
    let content = before + "[Tool:"@ + inside + "]"@ + rest;
    let core = name + blanks.1 + " - "@ + blanks.2 + detail;
    blank_has_no_bracket(blanks.0);
    blank_has_no_bracket(blanks.1);
    blank_has_no_bracket(blanks.2);
    blank_has_no_bracket(blanks.3);
    let a = blanks.0.len() as int;
    let n = name.len() as int;
    let c = blanks.1.len() as int;
    let d = blanks.2.len() as int;
    assert(inside =~= blanks.0 + core + blanks.3);
    assert forall|i: int| 0 <= i < core.len() implies #[trigger] core[i] != ']' by {
        if i < n {
            assert(core[i] == name[i]);
        } else if i < n + c {
            assert(core[i] == blanks.1[i - n]);
        } else if i < n + c + 3 {
            assert(core[i] == " - "@[i - n - c]);
        } else if i < n + c + 3 + d {
            assert(core[i] == blanks.2[i - n - c - 3]);
        } else {
            assert(core[i] == detail[i - n - c - 3 - d]);
        }
    }
    assert forall|i: int| 0 <= i < inside.len() implies #[trigger] inside[i] != ']' by {
        if i < a {
            assert(inside[i] == blanks.0[i]);
        } else if i < a + core.len() {
            assert(inside[i] == core[i - a]);
        } else {
            assert(inside[i] == blanks.3[i - a - core.len()]);
        }
    }
    marker_is_found(before, inside, rest);
    assert(core[0] == name[0] && core.last() == detail.last());
    text::white_space_around_is_taken_away(blanks.0, core, blanks.3);
    let at = n + c;
    assert(core.subrange(at, at + 3) =~= " - "@);
    assert forall|j: int| 0 <= j < at implies !text::occurs_at(core, " - "@, j) by {
        if text::occurs_at(core, " - "@, j) {
            assert(core.subrange(j, j + 3)[0] == ' ' && core.subrange(j, j + 3)[1] == '-'
                && core.subrange(j, j + 3)[2] == ' ');
            assert(core[j] == ' ' && core[j + 1] == '-' && core[j + 2] == ' ');
            assert(text::is_white_space(' '));
            if j < n {
                assert(core[j] == name[j]);
                if j + 1 < n {
                    assert(core[j + 1] == name[j + 1]);
                } else {
                    assert(name.last() == ' ');
                }
            } else if j + 1 < at {
                assert(core[j + 1] == blanks.1[j + 1 - n]);
            } else {
                assert(core[j + 1] == " - "@[0]);
            }
        }
    }
    found_first(core, " - "@, at);
    let none = Seq::<char>::empty();
    assert(core.take(at) =~= none + name + blanks.1);
    text::white_space_around_is_taken_away(none, name, blanks.1);
    assert(core.skip(at + 3) =~= blanks.2 + detail + none);
    text::white_space_around_is_taken_away(blanks.2, detail, none);
    assert(markers::marker_parts(text::trim(inside)) == (name, Some(detail)));
    let calls = markers::inline_calls(content, message, seq);
    let tail = markers::inline_calls(rest, message, seq + 1);
    assert(calls.drop_first() =~= tail);
    assert("bash"@.len() == 4 && "bash"@[0] == 'b' && "bash"@[1] == 'a');
    assert("shell"@.len() == 5 && "shell"@[0] == 's' && "shell"@[1] == 'h');
    assert("command"@.len() == 7 && "command"@[0] == 'c' && "command"@[1] == 'o');
    assert("terminal"@.len() == 8 && "terminal"@[0] == 't' && "terminal"@[1] == 'e');
    assert("exec"@.len() == 4 && "exec"@[0] == 'e' && "exec"@[1] == 'x');
    assert("read"@.len() == 4 && "read"@[0] == 'r' && "read"@[1] == 'e');
    assert("edit"@.len() == 4 && "edit"@[0] == 'e' && "edit"@[1] == 'd');
    assert("write"@.len() == 5 && "write"@[0] == 'w' && "write"@[1] == 'r');
    assert("notebookedit"@.len() == 12 && "notebookedit"@[0] == 'n' && "notebookedit"@[1] == 'o');
    assert("multiedit"@.len() == 9 && "multiedit"@[0] == 'm' && "multiedit"@[1] == 'u');
}

/// White space ends no marker.
proof fn blank_has_no_bracket(blank: Seq<char>)
    requires
        text::is_blank_text(blank),
    ensures
        lacks(blank, ']'),
        lacks(blank, '-'),
{
    assert forall|i: int| 0 <= i < blank.len() implies #[trigger] blank[i] != ']' && blank[i]
        != '-' by {
        assert(text::is_white_space(blank[i]));
    }
}

/// A marker without a detail is one call without arguments, and one without a name is none. The
/// calls of the text behind it follow.
pub proof fn bare_marker_has_no_arguments(
    before: Seq<char>,
    name: Seq<char>,
    rest: Seq<char>,
    blanks: (Seq<char>, Seq<char>),
    message: nat,
    seq: nat,
)
    requires
        lacks(before, '['),
        name.len() > 0 ==> is_marker_name(name),
        text::is_blank_text(blanks.0),
        text::is_blank_text(blanks.1),
    ensures
        ({
            let inside = blanks.0 + name + blanks.1;
            let calls = markers::inline_calls(
                before + "[Tool:"@ + inside + "]"@ + rest,
                message,
                seq,
            );
            if name.len() == 0 {
                calls == markers::inline_calls(rest, message, seq)
            } else {
                &&& calls.len() > 0
                &&& calls[0] == ToolCallView {
                    id: "inline_"@ + text::decimal(message) + "_"@ + text::decimal(seq),
                    name,
                    arguments: JsonView::Object(Map::empty()),
                }
                &&& calls.drop_first() == markers::inline_calls(rest, message, seq + 1)
            }
        }),
{
    reveal_strlit(" - ");
    let inside = blanks.0 + name + blanks.1;
    blank_has_no_bracket(blanks.0);
    blank_has_no_bracket(blanks.1);
    assert forall|i: int| 0 <= i < inside.len() implies #[trigger] inside[i] != ']' by {
        if i < blanks.0.len() {
            assert(inside[i] == blanks.0[i]);
        } else if i < blanks.0.len() + name.len() {
            assert(inside[i] == name[i - blanks.0.len()]);
        } else {
            assert(inside[i] == blanks.1[i - blanks.0.len() - name.len()]);
        }
    }
    marker_is_found(before, inside, rest);
    text::white_space_around_is_taken_away(blanks.0, name, blanks.1);
    text::find_from_is_first(name, " - "@, 0);
    if let Some(j) = text::find_from(name, " - "@, 0) {
        assert(name.subrange(j, j + 3)[0] == ' ' && name.subrange(j, j + 3)[1] == '-');
        assert(name[j] == ' ' && name[j + 1] == '-');
        assert(text::is_white_space(' '));
    }
    let calls = markers::inline_calls(before + "[Tool:"@ + inside + "]"@ + rest, message, seq);
    if name.len() > 0 {
        assert(calls.drop_first() =~= markers::inline_calls(rest, message, seq + 1));
    }
}

/// A marker that is not closed is no call.
pub proof fn open_marker_is_no_call(
    before: Seq<char>,
    tail: Seq<char>,
    message: nat,
    seq: nat,
)
    requires
        lacks(before, '['),
        lacks(tail, ']'),
    ensures
        markers::inline_calls(before + "[Tool:"@ + tail, message, seq).len() == 0,
{
    reveal_strlit("[Tool:");
    reveal_strlit("]");
    let content = before + "[Tool:"@ + tail;
    let start = before.len() as int;
    assert(content.subrange(start, start + 6) =~= "[Tool:"@);
    assert forall|j: int| 0 <= j < start implies !text::occurs_at(content, "[Tool:"@, j) by {
        if text::occurs_at(content, "[Tool:"@, j) {
            assert(content.subrange(j, j + 6)[0] == '[');
            assert(content[j] == before[j]);
        }
    }
    found_first(content, "[Tool:"@, start);
    let after = content.skip(start + 6);
    assert(after =~= tail);
    text::find_from_is_first(after, "]"@, 0);
    if let Some(j) = text::find_from(after, "]"@, 0) {
        assert(after.subrange(j, j + 1)[0] == ']');
    }
}

} // verus!
