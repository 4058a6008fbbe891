//! What flat messages and whole exports are read as.

use crate::cass::decode;
use crate::cass::decode::ExportErrorView;
use crate::cass::markers;
use crate::cass::session;
use crate::cass::session::{MessageView, ToolCallView, ToolResultView};
use crate::json;
use crate::json::JsonView;
use crate::places;
use crate::text;
use vstd::prelude::*;

verus! {

// ---------------------------------------------------------------------------------------------
// Flat messages
// ---------------------------------------------------------------------------------------------

/// A record is a flat message: it has a role and content, whatever these are.
pub open spec fn is_flat(record: JsonView) -> bool {
    record.field("role"@) is Some && record.field("content"@) is Some
}

/// A field gives a text, where it may be missing or `null` for the empty one.
pub open spec fn gives_text(value: Option<JsonView>, said: Seq<char>) -> bool {
    match value {
        Some(JsonView::Text(t)) => said == t,
        Some(JsonView::Null) => said.len() == 0,
        None => said.len() == 0,
        _ => false,
    }
}

/// A field gives a size, where it may be missing for 0.
pub open spec fn gives_size(value: Option<JsonView>, n: nat) -> bool {
    match value {
        None => n == 0,
        Some(JsonView::Number { unsigned: Some(u), .. }) => n == u && u <= usize::MAX,
        _ => false,
    }
}

/// A value is a call in structured form: an object with its three fields, or a list of these.
pub open spec fn is_structured_call(value: JsonView, call: ToolCallView) -> bool {
    match value {
        JsonView::Object(_) => {
            &&& value.field("id"@) == Some(JsonView::Text(call.id))
            &&& value.field("name"@) == Some(JsonView::Text(call.name))
            &&& value.field("arguments"@) == Some(call.arguments)
        },
        JsonView::Array(items) => {
            &&& items.len() == 3
            &&& items[0] == JsonView::Text(call.id)
            &&& items[1] == JsonView::Text(call.name)
            &&& items[2] == call.arguments
        },
        _ => false,
    }
}

/// A value is a result in structured form: an object with its three fields, or a list of these.
pub open spec fn is_structured_result(value: JsonView, result: ToolResultView) -> bool {
    match value {
        JsonView::Object(_) => {
            &&& value.field("tool_call_id"@) == Some(JsonView::Text(result.tool_call_id))
            &&& value.field("content"@) == Some(JsonView::Text(result.content))
            &&& value.field("is_error"@) == Some(JsonView::Bool(result.is_error))
        },
        JsonView::Array(items) => {
            &&& items.len() == 3
            &&& items[0] == JsonView::Text(result.tool_call_id)
            &&& items[1] == JsonView::Text(result.content)
            &&& items[2] == JsonView::Bool(result.is_error)
        },
        _ => false,
    }
}

/// A field gives calls: a list of them, one for each item, or none where it is missing.
pub open spec fn gives_calls(value: Option<JsonView>, calls: Seq<ToolCallView>) -> bool {
    match value {
        None => calls.len() == 0,
        Some(JsonView::Array(items)) => calls.len() == items.len() && forall|k: int|
            0 <= k < items.len() ==> is_structured_call(#[trigger] items[k], calls[k]),
        _ => false,
    }
}

/// A field gives results: a list of them, one for each item, or none where it is missing.
pub open spec fn gives_results(value: Option<JsonView>, results: Seq<ToolResultView>) -> bool {
    match value {
        None => results.len() == 0,
        Some(JsonView::Array(items)) => results.len() == items.len() && forall|k: int|
            0 <= k < items.len() ==> is_structured_result(#[trigger] items[k], results[k]),
        _ => false,
    }
}

proof fn call_is_read(value: JsonView, call: ToolCallView)
    ensures
        decode::structured_call(value) == Ok::<ToolCallView, Seq<char>>(call)
            <==> is_structured_call(value, call),
{
}

proof fn result_is_read(value: JsonView, result: ToolResultView)
    ensures
        decode::structured_result(value) == Ok::<ToolResultView, Seq<char>>(result)
            <==> is_structured_result(value, result),
{
}

proof fn calls_are_read(items: Seq<JsonView>, n: nat, calls: Seq<ToolCallView>)
    requires
        n <= items.len(),
    ensures
        decode::calls_said(items, n) == Ok::<Seq<ToolCallView>, Seq<char>>(calls) <==> calls.len()
            == n && forall|k: int|
            0 <= k < n ==> is_structured_call(#[trigger] items[k], calls[k]),
    decreases n,
{
    if n == 0 {
        assert(calls.len() == 0 ==> calls =~= Seq::<ToolCallView>::empty());
    } else {
        let last = (n - 1) as nat;
        if calls.len() == n {
            let before = calls.drop_last();
            calls_are_read(items, last, before);
            call_is_read(items[last as int], calls.last());
            assert(calls =~= before.push(calls.last()));
            assert(forall|k: int|
                0 <= k < last ==> is_structured_call(#[trigger] items[k], calls[k])
                    == is_structured_call(items[k], before[k]));
        }
        if let Ok(before) = decode::calls_said(items, last) {
            calls_are_read(items, last, before);
        }
    }
}

proof fn results_are_read(items: Seq<JsonView>, n: nat, results: Seq<ToolResultView>)
    requires
        n <= items.len(),
    ensures
        decode::results_said(items, n) == Ok::<Seq<ToolResultView>, Seq<char>>(results)
            <==> results.len() == n && forall|k: int|
            0 <= k < n ==> is_structured_result(#[trigger] items[k], results[k]),
    decreases n,
{
    if n == 0 {
        assert(results.len() == 0 ==> results =~= Seq::<ToolResultView>::empty());
    } else {
        let last = (n - 1) as nat;
        if results.len() == n {
            let before = results.drop_last();
            results_are_read(items, last, before);
            result_is_read(items[last as int], results.last());
            assert(results =~= before.push(results.last()));
            assert(forall|k: int|
                0 <= k < last ==> is_structured_result(#[trigger] items[k], results[k])
                    == is_structured_result(items[k], before[k]));
        }
        if let Ok(before) = decode::results_said(items, last) {
            results_are_read(items, last, before);
        }
    }
}

/// A flat message is read as what its fields give, each by its own name: its words, its place, its
/// role, its calls and its results, of which all but words and role may be missing. It is read just
/// where each field is of its type, and never passed over.
pub proof fn flat_message_is_what_its_fields_give(
    record: JsonView,
    number: nat,
    message: MessageView,
)
    requires
        is_flat(record),
    ensures
        decode::record_message(record, number) == Ok::<Option<MessageView>, Seq<char>>(
            Some(message),
        ) <==> {
            &&& gives_text(record.field("content"@), message.content)
            &&& gives_size(record.field("index"@), message.index)
            &&& gives_text(record.field("role"@), message.role)
            &&& gives_calls(record.field("tool_calls"@), message.tool_calls)
            &&& gives_results(record.field("tool_results"@), message.tool_results)
        },
        decode::record_message(record, number) != Ok::<Option<MessageView>, Seq<char>>(None),
{
    reveal_strlit("");
    text_is_given(record.field("content"@), message.content);
    text_is_given(record.field("role"@), message.role);
    if let Some(JsonView::Array(items)) = record.field("tool_calls"@) {
        calls_are_read(items, items.len(), message.tool_calls);
    }
    if let Some(JsonView::Array(items)) = record.field("tool_results"@) {
        results_are_read(items, items.len(), message.tool_results);
    }
    assert(message.tool_calls.len() == 0 ==> message.tool_calls =~= Seq::<ToolCallView>::empty());
    assert(message.tool_results.len() == 0 ==> message.tool_results
        =~= Seq::<ToolResultView>::empty());
    assert(decode::structured_calls(record.field("tool_calls"@)) == Ok::<
        Seq<ToolCallView>,
        Seq<char>,
    >(message.tool_calls) <==> gives_calls(record.field("tool_calls"@), message.tool_calls));
    assert(decode::structured_results(record.field("tool_results"@)) == Ok::<
        Seq<ToolResultView>,
        Seq<char>,
    >(message.tool_results) <==> gives_results(
        record.field("tool_results"@),
        message.tool_results,
    ));
    assert(decode::index_or_zero(record.field("index"@)) == Ok::<nat, Seq<char>>(message.index)
        <==> gives_size(record.field("index"@), message.index));
}

proof fn text_is_given(value: Option<JsonView>, said: Seq<char>)
    ensures
        decode::string_or_null(value) == Ok::<Seq<char>, Seq<char>>(said) <==> gives_text(
            value,
            said,
        ),
{
    reveal_strlit("");
    assert(said.len() == 0 ==> said =~= ""@);
}

/// A flat message whose words or role are no text is reported by the type of the first of them, and
/// one whose calls or results are no list as well, where all fields in front are in order: words,
/// place, role, calls, results.
pub proof fn wrong_field_is_reported(record: JsonView, number: nat)
    requires
        is_flat(record),
    ensures
        ({
            let content = record.field("content"@)->Some_0;
            let role = record.field("role"@)->Some_0;
            let calls = record.field("tool_calls"@);
            let results = record.field("tool_results"@);
            let reported = decode::record_message(record, number);
            let good_words = content is Text || content is Null;
            let good_place = exists|n: nat| gives_size(record.field("index"@), n);
            let good_role = role is Text || role is Null;
            &&& !good_words ==> reported == Err::<Option<MessageView>, Seq<char>>(
                json::type_complaint(content) + "a string"@,
            )
            &&& good_words && !good_place ==> reported == Err::<Option<MessageView>, Seq<char>>(
                json::size_complaint(record.field("index"@)->Some_0),
            )
            &&& good_words && good_place && !good_role ==> reported == Err::<
                Option<MessageView>,
                Seq<char>,
            >(json::type_complaint(role) + "a string"@)
            &&& good_words && good_place && good_role && calls is Some && !(calls->Some_0
                is Array) ==> reported == Err::<Option<MessageView>, Seq<char>>(
                json::type_complaint(calls->Some_0) + "a sequence"@,
            )
            &&& good_words && good_place && good_role && calls is None && results is Some && !(
            results->Some_0 is Array) ==> reported == Err::<Option<MessageView>, Seq<char>>(
                json::type_complaint(results->Some_0) + "a sequence"@,
            )
        }),
{
    let index = record.field("index"@);
    if let Ok(n) = decode::index_or_zero(index) {
        assert(gives_size(index, n));
    }
    if exists|n: nat| gives_size(index, n) {
        let n = choose|n: nat| gives_size(index, n);
        assert(decode::index_or_zero(index) == Ok::<nat, Seq<char>>(n));
    }
}

/// A call that lacks one of its fields is reported by the name of the first that it lacks, and a
/// result too.
pub proof fn missing_field_is_reported(value: JsonView)
    requires
        value is Object,
    ensures
        value.field("id"@) is None && !(value.field("name"@) matches Some(name) && !(name is Text))
            ==> decode::structured_call(value) == Err::<ToolCallView, Seq<char>>(
            "missing field `id`"@,
        ),
        value.field("id"@) matches Some(JsonView::Text(_)) && value.field("name"@) is None
            ==> decode::structured_call(value) == Err::<ToolCallView, Seq<char>>(
            "missing field `name`"@,
        ),
        value.field("id"@) matches Some(JsonView::Text(_)) && value.field("name"@) matches Some(
            JsonView::Text(_),
        ) && value.field("arguments"@) is None ==> decode::structured_call(value) == Err::<
            ToolCallView,
            Seq<char>,
        >("missing field `arguments`"@),
        value.field("tool_call_id"@) is None && value.field("content"@) is None && value.field(
            "is_error"@,
        ) is None ==> decode::structured_result(value) == Err::<ToolResultView, Seq<char>>(
            "missing field `tool_call_id`"@,
        ),
{
    reveal_strlit("missing field `");
    reveal_strlit("`");
    reveal_strlit("id");
    reveal_strlit("name");
    reveal_strlit("arguments");
    reveal_strlit("tool_call_id");
    reveal_strlit("missing field `id`");
    reveal_strlit("missing field `name`");
    reveal_strlit("missing field `arguments`");
    reveal_strlit("missing field `tool_call_id`");
    assert(decode::missing("id"@) =~= "missing field `id`"@);
    assert(decode::missing("name"@) =~= "missing field `name`"@);
    assert(decode::missing("arguments"@) =~= "missing field `arguments`"@);
    assert(decode::missing("tool_call_id"@) =~= "missing field `tool_call_id`"@);
}

/// A call or a result that is neither an object nor a list is reported by its type, and one with a
/// field of another type than it should be by the type of the first such field.
pub proof fn malformed_item_is_reported(value: JsonView)
    ensures
        !(value is Object) && !(value is Array) ==> decode::structured_call(value) == Err::<
            ToolCallView,
            Seq<char>,
        >(json::type_complaint(value) + "struct ToolCall"@) && decode::structured_result(value)
            == Err::<ToolResultView, Seq<char>>(
            json::type_complaint(value) + "struct ToolResult"@,
        ),
        (value.field("id"@) matches Some(id) && !(id is Text)) ==> decode::structured_call(value)
            == Err::<ToolCallView, Seq<char>>(
            json::type_complaint(value.field("id"@)->Some_0) + "a string"@,
        ),
        (value.field("name"@) matches Some(name) && !(name is Text)) && !(value.field("id"@)
            matches Some(id) && !(id is Text)) ==> decode::structured_call(value) == Err::<
            ToolCallView,
            Seq<char>,
        >(json::type_complaint(value.field("name"@)->Some_0) + "a string"@),
        (value.field("content"@) matches Some(content) && !(content is Text))
            ==> decode::structured_result(value) == Err::<ToolResultView, Seq<char>>(
            json::type_complaint(value.field("content"@)->Some_0) + "a string"@,
        ),
        (value.field("is_error"@) matches Some(flag) && !(flag is Bool)) && !(value.field(
            "content"@,
        ) matches Some(content) && !(content is Text)) ==> decode::structured_result(value)
            == Err::<ToolResultView, Seq<char>>(
            json::type_complaint(value.field("is_error"@)->Some_0) + "a boolean"@,
        ),
        (value.field("tool_call_id"@) matches Some(id) && !(id is Text)) && !(value.field(
            "content"@,
        ) matches Some(content) && !(content is Text)) && !(value.field("is_error"@) matches Some(
            flag,
        ) && !(flag is Bool)) ==> decode::structured_result(value) == Err::<
            ToolResultView,
            Seq<char>,
        >(json::type_complaint(value.field("tool_call_id"@)->Some_0) + "a string"@),
{
}

/// A result that lacks its content or its mark is reported by the name of the first of them.
pub proof fn missing_content_is_reported(value: JsonView)
    requires
        value.field("tool_call_id"@) matches Some(JsonView::Text(_)),
    ensures
        value.field("content"@) is None && !(value.field("is_error"@) matches Some(flag) && !(flag
            is Bool)) ==> decode::structured_result(value) == Err::<ToolResultView, Seq<char>>(
            "missing field `content`"@,
        ),
        (value.field("content"@) matches Some(JsonView::Text(_))) && value.field("is_error"@) is None
            ==> decode::structured_result(value) == Err::<ToolResultView, Seq<char>>(
            "missing field `is_error`"@,
        ),
{
    reveal_strlit("missing field `");
    reveal_strlit("`");
    reveal_strlit("content");
    reveal_strlit("is_error");
    reveal_strlit("missing field `content`");
    reveal_strlit("missing field `is_error`");
    assert(decode::missing("content"@) =~= "missing field `content`"@);
    assert(decode::missing("is_error"@) =~= "missing field `is_error`"@);
}

/// A call or a result that is given as a list has three items, of which the first two are texts and
/// the third of a result is a truth value. The first that is not is reported, one that is missing by
/// how many there are, and too many items are last.
pub proof fn malformed_list_is_reported(items: Seq<JsonView>)
    ensures
        ({
            let call = decode::structured_call(JsonView::Array(items));
            let result = decode::structured_result(JsonView::Array(items));
            let n = items.len();
            let first = n > 0 && items[0] is Text;
            let both = first && n > 1 && items[1] is Text;
            let short = "invalid length "@ + text::decimal(n)
                + ", expected struct ToolCall with 3 elements"@;
            let short_result = "invalid length "@ + text::decimal(n)
                + ", expected struct ToolResult with 3 elements"@;
            let long = "invalid length "@ + text::decimal(n)
                + ", expected fewer elements in array"@;
            &&& n == 0 || (n == 1 && first) || (n == 2 && both) ==> call == Err::<
                ToolCallView,
                Seq<char>,
            >(short) && result == Err::<ToolResultView, Seq<char>>(short_result)
            &&& n > 0 && !first ==> call == Err::<ToolCallView, Seq<char>>(
                json::type_complaint(items[0]) + "a string"@,
            ) && result == Err::<ToolResultView, Seq<char>>(
                json::type_complaint(items[0]) + "a string"@,
            )
            &&& n > 1 && first && !both ==> call == Err::<ToolCallView, Seq<char>>(
                json::type_complaint(items[1]) + "a string"@,
            ) && result == Err::<ToolResultView, Seq<char>>(
                json::type_complaint(items[1]) + "a string"@,
            )
            &&& n > 2 && both && !(items[2] is Bool) ==> result == Err::<ToolResultView, Seq<char>>(
                json::type_complaint(items[2]) + "a boolean"@,
            )
            &&& n > 3 && both ==> call == Err::<ToolCallView, Seq<char>>(long)
            &&& n > 3 && both && items[2] is Bool ==> result == Err::<ToolResultView, Seq<char>>(
                long,
            )
        }),
{
    reveal_strlit("invalid length ");
    reveal_strlit(", expected ");
    reveal_strlit("struct ToolCall with 3 elements");
    reveal_strlit("struct ToolResult with 3 elements");
    reveal_strlit("fewer elements in array");
    reveal_strlit(", expected struct ToolCall with 3 elements");
    reveal_strlit(", expected struct ToolResult with 3 elements");
    reveal_strlit(", expected fewer elements in array");
    let n = items.len();
    assert(decode::wrong_length(n, "struct ToolCall with 3 elements"@) =~= "invalid length "@
        + text::decimal(n) + ", expected struct ToolCall with 3 elements"@);
    assert(decode::wrong_length(n, "struct ToolResult with 3 elements"@) =~= "invalid length "@
        + text::decimal(n) + ", expected struct ToolResult with 3 elements"@);
    assert(decode::wrong_length(n, "fewer elements in array"@) =~= "invalid length "@
        + text::decimal(n) + ", expected fewer elements in array"@);
}

/// Of the calls of a flat message the first that cannot be read is reported, and of its results too,
/// where its calls are in order.
pub proof fn first_bad_item_is_reported(record: JsonView, number: nat, items: Seq<JsonView>, i: int)
    requires
        is_flat(record),
        record.field("content"@) matches Some(JsonView::Text(_)),
        record.field("index"@) is None,
        record.field("role"@) matches Some(JsonView::Text(_)),
        0 <= i < items.len(),
    ensures
        record.field("tool_calls"@) == Some(JsonView::Array(items)) && (forall|k: int|
            0 <= k < i ==> decode::structured_call(#[trigger] items[k]) is Ok)
            && decode::structured_call(items[i]) is Err ==> decode::record_message(record, number)
            == Err::<Option<MessageView>, Seq<char>>(decode::structured_call(items[i])->Err_0),
        record.field("tool_calls"@) is None && record.field("tool_results"@) == Some(
            JsonView::Array(items),
        ) && (forall|k: int|
            0 <= k < i ==> decode::structured_result(#[trigger] items[k]) is Ok)
            && decode::structured_result(items[i]) is Err ==> decode::record_message(
            record,
            number,
        ) == Err::<Option<MessageView>, Seq<char>>(decode::structured_result(items[i])->Err_0),
{
    if decode::structured_call(items[i]) is Err && (forall|k: int|
        0 <= k < i ==> decode::structured_call(#[trigger] items[k]) is Ok) {
        calls_fail_at(items, i, items.len());
    }
    if decode::structured_result(items[i]) is Err && (forall|k: int|
        0 <= k < i ==> decode::structured_result(#[trigger] items[k]) is Ok) {
        results_fail_at(items, i, items.len());
    }
}

proof fn calls_fail_at(items: Seq<JsonView>, i: int, n: nat)
    requires
        0 <= i < items.len(),
        n <= items.len(),
        forall|k: int| 0 <= k < i ==> decode::structured_call(#[trigger] items[k]) is Ok,
        decode::structured_call(items[i]) is Err,
    ensures
        n <= i ==> decode::calls_said(items, n) is Ok,
        n > i ==> decode::calls_said(items, n) == Err::<Seq<ToolCallView>, Seq<char>>(
            decode::structured_call(items[i])->Err_0,
        ),
    decreases n,
{
    if n > 0 {
        calls_fail_at(items, i, (n - 1) as nat);
        if n <= i {
            assert(decode::structured_call(items[n - 1]) is Ok);
        }
    }
}

proof fn results_fail_at(items: Seq<JsonView>, i: int, n: nat)
    requires
        0 <= i < items.len(),
        n <= items.len(),
        forall|k: int| 0 <= k < i ==> decode::structured_result(#[trigger] items[k]) is Ok,
        decode::structured_result(items[i]) is Err,
    ensures
        n <= i ==> decode::results_said(items, n) is Ok,
        n > i ==> decode::results_said(items, n) == Err::<Seq<ToolResultView>, Seq<char>>(
            decode::structured_result(items[i])->Err_0,
        ),
    decreases n,
{
    if n > 0 {
        results_fail_at(items, i, (n - 1) as nat);
        if n <= i {
            assert(decode::structured_result(items[n - 1]) is Ok);
        }
    }
}

// ---------------------------------------------------------------------------------------------
// Exports
// ---------------------------------------------------------------------------------------------

/// Which records give a message.
pub open spec fn giving(records: Seq<JsonView>) -> spec_fn(int) -> bool {
    |i: int| decode::record_message(records[i], i as nat) matches Ok(Some(_))
}

/// A message of a session is the one that a record gives, with its place in the session. A flat
/// message without calls has those of the markers in its words.
pub open spec fn is_message_of(
    message: MessageView,
    place: int,
    record: JsonView,
    number: int,
) -> bool {
    &&& decode::record_message(record, number as nat) matches Ok(Some(given))
    &&& message.index == place
    &&& message.role == given.role
    &&& message.content == given.content
    &&& message.tool_results == given.tool_results
    &&& if is_flat(record) && given.tool_calls.len() == 0 {
        message.tool_calls == markers::inline_calls(given.content, place as nat, 0)
    } else {
        message.tool_calls == given.tool_calls
    }
}

/// A session is the messages of those records of its export that give one, in order.
pub proof fn session_is_the_messages_of_its_records(records: Seq<JsonView>)
    requires
        decode::session_of_records(records) is Ok,
    ensures
        exists|at: Seq<int>|
            {
                let messages = decode::session_of_records(records)->Ok_0;
                &&& #[trigger] places::are_places(at, records.len() as int, giving(records))
                &&& messages.len() == at.len()
                &&& forall|k: int|
                    0 <= k < at.len() ==> is_message_of(
                        messages[k],
                        k,
                        records[#[trigger] at[k]],
                        at[k],
                    )
            },
{
    let at = raw_goes_by_records(records, records.len());
    let raw = decode::raw_messages(records, records.len())->Ok_0;
    let messages = decode::session_of_records(records)->Ok_0;
    assert forall|k: int| 0 <= k < at.len() implies is_message_of(
        messages[k],
        k,
        records[#[trigger] at[k]],
        at[k],
    ) by {
        assert(messages[k] == decode::placed(raw[k], k as nat));
    }
    assert(places::are_places(at, records.len() as int, giving(records)));
}

proof fn raw_goes_by_records(records: Seq<JsonView>, n: nat) -> (at: Seq<int>)
    requires
        n <= records.len(),
        decode::raw_messages(records, n) is Ok,
    ensures
        places::are_places(at, n as int, giving(records)),
        decode::raw_messages(records, n)->Ok_0.len() == at.len(),
        forall|k: int|
            0 <= k < at.len() ==> {
                let raw = decode::raw_messages(records, n)->Ok_0[k];
                &&& decode::record_message(records[#[trigger] at[k]], at[k] as nat) == Ok::<
                    Option<MessageView>,
                    Seq<char>,
                >(Some(raw.message))
                &&& raw.normalized == is_flat(records[at[k]])
            },
    decreases n,
{
    if n == 0 {
        Seq::empty()
    } else {
        let i = (n - 1) as nat;
        let before = raw_goes_by_records(records, i);
        places::one_more_place(before, i as int, giving(records));
        if giving(records)(i as int) {
            let at = before.push(i as int);
            let held = decode::raw_messages(records, i)->Ok_0;
            let all = decode::raw_messages(records, n)->Ok_0;
            assert forall|k: int| 0 <= k < at.len() implies {
                let raw = all[k];
                &&& decode::record_message(records[#[trigger] at[k]], at[k] as nat) == Ok::<
                    Option<MessageView>,
                    Seq<char>,
                >(Some(raw.message))
                &&& raw.normalized == is_flat(records[at[k]])
            } by {
                if k < before.len() {
                    assert(at[k] == before[k]);
                    assert(all[k] == held[k]);
                }
            }
            at
        } else {
            before
        }
    }
}

/// An export is read just where each of its records is and one of them says something. Otherwise the
/// first record that is not read is the error, and where all are read the number of records is.
pub proof fn export_is_read_or_refused(records: Seq<JsonView>, i: int)
    ensures
        decode::session_of_records(records) is Ok <==> {
            &&& forall|k: int|
                0 <= k < records.len() ==> (#[trigger] decode::record_message(
                    records[k],
                    k as nat,
                )) is Ok
            &&& exists|k: int|
                0 <= k < records.len() && (#[trigger] decode::record_message(
                    records[k],
                    k as nat,
                ) matches Ok(Some(message)) && session::is_material(message))
        },
        0 <= i < records.len() && decode::record_message(records[i], i as nat) is Err && (forall|
            k: int,
        |
            0 <= k < i ==> (#[trigger] decode::record_message(records[k], k as nat)) is Ok)
            ==> decode::session_of_records(records) == Err::<Seq<MessageView>, ExportErrorView>(
            ExportErrorView::Json(decode::record_message(records[i], i as nat)->Err_0),
        ),
        decode::session_of_records(records) is Err && (forall|k: int|
            0 <= k < records.len() ==> (#[trigger] decode::record_message(records[k], k as nat))
                is Ok) ==> decode::session_of_records(records) == Err::<
            Seq<MessageView>,
            ExportErrorView,
        >(ExportErrorView::NoSupportedMessages { record_count: records.len() }),
{
    prefix_is_read(records, records.len());
    if decode::raw_messages(records, records.len()) is Ok {
        let raw = decode::raw_messages(records, records.len())->Ok_0;
        let said = decode::messages_of(raw);
        let at = raw_goes_by_records(records, records.len());
        if decode::any_material(said) {
            let k = choose|k: int| 0 <= k < said.len() && session::is_material(#[trigger] said[k]);
            assert(decode::record_message(records[at[k]], at[k] as nat) == Ok::<
                Option<MessageView>,
                Seq<char>,
            >(Some(said[k])));
        }
        if exists|k: int|
            0 <= k < records.len() && (#[trigger] decode::record_message(
                records[k],
                k as nat,
            ) matches Ok(Some(message)) && session::is_material(message)) {
            let k = choose|k: int|
                0 <= k < records.len() && (#[trigger] decode::record_message(
                    records[k],
                    k as nat,
                ) matches Ok(Some(message)) && session::is_material(message));
            assert(giving(records)(k));
            assert(at.contains(k));
            let j = choose|j: int| 0 <= j < at.len() && at[j] == k;
            assert(session::is_material(said[j]));
        }
    }
    if 0 <= i < records.len() && decode::record_message(records[i], i as nat) is Err && (forall|
        k: int,
    |
        0 <= k < i ==> (#[trigger] decode::record_message(records[k], k as nat)) is Ok) {
        prefix_is_read(records, i as nat);
        problem_is_kept(records, (i + 1) as nat, records.len());
    }
}

proof fn prefix_is_read(records: Seq<JsonView>, n: nat)
    requires
        n <= records.len(),
    ensures
        decode::raw_messages(records, n) is Ok <==> forall|k: int|
            0 <= k < n ==> (#[trigger] decode::record_message(records[k], k as nat)) is Ok,
    decreases n,
{
    if n > 0 {
        prefix_is_read(records, (n - 1) as nat);
        assert(decode::record_message(records[n - 1], (n - 1) as nat) is Ok
            || decode::record_message(records[n - 1], (n - 1) as nat) is Err);
    }
}

proof fn problem_is_kept(records: Seq<JsonView>, n: nat, m: nat)
    requires
        n <= m,
        decode::raw_messages(records, n) is Err,
    ensures
        decode::raw_messages(records, m) == decode::raw_messages(records, n),
    decreases m,
{
    if n < m {
        problem_is_kept(records, n, (m - 1) as nat);
    }
}

/// Bytes that are no list of values are refused with what is wrong with them, and a list is read by
/// its records.
pub proof fn bytes_are_read_by_what_they_spell(parsed: Result<Seq<JsonView>, Seq<char>>)
    ensures
        parsed matches Ok(records) ==> decode::session_of_parsed(parsed)
            == decode::session_of_records(records),
        parsed matches Err(problem) ==> decode::session_of_parsed(parsed) == Err::<
            Seq<MessageView>,
            ExportErrorView,
        >(ExportErrorView::Json(problem)),
{
}

/// The error of an export says what is wrong with it, or how many records it has.
pub proof fn export_error_is_worded(problem: Seq<char>, count: nat)
    ensures
        decode::error_words(ExportErrorView::Json(problem)) == "invalid cass export JSON: "@
            + problem,
        decode::error_words(ExportErrorView::NoSupportedMessages { record_count: count })
            == "cass export contained "@ + text::decimal(count)
            + " records but no supported conversation messages"@,
{
}

/// A record that is no flat message, has no message of one side inside and is no Codex item is
/// passed over, whatever else it holds.
pub proof fn other_records_are_passed_over(record: JsonView, number: nat)
    requires
        !is_flat(record),
        (record.field("type"@) != Some(JsonView::Text("user"@)) && record.field("type"@) != Some(
            JsonView::Text("assistant"@),
        )) || !(record.field("message"@) matches Some(message) && message.field("content"@)
            is Some && (message.field("role"@) == Some(JsonView::Text("user"@)) || message.field(
            "role"@,
        ) == Some(JsonView::Text("assistant"@)))),
        record.field("type"@) != Some(JsonView::Text("response_item"@)) || !(record.field(
            "payload"@,
        ) matches Some(payload) && payload is Object),
    ensures
        decode::record_message(record, number) == Ok::<Option<MessageView>, Seq<char>>(None),
{
}

} // verus!
