//! What holds of every decoded export.

use crate::cass::decode;
use crate::cass::decode::{ExportErrorView, RawView};
use crate::cass::markers;
use crate::cass::session;
use crate::cass::session::{MessageView, ToolCallView, ToolResultView};
use crate::json::JsonView;
use crate::text;
use vstd::prelude::*;

verus! {

/// Each message of a session knows its place in it.
pub proof fn messages_know_their_place(records: Seq<JsonView>, i: int)
    requires
        decode::session_of_records(records) is Ok,
        0 <= i < decode::session_of_records(records)->Ok_0.len(),
    ensures
        decode::session_of_records(records)->Ok_0[i].index == i,
{
}

/// A session that was decoded says something: it has a message with words, a call or a result.
pub proof fn decoded_session_is_material(records: Seq<JsonView>)
    requires
        decode::session_of_records(records) is Ok,
    ensures
        decode::any_material(decode::session_of_records(records)->Ok_0),
{
    let raw = decode::messages_of(decode::raw_messages(records, records.len())->Ok_0);
    let placed = decode::session_of_records(records)->Ok_0;
    let i = choose|i: int| 0 <= i < raw.len() && session::is_material(#[trigger] raw[i]);
    assert(session::is_material(placed[i]));
}

/// An export whose records are well typed and in which no message says anything is refused, and
/// the error counts its records. The empty export is such a one.
pub proof fn silent_export_is_refused(records: Seq<JsonView>)
    requires
        decode::raw_messages(records, records.len()) matches Ok(raw) && !decode::any_material(
            decode::messages_of(raw),
        ),
    ensures
        decode::session_of_records(records) == Err::<Seq<MessageView>, ExportErrorView>(
            ExportErrorView::NoSupportedMessages { record_count: records.len() },
        ),
{
}

/// The empty export is refused.
pub proof fn empty_export_is_refused()
    ensures
        decode::session_of_records(Seq::empty()) == Err::<Seq<MessageView>, ExportErrorView>(
            ExportErrorView::NoSupportedMessages { record_count: 0 },
        ),
{
}

/// An export that was decoded has no normalized record with a field of the wrong type.
pub proof fn normalized_records_are_well_typed(records: Seq<JsonView>, i: int)
    requires
        decode::session_of_records(records) is Ok,
        0 <= i < records.len(),
        decode::is_normalized(records[i]),
    ensures
        decode::normalized_message(records[i]) is Ok,
{
    prefix_is_well_typed(records, records.len(), i);
}

proof fn prefix_is_well_typed(records: Seq<JsonView>, n: nat, i: int)
    requires
        decode::raw_messages(records, n) is Ok,
        0 <= i < n,
    ensures
        decode::record_message(records[i], i as nat) is Ok,
    decreases n,
{
    if i < n - 1 {
        prefix_is_well_typed(records, (n - 1) as nat, i);
    }
}

/// Records are read independently of each other: a session's messages are those of its records,
/// each read alone, and no others.
pub proof fn messages_are_those_of_the_records(records: Seq<JsonView>, raw: RawView)
    requires
        decode::raw_messages(records, records.len()) is Ok,
    ensures
        decode::raw_messages(records, records.len())->Ok_0.contains(raw) <==> exists|i: int|
            0 <= i < records.len() && #[trigger] gives(records[i], i as nat, raw),
{
    prefix_messages(records, records.len(), raw);
}

/// A record, read alone as the one with a number, gives a message.
pub open spec fn gives(record: JsonView, number: nat, raw: RawView) -> bool {
    &&& decode::record_message(record, number) == Ok::<Option<MessageView>, Seq<char>>(
        Some(raw.message),
    )
    &&& raw.normalized == decode::is_normalized(record)
}

proof fn prefix_messages(records: Seq<JsonView>, n: nat, raw: RawView)
    requires
        decode::raw_messages(records, n) is Ok,
    ensures
        decode::raw_messages(records, n)->Ok_0.contains(raw) <==> exists|i: int|
            0 <= i < n && #[trigger] gives(records[i], i as nat, raw),
    decreases n,
{
    let all = decode::raw_messages(records, n)->Ok_0;
    if n > 0 {
        let last = (n - 1) as nat;
        prefix_messages(records, last, raw);
        let before = decode::raw_messages(records, last)->Ok_0;
        if all.contains(raw) {
            let k = choose|k: int| 0 <= k < all.len() && all[k] == raw;
            if k < before.len() {
                assert(before[k] == raw);
                assert(before.contains(raw));
                let i = choose|i: int|
                    0 <= i < last && #[trigger] gives(records[i], i as nat, raw);
                assert(gives(records[i], i as nat, raw));
            } else {
                assert(gives(records[last as int], last, raw));
            }
        }
        if exists|i: int| 0 <= i < n && #[trigger] gives(records[i], i as nat, raw) {
            let i = choose|i: int| 0 <= i < n && #[trigger] gives(records[i], i as nat, raw);
            if i < last {
                assert(before.contains(raw));
                let k = choose|k: int| 0 <= k < before.len() && before[k] == raw;
                assert(all[k] == raw);
            } else {
                assert(all.last() == raw);
                assert(all[all.len() - 1] == raw);
            }
        }
    }
}

/// Inline markers are read in normalized records only: each message of a session comes from a
/// record, and where that is a raw one its calls are those that its blocks or its payload make,
/// whatever its words say.
pub proof fn calls_of_raw_records_are_their_own(records: Seq<JsonView>, k: int)
    requires
        decode::session_of_records(records) is Ok,
        0 <= k < decode::session_of_records(records)->Ok_0.len(),
    ensures
        exists|i: int, raw: RawView|
            {
                let message = decode::session_of_records(records)->Ok_0[k];
                &&& 0 <= i < records.len()
                &&& #[trigger] gives(records[i], i as nat, raw)
                &&& message == decode::placed(raw, k as nat)
                &&& !decode::is_normalized(records[i]) ==> message.tool_calls
                    == raw.message.tool_calls
            },
{
    let all = decode::raw_messages(records, records.len())->Ok_0;
    let raw = all[k];
    assert(all.contains(raw));
    messages_are_those_of_the_records(records, raw);
    let i = choose|i: int| 0 <= i < records.len() && #[trigger] gives(records[i], i as nat, raw);
    assert(gives(records[i], i as nat, raw));
}

/// A raw record whose content is words alone makes no call, whatever the words say.
pub proof fn words_of_raw_records_make_no_call(record: JsonView, number: nat, raw: RawView, k: nat)
    requires
        gives(record, number, raw),
        !decode::is_normalized(record),
        decode::is_claude(record) ==> !(record.field("message"@)->Some_0.field("content"@)
            matches Some(JsonView::Array(_))),
        !decode::is_claude(record) ==> (record.field("payload"@) matches Some(payload)
            && decode::kind_of(payload) == "message"@),
    ensures
        decode::placed(raw, k).tool_calls.len() == 0,
{
    reveal_strlit("message");
    reveal_strlit("reasoning");
    assert("message"@.len() != "reasoning"@.len());
}

// ---------------------------------------------------------------------------------------------
// One export behind another
// ---------------------------------------------------------------------------------------------

/// A text begins with another.
pub open spec fn begins(text: Seq<char>, start: Seq<char>) -> bool {
    start.len() <= text.len() && text.take(start.len() as int) == start
}

/// An id of the kind that is made where a record gives none.
pub open spec fn is_made_id(id: Seq<char>) -> bool {
    ||| begins(id, "inline_"@)
    ||| begins(id, "claude_call_"@)
    ||| begins(id, "claude_result_"@)
    ||| begins(id, "codex_call_"@)
    ||| begins(id, "codex_custom_call_"@)
    ||| begins(id, "codex_result_"@)
}

/// Two ids that are the same, or were both made.
pub open spec fn same_id(a: Seq<char>, b: Seq<char>) -> bool {
    a == b || is_made_id(a) && is_made_id(b)
}

/// Two calls that differ in made ids at most.
pub open spec fn same_call(a: ToolCallView, b: ToolCallView) -> bool {
    same_id(a.id, b.id) && a.name == b.name && a.arguments == b.arguments
}

/// Two results that differ in made ids at most.
pub open spec fn same_result(a: ToolResultView, b: ToolResultView) -> bool {
    same_id(a.tool_call_id, b.tool_call_id) && a.content == b.content && a.is_error == b.is_error
}

/// Two lists of calls that differ in made ids at most.
pub open spec fn same_calls(a: Seq<ToolCallView>, b: Seq<ToolCallView>) -> bool {
    &&& a.len() == b.len()
    &&& forall|i: int|
        #![trigger a[i]]
        #![trigger b[i]]
        0 <= i < a.len() ==> same_call(a[i], b[i])
}

/// Two lists of results that differ in made ids at most.
pub open spec fn same_results(a: Seq<ToolResultView>, b: Seq<ToolResultView>) -> bool {
    &&& a.len() == b.len()
    &&& forall|i: int|
        #![trigger a[i]]
        #![trigger b[i]]
        0 <= i < a.len() ==> same_result(a[i], b[i])
}

/// Two messages that differ in their places and made ids at most.
pub open spec fn same_message(a: MessageView, b: MessageView) -> bool {
    &&& a.role == b.role
    &&& a.content == b.content
    &&& same_calls(a.tool_calls, b.tool_calls)
    &&& same_results(a.tool_results, b.tool_results)
}

/// The session of two exports one behind the other is the two sessions one behind the other: the
/// messages of the first as they are, and those of the second up to their places and made ids.
pub proof fn exports_are_read_one_behind_the_other(a: Seq<JsonView>, b: Seq<JsonView>)
    requires
        decode::session_of_records(a) is Ok,
        decode::session_of_records(b) is Ok,
    ensures
        ({
            let x = decode::session_of_records(a)->Ok_0;
            let y = decode::session_of_records(b)->Ok_0;
            let both = decode::session_of_records(a + b);
            &&& both is Ok
            &&& both->Ok_0.len() == x.len() + y.len()
            &&& both->Ok_0.take(x.len() as int) == x
            &&& forall|i: int|
                0 <= i < y.len() ==> same_message(
                    #[trigger] both->Ok_0[x.len() + i],
                    y[i],
                )
        }),
{
    let raw_a = decode::raw_messages(a, a.len())->Ok_0;
    let raw_b = decode::raw_messages(b, b.len())->Ok_0;
    first_export_is_unchanged(a, b, a.len());
    second_export_follows(a, b, b.len());
    assert((a + b).len() == a.len() + b.len());
    let raw = decode::raw_messages(a + b, (a + b).len())->Ok_0;
    let said = decode::messages_of(raw_a);
    let i = choose|i: int| 0 <= i < said.len() && session::is_material(#[trigger] said[i]);
    assert(raw[i] == raw_a[i]);
    assert(session::is_material(decode::messages_of(raw)[i]));
    let both = decode::session_of_records(a + b)->Ok_0;
    let x = decode::session_of_records(a)->Ok_0;
    let y = decode::session_of_records(b)->Ok_0;
    assert forall|k: int| 0 <= k < x.len() implies both[k] == x[k] by {
        assert(raw[k] == raw_a[k]);
    }
    assert(both.take(x.len() as int) == x);
    assert forall|k: int| 0 <= k < y.len() implies same_message(
        #[trigger] both[x.len() + k],
        y[k],
    ) by {
        placing_keeps_likeness(raw[raw_a.len() + k], raw_b[k], (x.len() + k) as nat, k as nat);
    }
}

proof fn first_export_is_unchanged(a: Seq<JsonView>, b: Seq<JsonView>, n: nat)
    requires
        n <= a.len(),
    ensures
        decode::raw_messages(a + b, n) == decode::raw_messages(a, n),
    decreases n,
{
    if n > 0 {
        first_export_is_unchanged(a, b, (n - 1) as nat);
        assert((a + b)[n - 1] == a[n - 1]);
    }
}

proof fn second_export_follows(a: Seq<JsonView>, b: Seq<JsonView>, n: nat)
    requires
        n <= b.len(),
        decode::raw_messages(a, a.len()) is Ok,
        decode::raw_messages(b, n) is Ok,
    ensures
        ({
            let x = decode::raw_messages(a, a.len())->Ok_0;
            let y = decode::raw_messages(b, n)->Ok_0;
            let both = decode::raw_messages(a + b, a.len() + n);
            &&& both is Ok
            &&& both->Ok_0.len() == x.len() + y.len()
            &&& forall|i: int| 0 <= i < x.len() ==> #[trigger] both->Ok_0[i] == x[i]
            &&& forall|i: int|
                #![trigger y[i]]
                0 <= i < y.len() ==> {
                    &&& same_message(both->Ok_0[x.len() + i].message, y[i].message)
                    &&& both->Ok_0[x.len() + i].normalized == y[i].normalized
                }
        }),
    decreases n,
{
    first_export_is_unchanged(a, b, a.len());
    if n > 0 {
        let last = (n - 1) as nat;
        second_export_follows(a, b, last);
        let record = b[last as int];
        assert((a + b)[(a.len() + last) as int] == record);
        reading_elsewhere_is_alike(record, a.len() + last, last);
        let x = decode::raw_messages(a, a.len())->Ok_0;
        let y = decode::raw_messages(b, n)->Ok_0;
        let y_before = decode::raw_messages(b, last)->Ok_0;
        let before = decode::raw_messages(a + b, a.len() + last)->Ok_0;
        let both = decode::raw_messages(a + b, a.len() + n)->Ok_0;
        assert(a.len() + n - 1 == a.len() + last);
        assert forall|i: int| #![trigger y[i]] 0 <= i < y.len() implies {
            &&& same_message(both[x.len() + i].message, y[i].message)
            &&& both[x.len() + i].normalized == y[i].normalized
        } by {
            if i < y_before.len() {
                assert(y[i] == y_before[i]);
                assert(both[x.len() + i] == before[x.len() + i]);
            }
        }
    }
}

/// A record gives the same message, up to made ids, wherever it stands.
proof fn reading_elsewhere_is_alike(record: JsonView, m: nat, n: nat)
    ensures
        match (decode::record_message(record, m), decode::record_message(record, n)) {
            (Ok(Some(a)), Ok(Some(b))) => same_message(a, b),
            (Ok(None), Ok(None)) => true,
            (Err(a), Err(b)) => a == b,
            _ => false,
        },
{
    if decode::is_claude(record) {
        let content = record.field("message"@)->Some_0.field("content"@)->Some_0;
        if let JsonView::Array(blocks) = content {
            blocks_elsewhere_are_alike(blocks, m, n, blocks.len());
        }
    }
    made_ids_are_known(m, 0);
    made_ids_are_known(n, 0);
}

proof fn made_ids_are_known(number: nat, i: nat)
    ensures
        is_made_id(markers::inline_id(number, i)),
        is_made_id(decode::block_id("claude_call_"@, number, i)),
        is_made_id(decode::block_id("claude_result_"@, number, i)),
        is_made_id("codex_call_"@ + text::decimal(number)),
        is_made_id("codex_custom_call_"@ + text::decimal(number)),
        is_made_id("codex_result_"@ + text::decimal(number)),
{
    let digits = text::decimal(number);
    assert(markers::inline_id(number, i).take("inline_"@.len() as int) == "inline_"@);
    assert(decode::block_id("claude_call_"@, number, i).take("claude_call_"@.len() as int)
        == "claude_call_"@);
    assert(decode::block_id("claude_result_"@, number, i).take("claude_result_"@.len() as int)
        == "claude_result_"@);
    assert(("codex_call_"@ + digits).take("codex_call_"@.len() as int) == "codex_call_"@);
    assert(("codex_custom_call_"@ + digits).take("codex_custom_call_"@.len() as int)
        == "codex_custom_call_"@);
    assert(("codex_result_"@ + digits).take("codex_result_"@.len() as int) == "codex_result_"@);
}

proof fn blocks_elsewhere_are_alike(blocks: Seq<JsonView>, m: nat, n: nat, count: nat)
    requires
        count <= blocks.len(),
    ensures
        same_calls(
            decode::claude_calls(blocks, m, count),
            decode::claude_calls(blocks, n, count),
        ),
        same_results(
            decode::claude_results(blocks, m, count),
            decode::claude_results(blocks, n, count),
        ),
    decreases count,
{
    if count > 0 {
        let last = (count - 1) as nat;
        blocks_elsewhere_are_alike(blocks, m, n, last);
        made_ids_are_known(m, last);
        made_ids_are_known(n, last);
    }
}

proof fn placing_keeps_likeness(a: RawView, b: RawView, m: nat, n: nat)
    requires
        same_message(a.message, b.message),
        a.normalized == b.normalized,
    ensures
        same_message(decode::placed(a, m), decode::placed(b, n)),
{
    let content = a.message.content;
    markers::inline_calls_differ_in_ids_alone(content, m, n, 0);
    let x = markers::inline_calls(content, m, 0);
    let y = markers::inline_calls(content, n, 0);
    markers::inline_calls_are_numbered(content, m, 0);
    markers::inline_calls_are_numbered(content, n, 0);
    assert forall|i: int| #![trigger x[i]] #![trigger y[i]] 0 <= i < x.len() implies same_call(
        x[i],
        y[i],
    ) by {
        made_ids_are_known(m, i as nat);
        made_ids_are_known(n, i as nat);
    }
}

/// A session has at most as many messages as the export has records.
pub proof fn no_more_messages_than_records(records: Seq<JsonView>)
    requires
        decode::session_of_records(records) is Ok,
    ensures
        decode::session_of_records(records)->Ok_0.len() <= records.len(),
{
    prefix_length(records, records.len());
}

proof fn prefix_length(records: Seq<JsonView>, n: nat)
    requires
        decode::raw_messages(records, n) is Ok,
    ensures
        decode::raw_messages(records, n)->Ok_0.len() <= n,
    decreases n,
{
    if n > 0 {
        prefix_length(records, (n - 1) as nat);
    }
}

/// A record of none of the three shapes is no message and no problem.
pub proof fn noise_is_skipped(records: Seq<JsonView>, n: nat)
    requires
        n < records.len(),
        !decode::is_normalized(records[n as int]),
        !decode::is_claude(records[n as int]),
        !decode::is_codex(records[n as int]),
    ensures
        decode::raw_messages(records, n + 1) == decode::raw_messages(records, n),
{
}

/// Structured calls are never replaced by what the inline markers stand for, and words, role and
/// results of a message stay as they are.
pub proof fn structured_calls_are_kept(raw: RawView, index: nat)
    ensures
        raw.message.tool_calls.len() > 0 ==> decode::placed(raw, index).tool_calls
            == raw.message.tool_calls,
        decode::placed(raw, index).content == raw.message.content,
        decode::placed(raw, index).role == raw.message.role,
        decode::placed(raw, index).tool_results == raw.message.tool_results,
{
}

/// A block that holds an agent's private reasoning.
pub open spec fn is_reasoning(block: JsonView) -> bool {
    block is Object && decode::is_reasoning_kind(decode::kind_of(block))
}

/// Two lists of blocks that differ in private reasoning alone.
pub open spec fn same_but_reasoning(a: Seq<JsonView>, b: Seq<JsonView>) -> bool {
    &&& a.len() == b.len()
    &&& forall|i: int|
        #![trigger a[i]]
        #![trigger b[i]]
        0 <= i < a.len() ==> a[i] == b[i] || is_reasoning(a[i]) && is_reasoning(b[i])
}

/// Private reasoning leaves no trace in a session: content that differs in it alone makes the same
/// message.
pub proof fn reasoning_leaves_no_trace(
    role: Seq<char>,
    a: Seq<JsonView>,
    b: Seq<JsonView>,
    record: nat,
)
    requires
        same_but_reasoning(a, b),
    ensures
        decode::claude_spoken(role, JsonView::Array(a), record) == decode::claude_spoken(
            role,
            JsonView::Array(b),
            record,
        ),
        decode::content_text(JsonView::Array(a)) == decode::content_text(JsonView::Array(b)),
{
    reasoning_says_nothing(a, b);
    reasoning_does_nothing(a, b, record, a.len());
}

proof fn reasoning_says_nothing(a: Seq<JsonView>, b: Seq<JsonView>)
    requires
        same_but_reasoning(a, b),
    ensures
        decode::block_texts(a) == decode::block_texts(b),
    decreases a.len(),
{
    if a.len() > 0 {
        assert forall|i: int| 0 <= i < a.len() - 1 implies a.drop_last()[i] == b.drop_last()[i]
            || is_reasoning(a.drop_last()[i]) && is_reasoning(b.drop_last()[i]) by {
            assert(a[i] == b[i] || is_reasoning(a[i]));
        }
        reasoning_says_nothing(a.drop_last(), b.drop_last());
        assert(a[a.len() - 1] == b[b.len() - 1] || is_reasoning(a[a.len() - 1]));
    }
}

proof fn reasoning_does_nothing(a: Seq<JsonView>, b: Seq<JsonView>, record: nat, n: nat)
    requires
        same_but_reasoning(a, b),
        n <= a.len(),
    ensures
        decode::claude_calls(a, record, n) == decode::claude_calls(b, record, n),
        decode::claude_results(a, record, n) == decode::claude_results(b, record, n),
    decreases n,
{
    reveal_strlit("thinking");
    reveal_strlit("reasoning");
    reveal_strlit("tool_use");
    reveal_strlit("tool_result");
    assert("thinking"@[1] == 'h' && "reasoning"@[0] == 'r' && "tool_use"@[0] == 't'
        && "tool_use"@[1] == 'o' && "tool_result"@[0] == 't' && "tool_result"@[1] == 'o');
    if n > 0 {
        reasoning_does_nothing(a, b, record, (n - 1) as nat);
        assert(a[n - 1] == b[n - 1] || is_reasoning(a[n - 1]));
    }
}

/// A Codex record of private reasoning is no message.
pub proof fn codex_reasoning_is_no_message(record: JsonView, number: nat)
    requires
        record.field("payload"@) matches Some(payload) && decode::kind_of(payload)
            == "reasoning"@,
    ensures
        decode::codex_message(record, number) is None,
{
}

/// Ids made for blocks without one differ from block to block and from record to record.
pub proof fn block_ids_are_unique(
    prefix: Seq<char>,
    record1: nat,
    block1: nat,
    record2: nat,
    block2: nat,
)
    requires
        decode::block_id(prefix, record1, block1) == decode::block_id(prefix, record2, block2),
    ensures
        record1 == record2,
        block1 == block2,
{
    reveal_strlit("_");
    let r1 = text::decimal(record1);
    let r2 = text::decimal(record2);
    let b1 = text::decimal(block1);
    let b2 = text::decimal(block2);
    assert("_"@ == seq!['_']);
    assert(decode::block_id(prefix, record1, block1).skip(prefix.len() as int) == r1 + seq!['_']
        + b1);
    assert(decode::block_id(prefix, record2, block2).skip(prefix.len() as int) == r2 + seq!['_']
        + b2);
    text::decimal_is_digits(record1);
    text::decimal_is_digits(record2);
    text::digits_end_at(r1, b1, r2, b2, '_');
    text::decimal_is_injective(record1, record2);
    text::decimal_is_injective(block1, block2);
}

} // verus!
