//! What a run does, step by step, and how commands are written.

use crate::cass::command;
use crate::cass::command::{ActionView, EventView, RunView, StageView};
use crate::error::ErrorView;
use crate::text;
use vstd::prelude::*;

verus! {

/// The error of a failed command is told by its exit code and by words in its error output: first
/// whether something was not found, then whether the database was in the way, then whether mining
/// failed, and otherwise it is a failure of the tool that names the exit code.
pub proof fn error_is_told_by_code_and_words(exit_code: i32, stderr: Seq<char>, lower: Seq<char>)
    ensures
        ({
            let error = command::classified(exit_code, stderr, lower);
            let not_found = exit_code == 2 || text::occurs_in(lower, "not found"@)
                || text::occurs_in(lower, "no such"@);
            let busy = text::occurs_in(lower, "database"@) || text::occurs_in(lower, "locked"@);
            let mining = text::occurs_in(lower, "mining"@) || text::occurs_in(lower, "extract"@);
            &&& not_found <==> error == ErrorView::SkillNotFound(stderr)
            &&& !not_found && busy <==> error == ErrorView::TransactionFailed(stderr)
            &&& !not_found && !busy && mining <==> error == ErrorView::MiningFailed(stderr)
            &&& !not_found && !busy && !mining <==> error == ErrorView::CassUnavailable(
                "CASS command failed (exit "@ + text::signed_decimal(exit_code as int) + "): "@
                    + stderr,
            )
        }),
{
}

/// A negative number is written with a minus sign in front of its size, any other as it is.
pub proof fn sign_is_written_in_front(n: nat)
    ensures
        text::signed_decimal(n as int) == text::decimal(n),
        n > 0 ==> text::signed_decimal(-(n as int)) == seq!['-'] + text::decimal(n),
{
}

/// The characters that ask for quotes: white space, and those that mean more than themselves to a
/// shell.
pub proof fn special_characters_ask_for_quotes(c: char)
    ensures
        command::needs_quotes(c) <==> text::is_white_space(c) || c == '(' || c == ')' || c == '['
            || c == ']' || c == '{' || c == '}' || c == '$' || c == '|' || c == '&' || c == ';'
            || c == '<' || c == '>' || c == '`' || c == '\'' || c == '"' || c == '*' || c == '?'
            || c == '!',
{
    reveal_strlit("()[]{}$|&;<>`'\"*?!");
    let all = "()[]{}$|&;<>`'\"*?!"@;
    assert(all[0] == '(' && all[1] == ')' && all[2] == '[' && all[3] == ']' && all[4] == '{'
        && all[5] == '}' && all[6] == '$' && all[7] == '|' && all[8] == '&' && all[9] == ';'
        && all[10] == '<' && all[11] == '>' && all[12] == '`' && all[13] == '\'' && all[14]
        == '"' && all[15] == '*' && all[16] == '?' && all[17] == '!');
    assert(all.len() == 18);
}

/// An argument without such a character is written as it is, and any other between single quotes.
pub proof fn quotes_are_put_where_needed(word: Seq<char>)
    ensures
        ({
            let written = command::shell_word(word);
            if exists|i: int| 0 <= i < word.len() && command::needs_quotes(#[trigger] word[i]) {
                written.len() >= word.len() + 2 && written[0] == '\'' && written.last() == '\''
            } else {
                written == word
            }
        }),
{
    reveal_strlit("'");
    escaping_shortens_nothing(word);
}

proof fn escaping_shortens_nothing(word: Seq<char>)
    ensures
        command::quotes_escaped(word).len() >= word.len(),
    decreases word.len(),
{
    if word.len() > 0 {
        reveal_strlit("'\\''");
        escaping_shortens_nothing(word.drop_last());
    }
}

/// A command is its program and, behind a space each, its arguments in order.
pub proof fn command_is_program_and_arguments(
    program: Seq<char>,
    args: Seq<Seq<char>>,
    arg: Seq<char>,
)
    ensures
        command::command_line(program, Seq::empty()) == program,
        command::command_line(program, args.push(arg)) == command::command_line(program, args)
            + " "@ + command::shell_word(arg),
{
    let words = command::shell_words(args);
    let more = command::shell_words(args.push(arg));
    assert(more =~= words.push(command::shell_word(arg)));
    assert(more.drop_last() =~= words);
    if args.len() == 0 {
        assert(more.len() == 1 && more[0] == command::shell_word(arg));
    } else {
        assert(command::command_line(program, args.push(arg)) =~= command::command_line(
            program,
            args,
        ) + " "@ + command::shell_word(arg));
    }
}

/// The run of a program that nothing was done for.
pub open spec fn fresh(program: Seq<char>, args: Option<Seq<Seq<char>>>, guarded: bool) -> RunView {
    RunView { stage: command::first_stage(guarded), program, args, guarded }
}

/// That a program ended well.
pub open spec fn ended_well(stdout: Seq<u8>, exit_code: Option<i32>, stderr: Seq<u8>) -> EventView {
    EventView::Ended { success: true, exit_code, stdout, stderr }
}

/// That a program ended badly.
pub open spec fn ended_badly(stdout: Seq<u8>, exit_code: Option<i32>, stderr: Seq<u8>) -> EventView {
    EventView::Ended { success: false, exit_code, stdout, stderr }
}

/// A run probes its program with `--version`, after the guard was asked about that where there is
/// one. Where the probe is refused, cannot be started or fails, the tool cannot be used.
pub proof fn run_starts_with_a_probe(
    program: Seq<char>,
    args: Option<Seq<Seq<char>>>,
    error: ErrorView,
    out: Seq<u8>,
    code: Option<i32>,
    err: Seq<u8>,
)
    ensures
        ({
            let open = fresh(program, args, false);
            let guarded = fresh(program, args, true);
            let probe = ActionView::Start { program, args: seq!["--version"@] };
            let failed = StageView::Done(
                Err(ErrorView::CassUnavailable("CASS binary not found or not executable"@)),
            );
            let probing = command::run_after(guarded, EventView::Allowed);
            &&& command::action_of(open) == probe
            &&& command::action_of(guarded) == ActionView::AskGuard(
                command::command_line(program, seq!["--version"@]),
            )
            &&& command::action_of(probing) == probe
            &&& command::run_after(guarded, EventView::Denied(error)).stage == failed
            &&& command::run_after(open, EventView::NotStarted(error)).stage == failed
            &&& command::run_after(probing, EventView::NotStarted(error)).stage == failed
            &&& command::run_after(open, ended_badly(out, code, err)).stage == failed
            &&& command::run_after(probing, ended_badly(out, code, err)).stage == failed
        }),
{
}

/// A probe alone is over when it ended well, with no output of its own.
pub proof fn probe_alone_ends_well(
    program: Seq<char>,
    guarded: bool,
    out: Seq<u8>,
    code: Option<i32>,
    err: Seq<u8>,
)
    ensures
        ({
            let run = fresh(program, None, guarded);
            let probing = if guarded {
                command::run_after(run, EventView::Allowed)
            } else {
                run
            };
            command::run_after(probing, ended_well(out, code, err)).stage == StageView::Done(
                Ok(Seq::empty()),
            )
        }),
{
}

/// After its probe a run starts its program with its arguments, once the guard let that command
/// through where there is one, and ends with what the program wrote, or with an error: that of the
/// guard, that of a program that cannot be started, or the one that its exit code and error output
/// mean. A program that a signal ended counts as one with the code -1.
pub proof fn run_ends_with_what_the_program_wrote(
    program: Seq<char>,
    args: Seq<Seq<char>>,
    guarded: bool,
    probe_out: Seq<u8>,
    probe_code: Option<i32>,
    probe_err: Seq<u8>,
    error: ErrorView,
    out: Seq<u8>,
    code: Option<i32>,
    err: Seq<u8>,
)
    ensures
        ({
            let run = fresh(program, Some(args), guarded);
            let probing = if guarded {
                command::run_after(run, EventView::Allowed)
            } else {
                run
            };
            let probed = command::run_after(
                probing,
                ended_well(probe_out, probe_code, probe_err),
            );
            let ready = if guarded {
                command::run_after(probed, EventView::Allowed)
            } else {
                probed
            };
            let said = text::meant(err);
            &&& guarded ==> command::action_of(probed) == ActionView::AskGuard(
                command::command_line(program, args),
            )
            &&& guarded ==> command::run_after(probed, EventView::Denied(error)).stage
                == StageView::Done(Err(error))
            &&& command::action_of(ready) == ActionView::Start { program, args }
            &&& command::run_after(ready, ended_well(out, code, err)).stage == StageView::Done(
                Ok(out),
            )
            &&& command::run_after(ready, EventView::NotStarted(error)).stage == StageView::Done(
                Err(error),
            )
            &&& command::run_after(ready, ended_badly(out, code, err)).stage == StageView::Done(
                Err(
                    command::classified(
                        if code is Some {
                            code->Some_0
                        } else {
                            -1i32
                        },
                        said,
                        text::small_letters(said),
                    ),
                ),
            )
            &&& command::action_of(command::run_after(ready, ended_well(out, code, err)))
                is Finish
        }),
{
}

/// Error output that is UTF-8 is the text that it is.
pub proof fn error_output_is_its_text(bytes: Seq<u8>)
    requires
        vstd::utf8::valid_utf8(bytes),
    ensures
        text::meant(bytes) == vstd::utf8::decode_utf8(bytes),
{
}

/// An event that answers nothing that the run asked for changes nothing.
pub proof fn stray_event_changes_nothing(run: RunView, event: EventView)
    requires
        (command::action_of(run) is AskGuard && !(event is Allowed) && !(event is Denied))
            || (command::action_of(run) is Start && !(event is Ended) && !(event is NotStarted)),
    ensures
        command::run_after(run, event) == run,
{
}

} // verus!
