//! How the session search tool is run.
//!
//! A run is a sequence of steps that something else performs: asking a safety guard, and starting a
//! program. [`CommandRun`] says what the next step is and, told what came of it, moves on. The
//! tool is probed before it is used, and where there is a guard nothing is started that the guard
//! has not let through.

use crate::error::{ErrorView, MsError};
use crate::text;
use crate::text::{
    concat, contains_text, in_small_letters, join_texts, signed_decimal_text, white_space,
};
use vstd::prelude::*;
use vstd::string::*;

verus! {

// ---------------------------------------------------------------------------------------------
// Errors of the tool
// ---------------------------------------------------------------------------------------------

/// What a failed command's exit code and error output mean. `lower` is the error output in small
/// letters.
pub open spec fn classified(exit_code: i32, stderr: Seq<char>, lower: Seq<char>) -> ErrorView {
    if exit_code == 2 || text::occurs_in(lower, "not found"@) || text::occurs_in(
        lower,
        "no such"@,
    ) {
        ErrorView::SkillNotFound(stderr)
    } else if text::occurs_in(lower, "database"@) || text::occurs_in(lower, "locked"@) {
        ErrorView::TransactionFailed(stderr)
    } else if text::occurs_in(lower, "mining"@) || text::occurs_in(lower, "extract"@) {
        ErrorView::MiningFailed(stderr)
    } else {
        ErrorView::CassUnavailable(
            "CASS command failed (exit "@ + text::signed_decimal(exit_code as int) + "): "@
                + stderr,
        )
    }
}

/// Classifies an error of the tool by its exit code and its error output, given also in small
/// letters.
pub fn classify_lowered(exit_code: i32, stderr: &str, stderr_lower: &str) -> (r: MsError)
    ensures
        r@ == classified(exit_code, stderr@, stderr_lower@),
{
    if exit_code == 2 || contains_text(stderr_lower, "not found") || contains_text(
        stderr_lower,
        "no such",
    ) {
        return MsError::SkillNotFound(stderr.to_owned());
    }
    if contains_text(stderr_lower, "database") || contains_text(stderr_lower, "locked") {
        return MsError::TransactionFailed(stderr.to_owned());
    }
    if contains_text(stderr_lower, "mining") || contains_text(stderr_lower, "extract") {
        return MsError::MiningFailed(stderr.to_owned());
    }
    let mut message = "CASS command failed (exit ".to_owned();
    let code = signed_decimal_text(exit_code as i64);
    message.append(code.as_str());
    message.append("): ");
    message.append(stderr);
    MsError::CassUnavailable(message)
}

/// Classifies an error of the tool by its exit code and its error output, in which capital and
/// small letters count the same.
pub fn classify_cass_error(exit_code: i32, stderr: &str) -> (r: MsError)
    ensures
        r@ == classified(exit_code, stderr@, text::small_letters(stderr@)),
{
    let lower = in_small_letters(stderr);
    classify_lowered(exit_code, stderr, lower.as_str())
}

/// Exit code 2 means that something was not found, whatever the error output says.
pub proof fn exit_two_is_not_found(stderr: Seq<char>, lower: Seq<char>)
    ensures
        classified(2, stderr, lower) == ErrorView::SkillNotFound(stderr),
{
}

/// No error hides what the tool said: its error output ends the text of the error.
pub proof fn error_output_is_kept(exit_code: i32, stderr: Seq<char>, lower: Seq<char>)
    ensures
        match classified(exit_code, stderr, lower) {
            ErrorView::SkillNotFound(t) => t == stderr,
            ErrorView::TransactionFailed(t) => t == stderr,
            ErrorView::MiningFailed(t) => t == stderr,
            ErrorView::CassUnavailable(t) => text::has_suffix(t, stderr),
            _ => false,
        },
{
    let prefix = "CASS command failed (exit "@ + text::signed_decimal(exit_code as int) + "): "@;
    assert((prefix + stderr).skip(prefix.len() as int) == stderr);
}

// ---------------------------------------------------------------------------------------------
// Commands as text
// ---------------------------------------------------------------------------------------------

/// A character that a shell would not take as part of a plain word.
pub open spec fn needs_quotes(c: char) -> bool {
    text::is_white_space(c) || "()[]{}$|&;<>`'\"*?!"@.contains(c)
}

/// A text with each single quote written so that it can stand between single quotes.
pub open spec fn quotes_escaped(word: Seq<char>) -> Seq<char>
    decreases word.len(),
{
    if word.len() == 0 {
        Seq::empty()
    } else {
        quotes_escaped(word.drop_last()) + (if word.last() == '\'' {
            "'\\''"@
        } else {
            seq![word.last()]
        })
    }
}

/// An argument as it is written in a command: between single quotes, where it needs them.
pub open spec fn shell_word(word: Seq<char>) -> Seq<char> {
    if exists|i: int| 0 <= i < word.len() && needs_quotes(#[trigger] word[i]) {
        "'"@ + quotes_escaped(word) + "'"@
    } else {
        word
    }
}

/// Each argument as it is written in a command.
pub open spec fn shell_words(words: Seq<Seq<char>>) -> Seq<Seq<char>> {
    Seq::new(words.len(), |i: int| shell_word(words[i]))
}

/// A command as one line of text.
pub open spec fn command_line(program: Seq<char>, args: Seq<Seq<char>>) -> Seq<char> {
    if args.len() == 0 {
        program
    } else {
        program + " "@ + text::join(shell_words(args), " "@)
    }
}

/// Whether a shell would not take a character as part of a plain word.
fn special(c: char) -> (r: bool)
    ensures
        r == needs_quotes(c),
{
    proof {
        reveal_strlit("()[]{}$|&;<>`'\"*?!");
        let all = "()[]{}$|&;<>`'\"*?!"@;
        assert(all[0] == '(' && all[1] == ')' && all[2] == '[' && all[3] == ']' && all[4] == '{'
            && all[5] == '}' && all[6] == '$' && all[7] == '|' && all[8] == '&' && all[9] == ';'
            && all[10] == '<' && all[11] == '>' && all[12] == '`' && all[13] == '\''
            && all[14] == '"' && all[15] == '*' && all[16] == '?' && all[17] == '!');
    }
    white_space(c) || c == '(' || c == ')' || c == '[' || c == ']' || c == '{' || c == '}'
        || c == '$' || c == '|' || c == '&' || c == ';' || c == '<' || c == '>' || c == '`'
        || c == '\'' || c == '"' || c == '*' || c == '?' || c == '!'
}

/// An argument as it is written in a command.
pub fn quote_argument(word: &str) -> (r: String)
    ensures
        r@ == shell_word(word@),
{
    let chars = text::chars_of(word);
    let mut found = false;
    let mut out = "'".to_owned();
    assert(out@ == "'"@ + quotes_escaped(word@.take(0)));
    for i in 0..chars.len()
        invariant
            chars@ == word@,
            found == exists|k: int| 0 <= k < i && needs_quotes(#[trigger] word@[k]),
            out@ == "'"@ + quotes_escaped(word@.take(i as int)),
    {
        let c = chars[i];
        proof {
            assert(word@.take(i + 1).drop_last() == word@.take(i as int));
            assert(word@.take(i + 1).last() == c);
        }
        let ghost before = out@;
        if special(c) {
            found = true;
        }
        if c == '\'' {
            out.append("'\\''");
        } else {
            out.push(c);
            assert(out@ == before + seq![c]);
        }
    }
    assert(word@.take(word@.len() as int) == word@);
    if found {
        out.append("'");
        out
    } else {
        word.to_owned()
    }
}

/// A command as one line of text, for a safety guard to judge.
pub fn command_string(program: &str, args: &Vec<String>) -> (r: String)
    ensures
        r@ == command_line(program@, text::texts(args@)),
{
    if args.len() == 0 {
        return program.to_owned();
    }
    let mut words: Vec<String> = Vec::new();
    for i in 0..args.len()
        invariant
            words@.len() == i,
            forall|k: int| 0 <= k < i ==> (#[trigger] words@[k])@ == shell_word(args@[k]@),
    {
        words.push(quote_argument(args[i].as_str()));
    }
    assert(text::texts(words@) == shell_words(text::texts(args@)));
    let joined = join_texts(&words, " ");
    let mut out = concat(program, " ");
    out.append(joined.as_str());
    out
}

/// What a shell reads a word of a command line as: a single quote opens a stretch in which every
/// character but the next single quote stands for itself, and a backslash makes the character
/// behind it stand for itself. Nothing where a character that ends a word or means more than
/// itself stands outside quotes, or a quote stays open.
pub open spec fn word_read(written: Seq<char>) -> Option<Seq<char>>
    decreases written.len(),
{
    if written.len() == 0 {
        Some(Seq::empty())
    } else if written[0] == '\'' {
        quoted_read(written.skip(1))
    } else if written[0] == '\\' {
        if written.len() < 2 {
            None
        } else {
            with_first(written[1], word_read(written.skip(2)))
        }
    } else if needs_quotes(written[0]) {
        None
    } else {
        with_first(written[0], word_read(written.skip(1)))
    }
}

/// What a shell reads a word as from within single quotes on.
pub open spec fn quoted_read(written: Seq<char>) -> Option<Seq<char>>
    decreases written.len(),
{
    if written.len() == 0 {
        None
    } else if written[0] == '\'' {
        word_read(written.skip(1))
    } else {
        with_first(written[0], quoted_read(written.skip(1)))
    }
}

/// A text with a character put before it, where there is one.
pub open spec fn with_first(c: char, rest: Option<Seq<char>>) -> Option<Seq<char>> {
    match rest {
        Some(t) => Some(seq![c] + t),
        None => None,
    }
}

/// A shell reads an argument back from the command line as one word, and as what it was. An
/// argument that holds a backslash and nothing that asks for quotes is left out: it is written
/// without quotes, in which a backslash means more than itself.
pub proof fn argument_is_read_back(word: Seq<char>)
    requires
        word.contains('\\') ==> exists|i: int|
            0 <= i < word.len() && needs_quotes(#[trigger] word[i]),
    ensures
        word_read(shell_word(word)) == Some(word),
{
    reveal_strlit("'");
    assert("'"@ == seq!['\'']);
    if exists|i: int| 0 <= i < word.len() && needs_quotes(#[trigger] word[i]) {
        let written = shell_word(word);
        assert(written[0] == '\'');
        assert(written.skip(1) == quotes_escaped(word) + seq!['\'']);
        escaped_is_read_back(word);
    } else {
        plain_is_read_back(word);
    }
}

proof fn plain_is_read_back(word: Seq<char>)
    requires
        !word.contains('\\'),
        forall|i: int| 0 <= i < word.len() ==> !needs_quotes(#[trigger] word[i]),
    ensures
        word_read(word) == Some(word),
    decreases word.len(),
{
    if word.len() > 0 {
        let rest = word.skip(1);
        assert forall|i: int| 0 <= i < rest.len() implies !needs_quotes(#[trigger] rest[i]) by {
            assert(rest[i] == word[i + 1]);
        }
        assert(!rest.contains('\\')) by {
            if rest.contains('\\') {
                let k = choose|k: int| 0 <= k < rest.len() && rest[k] == '\\';
                assert(word[k + 1] == '\\');
            }
        }
        plain_is_read_back(rest);
        assert(word[0] != '\\');
        assert(word[0] != '\'') by {
            reveal_strlit("()[]{}$|&;<>`'\"*?!");
            assert("()[]{}$|&;<>`'\"*?!"@[13] == '\'');
        }
        assert(seq![word[0]] + rest == word);
    }
}

proof fn escaped_from_the_front(word: Seq<char>)
    requires
        word.len() > 0,
    ensures
        quotes_escaped(word) == (if word[0] == '\'' {
            "'\\''"@
        } else {
            seq![word[0]]
        }) + quotes_escaped(word.skip(1)),
    decreases word.len(),
{
    let first = if word[0] == '\'' {
        "'\\''"@
    } else {
        seq![word[0]]
    };
    if word.len() > 1 {
        let last = if word.last() == '\'' {
            "'\\''"@
        } else {
            seq![word.last()]
        };
        escaped_from_the_front(word.drop_last());
        assert(word.drop_last().skip(1) == word.skip(1).drop_last());
        assert(word.skip(1).last() == word.last());
        let middle = quotes_escaped(word.skip(1).drop_last());
        assert((first + middle) + last == first + (middle + last));
    } else {
        assert(quotes_escaped(word.drop_last()) == Seq::<char>::empty());
        assert(quotes_escaped(word.skip(1)) == Seq::<char>::empty());
        assert(Seq::<char>::empty() + first == first + Seq::<char>::empty());
    }
}

proof fn escaped_is_read_back(word: Seq<char>)
    ensures
        quoted_read(quotes_escaped(word) + seq!['\'']) == Some(word),
    decreases word.len(),
{
    let written = quotes_escaped(word) + seq!['\''];
    if word.len() == 0 {
        assert(written.skip(1).len() == 0);
        assert(word_read(written.skip(1)) == Some(Seq::<char>::empty()));
    } else {
        let rest = word.skip(1);
        escaped_from_the_front(word);
        escaped_is_read_back(rest);
        let rest_written = quotes_escaped(rest) + seq!['\''];
        assert(seq![word[0]] + rest == word);
        if word[0] == '\'' {
            reveal_strlit("'\\''");
            let first = "'\\''"@;
            assert(first == seq!['\'', '\\', '\'', '\'']);
            assert(written.skip(1).skip(2).skip(1) == rest_written);
            assert(written[0] == '\'');
            assert(written.skip(1)[0] == '\\');
            assert(written.skip(1)[1] == '\'');
            assert(written.skip(1).skip(2)[0] == '\'');
            assert(word_read(written.skip(1).skip(2)) == Some(rest));
            assert(word_read(written.skip(1)) == Some(word));
        } else {
            assert(written.skip(1) == rest_written);
            assert(written[0] == word[0]);
        }
    }
}

// ---------------------------------------------------------------------------------------------
// Runs
// ---------------------------------------------------------------------------------------------

/// How far a run is.
#[derive(Debug)]
pub enum RunStage {
    /// The guard is to judge the probe.
    ProbeGuard,
    /// The tool is to be probed.
    Probe,
    /// The guard is to judge the command.
    CommandGuard,
    /// The command is to be run.
    Command,
    /// The run is over, with the command's output or an error.
    Done(Result<Vec<u8>, MsError>),
}

/// A run of the tool. Without arguments it is a probe and nothing else.
#[derive(Debug)]
pub struct CommandRun {
    pub stage: RunStage,
    pub program: String,
    pub args: Option<Vec<String>>,
    pub guarded: bool,
}

/// What is to be done next.
#[derive(Debug)]
pub enum RunAction {
    /// Ask the guard whether a command may be run.
    AskGuard(String),
    /// Start a program and wait for it.
    Start { program: String, args: Vec<String> },
    /// Nothing: the run is over.
    Finish,
}

/// What came of an action.
#[derive(Debug)]
pub enum RunEvent {
    /// The guard lets the command through.
    Allowed,
    /// The guard refuses the command.
    Denied(MsError),
    /// The program ended. It has no exit code where a signal ended it.
    Ended { success: bool, exit_code: Option<i32>, stdout: Vec<u8>, stderr: Vec<u8> },
    /// The program could not be started.
    NotStarted(MsError),
}

/// How far a run is.
#[verifier::ext_equal]
pub ghost enum StageView {
    ProbeGuard,
    Probe,
    CommandGuard,
    Command,
    Done(Result<Seq<u8>, ErrorView>),
}

/// What a run is.
#[verifier::ext_equal]
pub ghost struct RunView {
    pub stage: StageView,
    pub program: Seq<char>,
    pub args: Option<Seq<Seq<char>>>,
    pub guarded: bool,
}

/// What is to be done next.
#[verifier::ext_equal]
pub ghost enum ActionView {
    AskGuard(Seq<char>),
    Start { program: Seq<char>, args: Seq<Seq<char>> },
    Finish,
}

/// What came of an action.
#[verifier::ext_equal]
pub ghost enum EventView {
    Allowed,
    Denied(ErrorView),
    Ended { success: bool, exit_code: Option<i32>, stdout: Seq<u8>, stderr: Seq<u8> },
    NotStarted(ErrorView),
}

impl View for RunStage {
    type V = StageView;

    open spec fn view(&self) -> StageView {
        match self {
            RunStage::ProbeGuard => StageView::ProbeGuard,
            RunStage::Probe => StageView::Probe,
            RunStage::CommandGuard => StageView::CommandGuard,
            RunStage::Command => StageView::Command,
            RunStage::Done(Ok(output)) => StageView::Done(Ok(output@)),
            RunStage::Done(Err(error)) => StageView::Done(Err(error@)),
        }
    }
}

impl View for CommandRun {
    type V = RunView;

    open spec fn view(&self) -> RunView {
        RunView {
            stage: self.stage@,
            program: self.program@,
            args: match self.args {
                Some(args) => Some(text::texts(args@)),
                None => None,
            },
            guarded: self.guarded,
        }
    }
}

impl View for RunAction {
    type V = ActionView;

    open spec fn view(&self) -> ActionView {
        match self {
            RunAction::AskGuard(command) => ActionView::AskGuard(command@),
            RunAction::Start { program, args } => ActionView::Start {
                program: program@,
                args: text::texts(args@),
            },
            RunAction::Finish => ActionView::Finish,
        }
    }
}

impl View for RunEvent {
    type V = EventView;

    open spec fn view(&self) -> EventView {
        match self {
            RunEvent::Allowed => EventView::Allowed,
            RunEvent::Denied(error) => EventView::Denied(error@),
            RunEvent::Ended { success, exit_code, stdout, stderr } => EventView::Ended {
                success: *success,
                exit_code: *exit_code,
                stdout: stdout@,
                stderr: stderr@,
            },
            RunEvent::NotStarted(error) => EventView::NotStarted(error@),
        }
    }
}

/// The error of a tool that cannot be used.
pub open spec fn unavailable() -> ErrorView {
    ErrorView::CassUnavailable("CASS binary not found or not executable"@)
}

/// The arguments of the probe.
pub open spec fn probe_args() -> Seq<Seq<char>> {
    seq!["--version"@]
}

/// The arguments that a run's command is started with.
pub open spec fn args_or_none(args: Option<Seq<Seq<char>>>) -> Seq<Seq<char>> {
    match args {
        Some(args) => args,
        None => Seq::empty(),
    }
}

/// The step that a run asks for.
pub open spec fn action_of(run: RunView) -> ActionView {
    match run.stage {
        StageView::ProbeGuard => ActionView::AskGuard(command_line(run.program, probe_args())),
        StageView::Probe => ActionView::Start { program: run.program, args: probe_args() },
        StageView::CommandGuard => ActionView::AskGuard(
            command_line(run.program, args_or_none(run.args)),
        ),
        StageView::Command => ActionView::Start {
            program: run.program,
            args: args_or_none(run.args),
        },
        StageView::Done(_) => ActionView::Finish,
    }
}

/// How far a run is when its probe has succeeded.
pub open spec fn stage_after_probe(run: RunView) -> StageView {
    if run.args is None {
        StageView::Done(Ok(Seq::empty()))
    } else if run.guarded {
        StageView::CommandGuard
    } else {
        StageView::Command
    }
}

/// How far a run is after an event. An event that answers no step of the stage changes nothing.
pub open spec fn stage_after(run: RunView, event: EventView) -> StageView {
    match (run.stage, event) {
        (StageView::ProbeGuard, EventView::Allowed) => StageView::Probe,
        (StageView::ProbeGuard, EventView::Denied(_)) => StageView::Done(Err(unavailable())),
        (StageView::Probe, EventView::Ended { success, .. }) => if success {
            stage_after_probe(run)
        } else {
            StageView::Done(Err(unavailable()))
        },
        (StageView::Probe, EventView::NotStarted(_)) => StageView::Done(Err(unavailable())),
        (StageView::CommandGuard, EventView::Allowed) => StageView::Command,
        (StageView::CommandGuard, EventView::Denied(error)) => StageView::Done(Err(error)),
        (StageView::Command, EventView::Ended { success, exit_code, stdout, stderr }) =>
            if success {
                StageView::Done(Ok(stdout))
            } else {
                StageView::Done(
                    Err(
                        classified(
                            match exit_code {
                                Some(code) => code,
                                None => -1i32,
                            },
                            text::meant(stderr),
                            text::small_letters(text::meant(stderr)),
                        ),
                    ),
                )
            },
        (StageView::Command, EventView::NotStarted(error)) => StageView::Done(Err(error)),
        (stage, _) => stage,
    }
}

/// A run after an event.
pub open spec fn run_after(run: RunView, event: EventView) -> RunView {
    RunView { stage: stage_after(run, event), ..run }
}

/// The stage that a run starts in.
pub open spec fn first_stage(guarded: bool) -> StageView {
    if guarded {
        StageView::ProbeGuard
    } else {
        StageView::Probe
    }
}

/// The arguments of the probe.
fn probe_arguments() -> (r: Vec<String>)
    ensures
        text::texts(r@) == probe_args(),
{
    let mut args: Vec<String> = Vec::new();
    args.push("--version".to_owned());
    assert(text::texts(args@) == probe_args());
    args
}

/// A list of texts of one's own.
fn copied(list: &Vec<String>) -> (r: Vec<String>)
    ensures
        text::texts(r@) == text::texts(list@),
{
    let mut out: Vec<String> = Vec::new();
    for i in 0..list.len()
        invariant
            out@.len() == i,
            forall|k: int| 0 <= k < i ==> (#[trigger] out@[k])@ == list@[k]@,
    {
        out.push(list[i].as_str().to_owned());
    }
    assert(text::texts(out@) == text::texts(list@));
    out
}

impl CommandRun {
    /// A run of a program; a probe alone, where there are no arguments.
    pub fn new(program: &str, args: Option<Vec<String>>, guarded: bool) -> (r: CommandRun)
        ensures
            r@ == (RunView {
                stage: first_stage(guarded),
                program: program@,
                args: match args {
                    Some(args) => Some(text::texts(args@)),
                    None => None,
                },
                guarded,
            }),
    {
        CommandRun {
            stage: if guarded {
                RunStage::ProbeGuard
            } else {
                RunStage::Probe
            },
            program: program.to_owned(),
            args,
            guarded,
        }
    }

    /// The arguments that the command is started with.
    fn command_arguments(&self) -> (r: Vec<String>)
        ensures
            text::texts(r@) == args_or_none(self@.args),
    {
        match &self.args {
            Some(args) => copied(args),
            None => {
                let none: Vec<String> = Vec::new();
                assert(text::texts(none@) == Seq::<Seq<char>>::empty());
                none
            },
        }
    }

    /// What is to be done next.
    pub fn action(&self) -> (r: RunAction)
        ensures
            r@ == action_of(self@),
    {
        match &self.stage {
            RunStage::ProbeGuard => {
                let args = probe_arguments();
                RunAction::AskGuard(command_string(self.program.as_str(), &args))
            },
            RunStage::Probe => RunAction::Start {
                program: self.program.as_str().to_owned(),
                args: probe_arguments(),
            },
            RunStage::CommandGuard => {
                let args = self.command_arguments();
                RunAction::AskGuard(command_string(self.program.as_str(), &args))
            },
            RunStage::Command => RunAction::Start {
                program: self.program.as_str().to_owned(),
                args: self.command_arguments(),
            },
            RunStage::Done(_) => RunAction::Finish,
        }
    }

    /// Moves on by what came of the last action.
    pub fn step(self, event: RunEvent) -> (r: CommandRun)
        ensures
            r@ == run_after(self@, event@),
    {
        let CommandRun { stage, program, args, guarded } = self;
        let stage = match (stage, event) {
            (RunStage::ProbeGuard, RunEvent::Allowed) => RunStage::Probe,
            (RunStage::ProbeGuard, RunEvent::Denied(_)) => not_usable(),
            (RunStage::Probe, RunEvent::Ended { success, .. }) => if !success {
                not_usable()
            } else if args.is_none() {
                let nothing: Vec<u8> = Vec::new();
                assert(nothing@ == Seq::<u8>::empty());
                RunStage::Done(Ok(nothing))
            } else if guarded {
                RunStage::CommandGuard
            } else {
                RunStage::Command
            },
            (RunStage::Probe, RunEvent::NotStarted(_)) => not_usable(),
            (RunStage::CommandGuard, RunEvent::Allowed) => RunStage::Command,
            (RunStage::CommandGuard, RunEvent::Denied(error)) => RunStage::Done(Err(error)),
            (RunStage::Command, RunEvent::Ended { success, exit_code, stdout, stderr }) =>
                if success {
                    RunStage::Done(Ok(stdout))
                } else {
                    let code = match exit_code {
                        Some(code) => code,
                        None => -1i32,
                    };
                    let said = text::text_meant(stderr.as_slice());
                    RunStage::Done(Err(classify_cass_error(code, said.as_str())))
                },
            (RunStage::Command, RunEvent::NotStarted(error)) => RunStage::Done(Err(error)),
            (stage, _) => stage,
        };
        CommandRun { stage, program, args, guarded }
    }
}

/// The end of a run whose tool cannot be used.
fn not_usable() -> (r: RunStage)
    ensures
        r@ == StageView::Done(Err(unavailable())),
{
    RunStage::Done(
        Err(MsError::CassUnavailable("CASS binary not found or not executable".to_owned())),
    )
}

/// A run after a sequence of events.
pub open spec fn run_after_all(run: RunView, events: Seq<EventView>) -> RunView
    decreases events.len(),
{
    if events.len() == 0 {
        run
    } else {
        run_after(run_after_all(run, events.drop_last()), events.last())
    }
}

/// A run of a program that nothing was done for yet.
pub open spec fn is_fresh(run: RunView) -> bool {
    run.stage == first_stage(run.guarded)
}

/// Before the `i`-th event the run asked for a probe, and the event says that it succeeded.
pub open spec fn probed_at(run: RunView, events: Seq<EventView>, i: int) -> bool {
    &&& 0 <= i < events.len()
    &&& run_after_all(run, events.take(i)).stage == StageView::Probe
    &&& events[i] matches EventView::Ended { success, .. } && success
}

/// Before the `i`-th event the run asked the guard for `command`, and the event says that the guard
/// lets it through.
pub open spec fn allowed_at(
    run: RunView,
    events: Seq<EventView>,
    i: int,
    command: Seq<char>,
) -> bool {
    &&& 0 <= i < events.len()
    &&& action_of(run_after_all(run, events.take(i))) == ActionView::AskGuard(command)
    &&& events[i] == EventView::Allowed
}

/// A command is started only after the tool was probed with success and, where there is a guard,
/// after the guard let that very command through.
pub proof fn command_waits_for_probe_and_guard(run: RunView, events: Seq<EventView>)
    requires
        is_fresh(run),
        run_after_all(run, events).stage == StageView::Command,
    ensures
        exists|i: int| probed_at(run, events, i),
        run.guarded ==> exists|i: int|
            allowed_at(run, events, i, command_line(run.program, args_or_none(run.args))),
    decreases events.len(),
{
    history(run, events);
}

proof fn history(run: RunView, events: Seq<EventView>)
    requires
        is_fresh(run),
    ensures
        run_after_all(run, events).program == run.program,
        run_after_all(run, events).args == run.args,
        run_after_all(run, events).guarded == run.guarded,
        run_after_all(run, events).stage is CommandGuard ==> run.guarded,
        (run_after_all(run, events).stage is CommandGuard || run_after_all(
            run,
            events,
        ).stage is Command) ==> exists|i: int| probed_at(run, events, i),
        (run_after_all(run, events).stage is Command && run.guarded) ==> exists|i: int|
            allowed_at(run, events, i, command_line(run.program, args_or_none(run.args))),
    decreases events.len(),
{
    if events.len() > 0 {
        let before = events.drop_last();
        history(run, before);
        let n = events.len() - 1;
        assert(events.take(n) == before);
        let was = run_after_all(run, before);
        let is = run_after_all(run, events);
        if exists|i: int| probed_at(run, before, i) {
            let i = choose|i: int| probed_at(run, before, i);
            assert(events.take(i) == before.take(i));
            assert(probed_at(run, events, i));
        }
        let command = command_line(run.program, args_or_none(run.args));
        if exists|i: int| allowed_at(run, before, i, command) {
            let i = choose|i: int| allowed_at(run, before, i, command);
            assert(events.take(i) == before.take(i));
            assert(allowed_at(run, events, i, command));
        }
        if was.stage is Probe && (is.stage is Command || is.stage is CommandGuard) {
            assert(probed_at(run, events, n));
        }
        if was.stage is CommandGuard && is.stage is Command {
            assert(allowed_at(run, events, n, command));
        }
    }
}

/// What the guard refuses is not started: the run ends, with the guard's own error where it refused
/// the command.
pub proof fn denied_run_ends(run: RunView, error: ErrorView)
    requires
        action_of(run) is AskGuard,
    ensures
        action_of(run_after(run, EventView::Denied(error))) is Finish,
        run.stage is CommandGuard ==> run_after(run, EventView::Denied(error)).stage
            == StageView::Done(Err(error)),
{
}

/// A run that is over stays as it is.
pub proof fn finished_run_stays(run: RunView, event: EventView)
    requires
        run.stage is Done,
    ensures
        run_after(run, event) == run,
{
}

} // verus!
