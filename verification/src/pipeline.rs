//! Pipelines: the text `stage1 | stage2 | ... | stageN`, the commands it names,
//! and the record of the processes started for them.

use crate::text::{
    chars_of, child_path, decimal, decimal_string, join_path, join_with, views,
};
use crate::utils::{IoFailure, PlumberFile, PlumberFileConfig, PlumberFileConfigMeta};
use vstd::prelude::*;
use vstd::std_specs::convert::FromSpecImpl;
use vstd::string::StringExecFns;

verus! {

/// Where the stages' error output is kept unless a pipeline says otherwise.
pub const LOGGING_DIR: &'static str = "/tmp/plumber/log";

/// Where the entries of the running pipelines are kept.
pub const RUNNING_DIR: &'static str = "/tmp/plumber/run";

/// Why a pipeline text names no runnable chain of commands.
#[derive(Debug, Clone, Copy, PartialEq, Eq, Structural)]
pub enum ParseError {
    /// The text is empty or holds white space only.
    Empty,
    /// Some piece between two pipes, before the first or behind the last holds no command.
    MissingCommand,
}

/// Why a running pipeline could not be asked to stop.
#[derive(Debug, Clone, Copy, PartialEq, Eq, Structural)]
pub enum PipelineError {
    /// Nothing is on record under the pipeline's name.
    FileNotFound,
    /// The record could not be read.
    Other,
}

impl From<IoFailure> for PipelineError {
    fn from(value: IoFailure) -> (error: PipelineError) {
        match value {
            IoFailure::NotFound => PipelineError::FileNotFound,
            IoFailure::Other(_) => PipelineError::Other,
        }
    }
}

impl FromSpecImpl<IoFailure> for PipelineError {
    open spec fn obeys_from_spec() -> bool {
        true
    }

    open spec fn from_spec(value: IoFailure) -> PipelineError {
        match value {
            IoFailure::NotFound => PipelineError::FileNotFound,
            IoFailure::Other(_) => PipelineError::Other,
        }
    }
}

/// One stage of a pipeline: the program to start and its arguments.
#[derive(Debug, PartialEq)]
pub struct PipelineCommand {
    pub name: String,
    pub args: Vec<String>,
}

/// A stage as plain text.
pub struct CommandView {
    pub name: Seq<char>,
    pub args: Seq<Seq<char>>,
}

impl View for PipelineCommand {
    type V = CommandView;

    open spec fn view(&self) -> CommandView {
        CommandView { name: self.name@, args: views(self.args@) }
    }
}

/// Whether `c` has the Unicode property `White_Space`: the tab, the line
/// feed, the vertical tab, the form feed, the carriage return, the space, the
/// next-line mark, and the spaces and separators beyond ASCII.
pub open spec fn white_space(c: char) -> bool {
    let n = c as u32;
    ||| 0x09 <= n <= 0x0d
    ||| n == 0x20
    ||| n == 0x85
    ||| n == 0xa0
    ||| n == 0x1680
    ||| 0x2000 <= n <= 0x200a
    ||| n == 0x2028
    ||| n == 0x2029
    ||| n == 0x202f
    ||| n == 0x205f
    ||| n == 0x3000
}

/// `char::is_whitespace` of the standard library, taken at its documented
/// word and not proved here: it says whether the character has the Unicode
/// property `White_Space`, whose members `white_space` lists.
pub assume_specification[ char::is_whitespace ](c: char) -> (b: bool)
    ensures
        b == white_space(c),
;

/// Where a reader of a text stands with regard to quotations and backslashes.
#[derive(Debug, Clone, Copy, PartialEq, Eq, Structural)]
pub enum Quoting {
    /// Outside any quotation, and not behind a backslash.
    Plain,
    /// Outside any quotation, right behind a backslash: the next character
    /// stands for itself.
    Escaped,
    /// Inside single quotes: every character up to the next single quote
    /// stands for itself.
    Single,
    /// Inside double quotes.
    Double,
    /// Inside double quotes, right behind a backslash.
    DoubleEscaped,
}

/// Where a reader who stood at `state` stands behind the character `c`.
pub open spec fn quoting_behind(state: Quoting, c: char) -> Quoting {
    match state {
        Quoting::Plain => if c == '\\' {
            Quoting::Escaped
        } else if c == '\'' {
            Quoting::Single
        } else if c == '"' {
            Quoting::Double
        } else {
            Quoting::Plain
        },
        Quoting::Escaped => Quoting::Plain,
        Quoting::Single => if c == '\'' {
            Quoting::Plain
        } else {
            Quoting::Single
        },
        Quoting::Double => if c == '"' {
            Quoting::Plain
        } else if c == '\\' {
            Quoting::DoubleEscaped
        } else {
            Quoting::Double
        },
        Quoting::DoubleEscaped => Quoting::Double,
    }
}

/// Where a reader stands behind the text `raw`, read from its start.
pub open spec fn quoting_of(raw: Seq<char>) -> Quoting
    decreases raw.len(),
{
    if raw.len() == 0 {
        Quoting::Plain
    } else {
        quoting_behind(quoting_of(raw.drop_last()), raw.last())
    }
}

/// Whether `raw` ends in a pipe that parts two stages: a pipe outside any
/// quotation and not right behind an unescaped backslash.
pub open spec fn ends_in_cut(raw: Seq<char>) -> bool {
    raw.len() > 0 && raw.last() == '|' && quoting_of(raw.drop_last()) == Quoting::Plain
}

/// How many pipes of `raw` part two stages.
pub open spec fn cutting_pipes(raw: Seq<char>) -> nat
    decreases raw.len(),
{
    if raw.len() == 0 {
        0
    } else {
        cutting_pipes(raw.drop_last()) + if ends_in_cut(raw) {
            1nat
        } else {
            0nat
        }
    }
}

/// The pieces of `raw` between those pipes that stand outside quotations and
/// not right behind an unescaped backslash. The text is read once from the
/// left: such a pipe starts a new piece, every other character goes to the
/// piece at hand.
pub open spec fn stage_segments(raw: Seq<char>) -> Seq<Seq<char>>
    decreases raw.len(),
{
    if raw.len() == 0 {
        seq![Seq::empty()]
    } else {
        let before = stage_segments(raw.drop_last());
        if ends_in_cut(raw) {
            before.push(Seq::empty())
        } else {
            before.update(before.len() - 1, before.last().push(raw.last()))
        }
    }
}

proof fn lemma_join_last_grows(parts: Seq<Seq<char>>, sep: char, c: char)
    requires
        parts.len() > 0,
    ensures
        join_with(parts.update(parts.len() - 1, parts.last().push(c)), sep) == join_with(
            parts,
            sep,
        ).push(c),
{
    let grown = parts.update(parts.len() - 1, parts.last().push(c));
    if parts.len() > 1 {
        assert(grown.drop_last() =~= parts.drop_last());
    }
    assert(join_with(grown, sep) =~= join_with(parts, sep).push(c));
}

/// Cutting a text into stages loses nothing: a text with `k` cutting pipes
/// falls into `k + 1` pieces, the pieces joined by pipes give the text back,
/// no piece holds a pipe that cuts, and a reader stands behind the last
/// piece as behind the whole text.
pub proof fn lemma_stage_segments(raw: Seq<char>)
    ensures
        stage_segments(raw).len() == cutting_pipes(raw) + 1,
        join_with(stage_segments(raw), '|') == raw,
        forall|i: int| 0 <= i < stage_segments(raw).len() ==> cutting_pipes(#[trigger] stage_segments(raw)[i]) == 0,
        quoting_of(stage_segments(raw).last()) == quoting_of(raw),
    decreases raw.len(),
{
    let segments = stage_segments(raw);
    if raw.len() == 0 {
        assert(join_with(segments, '|') =~= raw);
    } else {
        let init = raw.drop_last();
        let before = stage_segments(init);
        lemma_stage_segments(init);
        if ends_in_cut(raw) {
            assert(segments.drop_last() =~= before);
            assert(join_with(segments, '|') =~= raw);
            assert forall|i: int| 0 <= i < segments.len() implies cutting_pipes(#[trigger] segments[i]) == 0 by {
                if i < before.len() {
                    assert(segments[i] == before[i]);
                }
            }
        } else {
            let last = before.last().push(raw.last());
            lemma_join_last_grows(before, '|', raw.last());
            assert(init.push(raw.last()) =~= raw);
            assert(last.drop_last() =~= before.last());
            assert(!ends_in_cut(last));
            assert forall|i: int| 0 <= i < segments.len() implies cutting_pipes(#[trigger] segments[i]) == 0 by {
                if i < before.len() - 1 {
                    assert(segments[i] == before[i]);
                }
            }
        }
    }
}

/// The words that `shlex::split` makes of `segment` under the word-splitting,
/// quoting and escaping rules of a POSIX shell, or `None` where the text ends
/// inside a quotation or right behind a backslash.
pub uninterp spec fn shell_words(segment: Seq<char>) -> Option<Seq<Seq<char>>>;

/// The words of a tokenizer's answer as plain text.
pub open spec fn words_view(words: Option<Vec<String>>) -> Option<Seq<Seq<char>>> {
    match words {
        Some(w) => Some(views(w@)),
        None => None,
    }
}

/// `shlex::split` reads nothing but its argument, so its answer is a function
/// of the text: it is given the name `shell_words`. The tokenizer's rules
/// themselves are not restated here.
pub assume_specification[ shlex::split ](in_str: &str) -> (words: Option<Vec<String>>)
    ensures
        words_view(words) == shell_words(in_str@),
;

/// Whether every character of `s` is white space; the empty text is blank.
pub open spec fn blank(s: Seq<char>) -> bool {
    forall|i: int| 0 <= i < s.len() ==> white_space(#[trigger] s[i])
}

/// The command that the words of one segment make: the first word is the
/// program, the others are its arguments. There is none where the tokenizer
/// gave up, gave no word, or gave an empty first word.
pub open spec fn command_of(words: Option<Seq<Seq<char>>>) -> Option<CommandView> {
    match words {
        Some(w) => if w.len() > 0 && w[0].len() > 0 {
            Some(CommandView { name: w[0], args: w.skip(1) })
        } else {
            None
        },
        None => None,
    }
}

/// The command of the segment `segment`.
pub open spec fn segment_command(segment: Seq<char>) -> Option<CommandView> {
    command_of(shell_words(segment))
}

/// What a pipeline text means: its commands, stage by stage, or the reason why
/// it has none.
pub open spec fn parsed(raw: Seq<char>) -> Result<Seq<CommandView>, ParseError> {
    let segments = stage_segments(raw);
    if blank(raw) {
        Err(ParseError::Empty)
    } else if forall|i: int| 0 <= i < segments.len() ==> (#[trigger] segment_command(segments[i])) is Some {
        Ok(Seq::new(segments.len(), |i: int| segment_command(segments[i])->0))
    } else {
        Err(ParseError::MissingCommand)
    }
}

/// A parser's answer as plain text.
pub open spec fn parse_view(result: Result<Vec<PipelineCommand>, ParseError>) -> Result<Seq<CommandView>, ParseError> {
    match result {
        Ok(commands) => Ok(views(commands@)),
        Err(e) => Err(e),
    }
}

/// A text that parses has one stage more than it has pipes that cut, every
/// stage names a program, and the stages are the commands of the text's
/// pieces, from left to right.
pub proof fn lemma_parsed_stages(raw: Seq<char>)
    requires
        parsed(raw) is Ok,
    ensures
        parsed(raw)->Ok_0.len() == cutting_pipes(raw) + 1,
        parsed(raw)->Ok_0.len() == stage_segments(raw).len(),
        forall|i: int| 0 <= i < parsed(raw)->Ok_0.len() ==> (#[trigger] parsed(raw)->Ok_0[i]).name.len() > 0,
        forall|i: int| 0 <= i < parsed(raw)->Ok_0.len() ==> segment_command(stage_segments(raw)[i]) == Some(#[trigger] parsed(raw)->Ok_0[i]),
{
    lemma_stage_segments(raw);
    let segments = stage_segments(raw);
    assert forall|i: int| 0 <= i < parsed(raw)->Ok_0.len() implies (#[trigger] parsed(raw)->Ok_0[i]).name.len() > 0 by {
        assert(segment_command(segments[i]) is Some);
    }
}

/// Whether `s` is empty or holds white space only.
pub fn is_blank(s: &str) -> (b: bool)
    ensures
        b == blank(s@),
{
    for c in iter: s.chars()
        invariant
            iter.seq() == s@,
            forall|j: int| 0 <= j < iter.index() ==> white_space(#[trigger] s@[j]),
    {
        if !c.is_whitespace() {
            return false;
        }
    }
    true
}

fn next_quoting(state: Quoting, c: char) -> (next: Quoting)
    ensures
        next == quoting_behind(state, c),
{
    match state {
        Quoting::Plain => if c == '\\' {
            Quoting::Escaped
        } else if c == '\'' {
            Quoting::Single
        } else if c == '"' {
            Quoting::Double
        } else {
            Quoting::Plain
        },
        Quoting::Escaped => Quoting::Plain,
        Quoting::Single => if c == '\'' {
            Quoting::Plain
        } else {
            Quoting::Single
        },
        Quoting::Double => if c == '"' {
            Quoting::Plain
        } else if c == '\\' {
            Quoting::DoubleEscaped
        } else {
            Quoting::Double
        },
        Quoting::DoubleEscaped => Quoting::Double,
    }
}

/// The pieces of `raw` between the pipes that part two stages.
pub fn split_stages(raw: &str) -> (parts: Vec<String>)
    ensures
        views(parts@) == stage_segments(raw@),
{
    let chars = chars_of(raw);
    let mut parts: Vec<String> = Vec::new();
    let mut current = String::new();
    let mut state = Quoting::Plain;
    let mut i: usize = 0;
    assert(chars@.take(0) =~= Seq::<char>::empty());
    assert(views(parts@).push(current@) =~= stage_segments(chars@.take(0)));
    while i < chars.len()
        invariant
            i <= chars.len(),
            state == quoting_of(chars@.take(i as int)),
            views(parts@).push(current@) == stage_segments(chars@.take(i as int)),
        decreases chars.len() - i,
    {
        let c = chars[i];
        let ghost before = views(parts@).push(current@);
        proof {
            assert(chars@.take(i + 1).drop_last() =~= chars@.take(i as int));
            assert(chars@.take(i + 1).last() == c);
        }
        if c == '|' && state == Quoting::Plain {
            parts.push(current);
            current = String::new();
            assert(views(parts@).push(current@) =~= before.push(Seq::empty()));
        } else {
            current.push(c);
            assert(views(parts@).push(current@) =~= before.update(
                before.len() - 1,
                before.last().push(c),
            ));
        }
        state = next_quoting(state, c);
        i += 1;
    }
    assert(chars@.take(chars@.len() as int) =~= chars@);
    assert(views(parts@.push(current)) =~= views(parts@).push(current@));
    parts.push(current);
    parts
}

impl PipelineCommand {
    /// The command that a tokenizer's answer for one segment makes.
    pub fn from_words(words: Option<Vec<String>>) -> (result: Result<PipelineCommand, ParseError>)
        ensures
            match result {
                Ok(command) => command_of(words_view(words)) == Some(command@),
                Err(e) => e == ParseError::MissingCommand && command_of(words_view(words)) is None,
            },
    {
        match words {
            None => Err(ParseError::MissingCommand),
            Some(mut list) => {
                if list.len() == 0 {
                    return Err(ParseError::MissingCommand);
                }
                if list[0].as_str().is_empty() {
                    return Err(ParseError::MissingCommand);
                }
                let ghost all = list@;
                let name = list.remove(0);
                assert(views(list@) =~= views(all).skip(1));
                Ok(PipelineCommand { name, args: list })
            },
        }
    }
}

/// Where the first stage of a chain reads from.
#[derive(Debug, Clone, Copy, PartialEq, Eq, Structural)]
pub enum InputSource {
    /// From nothing: the stage sees the end of its input at once.
    Null,
    /// From the input of the process that starts the chain.
    Inherit,
}

/// Where the last stage of a chain writes to.
#[derive(Debug, Clone, Copy, PartialEq, Eq, Structural)]
pub enum OutputSink {
    /// To the output of the process that starts the chain.
    Inherit,
    /// To a pipe that the caller reads once the chain has ended.
    Capture,
}

/// The standard input of one stage.
#[derive(Debug, Clone, Copy, PartialEq, Eq, Structural)]
pub enum StageInput {
    /// The chain's own input: only the first stage has it.
    Source(InputSource),
    /// The output of the stage before.
    Upstream,
}

/// The standard output of one stage.
#[derive(Debug, Clone, Copy, PartialEq, Eq, Structural)]
pub enum StageOutput {
    /// A pipe that the next stage reads.
    Downstream,
    /// The chain's own output: only the last stage has it.
    Sink(OutputSink),
}

/// All that is needed to start one stage.
#[derive(Debug, PartialEq)]
pub struct StageLaunch {
    pub program: String,
    pub args: Vec<String>,
    pub stdin: StageInput,
    pub stdout: StageOutput,
    /// The file that takes the stage's error output, made or emptied before the stage starts.
    pub stderr_log: String,
    /// Whether the stage gets a process group of its own, out of reach of
    /// the signals sent to the group of the process that starts it.
    pub own_process_group: bool,
}

/// A launch as plain text.
pub struct LaunchView {
    pub program: Seq<char>,
    pub args: Seq<Seq<char>>,
    pub stdin: StageInput,
    pub stdout: StageOutput,
    pub stderr_log: Seq<char>,
    pub own_process_group: bool,
}

impl View for StageLaunch {
    type V = LaunchView;

    open spec fn view(&self) -> LaunchView {
        LaunchView {
            program: self.program@,
            args: views(self.args@),
            stdin: self.stdin,
            stdout: self.stdout,
            stderr_log: self.stderr_log@,
            own_process_group: self.own_process_group,
        }
    }
}

/// The file in `dir` that takes the error output of `program`.
pub open spec fn stderr_log(dir: Seq<char>, program: Seq<char>) -> Seq<char> {
    child_path(dir, program + ".stderr.log"@)
}

/// A pipeline: its name, its text, the commands the text names, the process
/// ids of the stages started so far, and the directory of its log files.
pub struct Pipeline {
    name: String,
    raw_pipeline: String,
    commands: Vec<PipelineCommand>,
    jobs: Vec<u32>,
    logging_dir: String,
}

/// A pipeline as plain values.
pub struct PipelineView {
    pub name: Seq<char>,
    pub raw_pipeline: Seq<char>,
    pub commands: Seq<CommandView>,
    pub jobs: Seq<u32>,
    pub logging_dir: Seq<char>,
}

impl PipelineView {
    /// The commands are those of the text, and no more stages are started
    /// than there are commands; `jobs[i]` is the process of `commands[i]`.
    pub open spec fn wf(self) -> bool {
        &&& parsed(self.raw_pipeline) == Ok::<Seq<CommandView>, ParseError>(self.commands)
        &&& self.jobs.len() <= self.commands.len()
    }

    /// Whether every stage has been started.
    pub open spec fn fully_spawned(self) -> bool {
        self.jobs.len() == self.commands.len()
    }

    /// How stage `stage` is started: a chain reads its input at the first
    /// stage and gives its output at the last; between two neighbours runs a
    /// pipe; every stage has a log file of its program's name and a process
    /// group of its own. Two stages of one program share the log file's name.
    pub open spec fn launch(self, stage: int, input: InputSource, output: OutputSink) -> LaunchView {
        LaunchView {
            program: self.commands[stage].name,
            args: self.commands[stage].args,
            stdin: if stage == 0 {
                StageInput::Source(input)
            } else {
                StageInput::Upstream
            },
            stdout: if stage == self.commands.len() - 1 {
                StageOutput::Sink(output)
            } else {
                StageOutput::Downstream
            },
            stderr_log: stderr_log(self.logging_dir, self.commands[stage].name),
            own_process_group: true,
        }
    }
}

impl View for Pipeline {
    type V = PipelineView;

    closed spec fn view(&self) -> PipelineView {
        PipelineView {
            name: self.name@,
            raw_pipeline: self.raw_pipeline@,
            commands: views(self.commands@),
            jobs: self.jobs@,
            logging_dir: self.logging_dir@,
        }
    }
}

/// The pipeline `name` of the text `raw` with its log files under `logging_root`,
/// before any stage is started; or the reason why the text names no pipeline.
pub open spec fn pipeline_of(name: Seq<char>, raw: Seq<char>, logging_root: Seq<char>) -> Result<PipelineView, ParseError> {
    match parsed(raw) {
        Ok(commands) => Ok(PipelineView {
            name,
            raw_pipeline: raw,
            commands,
            jobs: Seq::empty(),
            logging_dir: child_path(logging_root, name),
        }),
        Err(e) => Err(e),
    }
}

/// A constructor's answer as plain values.
pub open spec fn pipeline_view(result: Result<Pipeline, ParseError>) -> Result<PipelineView, ParseError> {
    match result {
        Ok(pipeline) => Ok(pipeline@),
        Err(e) => Err(e),
    }
}

/// The directory under which a pipeline file wants its pipeline's log
/// directory: the one it names, or else `LOGGING_DIR`.
pub open spec fn logging_root_of(config: PlumberFileConfig) -> Seq<char> {
    match config.metadata {
        Some(meta) => match meta.logging_dir {
            Some(root) => root@,
            None => LOGGING_DIR@,
        },
        None => LOGGING_DIR@,
    }
}

fn clone_strings(items: &Vec<String>) -> (copy: Vec<String>)
    ensures
        views(copy@) == views(items@),
{
    let mut copy: Vec<String> = Vec::new();
    let mut i: usize = 0;
    while i < items.len()
        invariant
            i <= items.len(),
            copy.len() == i,
            forall|j: int| 0 <= j < i ==> copy@[j]@ == items@[j]@,
        decreases items.len() - i,
    {
        copy.push(items[i].clone());
        i += 1;
    }
    assert(views(copy@) =~= views(items@));
    copy
}

impl Pipeline {
    #[verifier::type_invariant]
    spec fn inv(self) -> bool {
        self@.wf()
    }

    /// The commands of the pipeline text `raw_pipeline`, stage by stage: the
    /// text is cut at the pipes that stand outside quotations and not behind
    /// a backslash, each piece is cut into words as a shell would, and the
    /// first word of each piece is the program. A blank text is `Empty`; a
    /// piece without a command is `MissingCommand`.
    pub fn parse_raw_pipeline(raw_pipeline: &str) -> (result: Result<Vec<PipelineCommand>, ParseError>)
        ensures
            parse_view(result) == parsed(raw_pipeline@),
    {
        if is_blank(raw_pipeline) {
            return Err(ParseError::Empty);
        }
        let segments = split_stages(raw_pipeline);
        let ghost pieces = stage_segments(raw_pipeline@);
        let mut commands: Vec<PipelineCommand> = Vec::new();
        let mut i: usize = 0;
        while i < segments.len()
            invariant
                i <= segments.len(),
                !blank(raw_pipeline@),
                pieces == stage_segments(raw_pipeline@),
                views(segments@) == pieces,
                commands.len() == i,
                forall|j: int| 0 <= j < i ==> segment_command(pieces[j]) == Some(#[trigger] commands@[j]@),
            decreases segments.len() - i,
        {
            assert(pieces[i as int] == segments@[i as int]@);
            let words = shlex::split(segments[i].as_str());
            match PipelineCommand::from_words(words) {
                Ok(command) => {
                    commands.push(command);
                },
                Err(e) => {
                    assert(segment_command(pieces[i as int]) is None);
                    return Err(e);
                },
            }
            i += 1;
        }
        proof {
            assert(pieces.len() == segments.len());
            assert forall|j: int| 0 <= j < pieces.len() implies (#[trigger] segment_command(pieces[j])) is Some by {
                assert(segment_command(pieces[j]) == Some(commands@[j]@));
            }
            assert(views(commands@) =~= parsed(raw_pipeline@)->Ok_0);
        }
        Ok(commands)
    }

    /// The pipeline `name` of the text `raw_pipeline`, with no stage started
    /// and its log files in the directory `name` under `logging_root`.
    pub fn with_logging_root(name: String, raw_pipeline: String, logging_root: &str) -> (result: Result<Pipeline, ParseError>)
        ensures
            pipeline_view(result) == pipeline_of(name@, raw_pipeline@, logging_root@),
    {
        match Pipeline::parse_raw_pipeline(raw_pipeline.as_str()) {
            Ok(commands) => {
                let logging_dir = join_path(logging_root, name.as_str());
                Ok(Pipeline { name, raw_pipeline, commands, jobs: Vec::new(), logging_dir })
            },
            Err(e) => Err(e),
        }
    }

    /// The pipeline `name` of the text `raw_pipeline`, with no stage started
    /// and its log files in the directory `name` under `LOGGING_DIR`.
    pub fn new(name: String, raw_pipeline: String) -> (result: Result<Pipeline, ParseError>)
        ensures
            pipeline_view(result) == pipeline_of(name@, raw_pipeline@, LOGGING_DIR@),
    {
        Pipeline::with_logging_root(name, raw_pipeline, LOGGING_DIR)
    }

    /// The pipeline that a pipeline file describes: it has the file's name
    /// and text, and its log files are in the directory of its name under the
    /// directory that the file gives for them, or else under `LOGGING_DIR`.
    pub fn from_plumber_file(pf: PlumberFile) -> (result: Result<Pipeline, ParseError>)
        ensures
            pipeline_view(result) == pipeline_of(pf.name@, pf.config.exec_text@, logging_root_of(pf.config)),
    {
        let PlumberFile { path: _, name, config } = pf;
        let PlumberFileConfig { exec_text, run: _, metadata, extra: _ } = config;
        match metadata {
            Some(PlumberFileConfigMeta { name: _, logging_dir: Some(root), metadata_dir: _ }) => {
                Pipeline::with_logging_root(name, exec_text, root.as_str())
            },
            _ => Pipeline::with_logging_root(name, exec_text, LOGGING_DIR),
        }
    }

    /// The name the pipeline goes by.
    pub fn get_name(&self) -> (name: String)
        ensures
            name@ == self@.name,
    {
        self.name.clone()
    }

    /// The process id of the first stage, in decimal.
    pub fn get_first_pid(&self) -> (pid: String)
        requires
            self@.jobs.len() > 0,
        ensures
            pid@ == decimal(self@.jobs[0] as nat),
    {
        decimal_string(self.jobs[0] as u64)
    }

    /// The pipeline's text.
    pub fn raw_pipeline(&self) -> (raw: &str)
        ensures
            raw@ == self@.raw_pipeline,
    {
        self.raw_pipeline.as_str()
    }

    /// The directory of the pipeline's log files.
    pub fn logging_dir(&self) -> (dir: &str)
        ensures
            dir@ == self@.logging_dir,
    {
        self.logging_dir.as_str()
    }

    /// The commands, stage by stage: there is at least one, each names a
    /// program, and they are what the pipeline's text parses to.
    pub fn commands(&self) -> (commands: &Vec<PipelineCommand>)
        ensures
            views(commands@) == self@.commands,
            self@.wf(),
            commands.len() > 0,
            forall|i: int| 0 <= i < commands.len() ==> (#[trigger] commands@[i]).name@.len() > 0,
    {
        proof {
            use_type_invariant(self);
            lemma_parsed_stages(self.raw_pipeline@);
            assert forall|i: int| 0 <= i < self.commands.len() implies (#[trigger] self.commands@[i]).name@.len() > 0 by {
                assert(views(self.commands@)[i].name.len() > 0);
            }
        }
        &self.commands
    }

    /// Whether every stage has been started.
    pub fn is_fully_spawned(&self) -> (full: bool)
        ensures
            full == self@.fully_spawned(),
    {
        self.jobs.len() == self.commands.len()
    }

    /// What to start next: the stages are started from the first to the
    /// last, so this is the launch of the first stage that has no process
    /// yet, and `None` once every stage has one.
    pub fn next_spawn(&self, input: InputSource, output: OutputSink) -> (launch: Option<StageLaunch>)
        ensures
            match launch {
                Some(l) => !self@.fully_spawned() && l@ == self@.launch(self@.jobs.len() as int, input, output),
                None => self@.fully_spawned(),
            },
    {
        proof {
            use_type_invariant(self);
        }
        let stage = self.jobs.len();
        if stage >= self.commands.len() {
            return None;
        }
        let command = &self.commands[stage];
        let mut file = command.name.clone();
        file.append(".stderr.log");
        let launch = StageLaunch {
            program: command.name.clone(),
            args: clone_strings(&command.args),
            stdin: if stage == 0 {
                StageInput::Source(input)
            } else {
                StageInput::Upstream
            },
            stdout: if stage == self.commands.len() - 1 {
                StageOutput::Sink(output)
            } else {
                StageOutput::Downstream
            },
            stderr_log: join_path(self.logging_dir.as_str(), file.as_str()),
            own_process_group: true,
        };
        Some(launch)
    }

    /// Records that the stage which `next_spawn` named now runs as process
    /// `pid`. Once every stage has a process nothing is recorded.
    pub(crate) fn record_spawn(&mut self, pid: u32) -> (recorded: bool)
        ensures
            recorded == !old(self)@.fully_spawned(),
            recorded ==> final(self)@ == (PipelineView { jobs: old(self)@.jobs.push(pid), ..old(self)@ }),
            !recorded ==> final(self)@ == old(self)@,
    {
        proof {
            use_type_invariant(&*self);
        }
        if self.jobs.len() >= self.commands.len() {
            return false;
        }
        let mut jobs: Vec<u32> = Vec::new();
        std::mem::swap(&mut self.jobs, &mut jobs);
        jobs.push(pid);
        self.jobs = jobs;
        true
    }

    /// Forgets the processes on record.
    pub(crate) fn clear_jobs(&mut self)
        ensures
            final(self)@ == (PipelineView { jobs: Seq::empty(), ..old(self)@ }),
    {
        proof {
            use_type_invariant(&*self);
        }
        self.jobs = Vec::new();
    }

    /// The process ids of the stages started so far, in stage order.
    pub fn jobs(&self) -> (jobs: &Vec<u32>)
        ensures
            jobs@ == self@.jobs,
            jobs.len() <= self@.commands.len(),
    {
        proof {
            use_type_invariant(self);
        }
        &self.jobs
    }
}

} // verus!
