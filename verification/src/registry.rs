//! The registry of running pipelines. A pipeline that runs has an entry: a
//! directory of its name that holds the process id of its first stage and a
//! copy of its description. Another process finds a running pipeline by its
//! entry, asks it to stop, waits for it to be gone, or lists all that run.
//!
//! What is decided here is where an entry lies, what it holds, and what
//! follows from what was found on disk. Reading and writing are the caller's.

use crate::pipeline::{Pipeline, PipelineError};
use crate::text::{
    centered, child_path, clip, clipped, decimal, decimal_string, join_path, padded_left,
    push_centered, push_padded_left, push_repeated, repeated, views,
};
use crate::utils::IoFailure;
use vstd::prelude::*;
use vstd::string::StringExecFns;

verus! {

/// The directory of the entry of the pipeline `name` in the registry at `root`.
pub open spec fn entry_dir_of(root: Seq<char>, name: Seq<char>) -> Seq<char> {
    child_path(root, name)
}

/// The file that holds the first stage's process id.
pub open spec fn pid_file_of(root: Seq<char>, name: Seq<char>) -> Seq<char> {
    child_path(entry_dir_of(root, name), ".pid"@)
}

/// The file that holds the pipeline's description.
pub open spec fn data_file_of(root: Seq<char>, name: Seq<char>) -> Seq<char> {
    child_path(entry_dir_of(root, name), ".data"@)
}

/// The entry of one pipeline: where it lies and what its process id file holds.
#[derive(Debug, PartialEq)]
pub struct RegistryEntry {
    pub dir: String,
    pub pid_file: String,
    pub data_file: String,
    /// The contents of `pid_file`: the first stage's process id in decimal.
    pub pid_record: String,
}

/// An entry as plain text.
pub struct EntryView {
    pub dir: Seq<char>,
    pub pid_file: Seq<char>,
    pub data_file: Seq<char>,
    pub pid_record: Seq<char>,
}

impl View for RegistryEntry {
    type V = EntryView;

    open spec fn view(&self) -> EntryView {
        EntryView {
            dir: self.dir@,
            pid_file: self.pid_file@,
            data_file: self.data_file@,
            pid_record: self.pid_record@,
        }
    }
}

/// The entry of the pipeline `name` whose first stage runs as process `first_pid`.
pub open spec fn entry_of(root: Seq<char>, name: Seq<char>, first_pid: u32) -> EntryView {
    EntryView {
        dir: entry_dir_of(root, name),
        pid_file: pid_file_of(root, name),
        data_file: data_file_of(root, name),
        pid_record: decimal(first_pid as nat),
    }
}

/// The directory of the entry of the pipeline `name`.
pub fn entry_dir(root: &str, name: &str) -> (dir: String)
    ensures
        dir@ == entry_dir_of(root@, name@),
{
    join_path(root, name)
}

/// The file that holds the process id of the first stage of the pipeline `name`.
pub fn pid_file(root: &str, name: &str) -> (file: String)
    ensures
        file@ == pid_file_of(root@, name@),
{
    let dir = join_path(root, name);
    join_path(dir.as_str(), ".pid")
}

/// The file that holds the description of the pipeline `name`.
pub fn data_file(root: &str, name: &str) -> (file: String)
    ensures
        file@ == data_file_of(root@, name@),
{
    let dir = join_path(root, name);
    join_path(dir.as_str(), ".data")
}

/// What is written to make the pipeline `name` known as running: the
/// directory to make, and the two files in it.
pub fn register(root: &str, name: &str, first_pid: u32) -> (entry: RegistryEntry)
    ensures
        entry@ == entry_of(root@, name@, first_pid),
{
    RegistryEntry {
        dir: entry_dir(root, name),
        pid_file: pid_file(root, name),
        data_file: data_file(root, name),
        pid_record: decimal_string(first_pid as u64),
    }
}

/// One thing to remove from disk.
#[derive(Debug, PartialEq)]
pub enum Removal {
    File(String),
    Directory(String),
}

/// A removal as plain text.
pub enum RemovalView {
    File(Seq<char>),
    Directory(Seq<char>),
}

impl View for Removal {
    type V = RemovalView;

    open spec fn view(&self) -> RemovalView {
        match self {
            Removal::File(path) => RemovalView::File(path@),
            Removal::Directory(path) => RemovalView::Directory(path@),
        }
    }
}

/// What is removed to make the pipeline `name` unknown again, in this
/// order: the process id file, the description, then the emptied directory.
pub open spec fn removals_of(root: Seq<char>, name: Seq<char>) -> Seq<RemovalView> {
    seq![
        RemovalView::File(pid_file_of(root, name)),
        RemovalView::File(data_file_of(root, name)),
        RemovalView::Directory(entry_dir_of(root, name)),
    ]
}

/// What is removed to make the pipeline `name` unknown again, in order.
pub fn unregister(root: &str, name: &str) -> (removals: Vec<Removal>)
    ensures
        views(removals@) == removals_of(root@, name@),
{
    let mut removals: Vec<Removal> = Vec::new();
    removals.push(Removal::File(pid_file(root, name)));
    removals.push(Removal::File(data_file(root, name)));
    removals.push(Removal::Directory(entry_dir(root, name)));
    assert(views(removals@) =~= removals_of(root@, name@));
    removals
}

/// The request to end one process.
#[derive(Debug, PartialEq)]
pub struct Termination {
    /// The process id as it stands on record.
    pub pid: String,
}

/// What reading a pipeline's process id file leads to: the process on record
/// is asked to end; without a record nothing is asked of any process.
pub open spec fn stop_of(record: Result<String, IoFailure>) -> Result<Seq<char>, PipelineError> {
    match record {
        Ok(pid) => Ok(pid@),
        Err(IoFailure::NotFound) => Err(PipelineError::FileNotFound),
        Err(IoFailure::Other(_)) => Err(PipelineError::Other),
    }
}

/// What `stop` answers, as plain text.
pub open spec fn stop_view(result: Result<Termination, PipelineError>) -> Result<Seq<char>, PipelineError> {
    match result {
        Ok(termination) => Ok(termination.pid@),
        Err(e) => Err(e),
    }
}

impl Pipeline {
    /// Stops a running pipeline, given what reading its process id file
    /// gave: the first stage is asked to end, which lets the later stages
    /// work off what is under way. A pipeline without a record is not found,
    /// and no process is asked anything. The request is sent by the caller
    /// and nobody waits for the process to end.
    pub fn stop(record: Result<String, IoFailure>) -> (result: Result<Termination, PipelineError>)
        ensures
            stop_view(result) == stop_of(record),
    {
        match record {
            Ok(pid) => Ok(Termination { pid }),
            Err(failure) => Err(PipelineError::from(failure)),
        }
    }
}

/// What `stop` comes to once the request was handed to the system: a request
/// that could not be delivered is a failure of its own kind, whatever kept it
/// from being delivered, and never counts as a pipeline not found.
pub open spec fn stop_outcome_of(delivery: Result<(), IoFailure>) -> Result<(), PipelineError> {
    match delivery {
        Ok(_) => Ok(()),
        Err(_) => Err(PipelineError::Other),
    }
}

impl Pipeline {
    /// What `stop` comes to, given what became of the delivery of the request.
    pub fn stop_outcome(delivery: Result<(), IoFailure>) -> (result: Result<(), PipelineError>)
        ensures
            result == stop_outcome_of(delivery),
    {
        match delivery {
            Ok(_) => Ok(()),
            Err(_) => Err(PipelineError::Other),
        }
    }
}

/// What to do after one look at the process id files of the pipelines that
/// were asked to stop.
#[derive(Debug, Clone, Copy, PartialEq, Eq, Structural)]
pub enum AwaitStep {
    /// No file is left: all have stopped.
    Stopped,
    /// Sleep a second and look again.
    Sleep,
    /// Time is up: give up without a word.
    GiveUp,
}

/// What follows the look number `looks_before + 1`, which saw a process id
/// file or not: one looks once a second and at most `timeout` seconds long.
pub open spec fn await_step_of(looks_before: u32, timeout: u32, present: bool) -> AwaitStep {
    if !present {
        AwaitStep::Stopped
    } else if looks_before < timeout {
        AwaitStep::Sleep
    } else {
        AwaitStep::GiveUp
    }
}

/// What to do after a look at the process id files, `looks_before` looks
/// having been made before it.
pub fn await_stopped(looks_before: u32, timeout: u32, present: bool) -> (step: AwaitStep)
    ensures
        step == await_step_of(looks_before, timeout, present),
{
    if !present {
        AwaitStep::Stopped
    } else if looks_before < timeout {
        AwaitStep::Sleep
    } else {
        AwaitStep::GiveUp
    }
}

/// One running pipeline as a listing shows it: its name and the seconds
/// since its entry was last written.
#[derive(Debug, PartialEq)]
pub struct Listing {
    pub name: String,
    pub elapsed: u64,
}

/// A listing as plain values.
pub struct ListingView {
    pub name: Seq<char>,
    pub elapsed: nat,
}

impl View for Listing {
    type V = ListingView;

    open spec fn view(&self) -> ListingView {
        ListingView { name: self.name@, elapsed: self.elapsed as nat }
    }
}

/// `n` in decimal with at least two digits.
pub open spec fn two_digits(n: nat) -> Seq<char> {
    padded_left(decimal(n), '0', 2)
}

/// A number of seconds as hours, minutes and seconds, `HH:MM:SS`; the hours
/// take more digits where they need them.
pub open spec fn clock_of(elapsed: nat) -> Seq<char> {
    two_digits(elapsed / 3600) + seq![':'] + two_digits(elapsed % 3600 / 60) + seq![':']
        + two_digits(elapsed % 60)
}

/// One line of the table: three cells, each centred in its column, with a
/// bar between neighbours.
pub open spec fn row_of(name: Seq<char>, time: Seq<char>, note: Seq<char>) -> Seq<char> {
    centered(name, ' ', 25) + " | "@ + centered(time, ' ', 14) + " | "@ + centered(note, ' ', 10)
}

/// The line that names the columns.
pub open spec fn header_row() -> Seq<char> {
    row_of("name"@, "time elapsed"@, "test"@)
}

/// The line under the column names.
pub open spec fn rule_row() -> Seq<char> {
    repeated('-', 26) + seq!['|'] + repeated('-', 16) + seq!['|'] + repeated('-', 10)
}

/// The line for one running pipeline: its name, cut to the column's 25
/// characters, and the time since its entry was written.
pub open spec fn listing_row(listing: ListingView) -> Seq<char> {
    row_of(clipped(listing.name, 25), clock_of(listing.elapsed), "test"@)
}

/// The table of the running pipelines: the column names, a rule, and one
/// line for each pipeline, in the order given.
pub open spec fn table_of(listings: Seq<ListingView>) -> Seq<Seq<char>> {
    seq![header_row(), rule_row()] + listings.map_values(|l: ListingView| listing_row(l))
}

/// Every pipeline given has a line of its own, in the order given, behind
/// the two heading lines, and there is no other line. A name of up to 25
/// characters stands in its line in full, in the middle of the first
/// column; of a longer name the line shows the first 25 characters.
pub proof fn lemma_table_shows_every_listing(listings: Seq<ListingView>)
    ensures
        table_of(listings).len() == listings.len() + 2,
        forall|i: int| 0 <= i < listings.len() ==> #[trigger] table_of(listings)[i + 2] == listing_row(listings[i]),
        forall|i: int| 0 <= i < listings.len() && listings[i].name.len() <= 25 ==> ({
            let name = listings[i].name;
            let at = (25 - name.len()) / 2;
            (#[trigger] table_of(listings)[i + 2]).subrange(at, at + name.len()) == name
        }),
        forall|i: int| 0 <= i < listings.len() && listings[i].name.len() > 25 ==> (
        #[trigger] table_of(listings)[i + 2]).subrange(0, 25) == listings[i].name.take(25),
{
    assert forall|i: int| 0 <= i < listings.len() && listings[i].name.len() <= 25 implies ({
        let name = listings[i].name;
        let at = (25 - name.len()) / 2;
        (#[trigger] table_of(listings)[i + 2]).subrange(at, at + name.len()) == name
    }) by {
        let name = listings[i].name;
        let at = (25 - name.len()) / 2;
        let line = table_of(listings)[i + 2];
        assert(line == listing_row(listings[i]));
        assert(line.subrange(at, at + name.len()) =~= name);
    }
    assert forall|i: int| 0 <= i < listings.len() && listings[i].name.len() > 25 implies (
    #[trigger] table_of(listings)[i + 2]).subrange(0, 25) == listings[i].name.take(25) by {
        let line = table_of(listings)[i + 2];
        assert(line == listing_row(listings[i]));
        assert(line.subrange(0, 25) =~= listings[i].name.take(25));
    }
}

fn push_two_digits(s: &mut String, n: u64)
    ensures
        final(s)@ == old(s)@ + two_digits(n as nat),
{
    let digits = decimal_string(n);
    push_padded_left(s, digits.as_str(), '0', 2);
}

/// `elapsed` seconds as `HH:MM:SS`.
pub fn clock(elapsed: u64) -> (text: String)
    ensures
        text@ == clock_of(elapsed as nat),
{
    let mut text = String::new();
    push_two_digits(&mut text, elapsed / 3600);
    text.push(':');
    push_two_digits(&mut text, elapsed % 3600 / 60);
    text.push(':');
    push_two_digits(&mut text, elapsed % 60);
    assert(text@ =~= clock_of(elapsed as nat));
    text
}

/// One line of the table.
pub fn row(name: &str, time: &str, note: &str) -> (line: String)
    ensures
        line@ == row_of(name@, time@, note@),
{
    let mut line = String::new();
    push_centered(&mut line, name, ' ', 25);
    line.append(" | ");
    push_centered(&mut line, time, ' ', 14);
    line.append(" | ");
    push_centered(&mut line, note, ' ', 10);
    assert(line@ =~= row_of(name@, time@, note@));
    line
}

/// The table of the running pipelines, line by line: every pipeline given
/// has its line, and there is no line for any other.
pub fn list(listings: &Vec<Listing>) -> (lines: Vec<String>)
    ensures
        views(lines@) == table_of(views(listings@)),
{
    let mut lines: Vec<String> = Vec::new();
    lines.push(row("name", "time elapsed", "test"));
    let mut rule = String::new();
    push_repeated(&mut rule, '-', 26);
    rule.push('|');
    push_repeated(&mut rule, '-', 16);
    rule.push('|');
    push_repeated(&mut rule, '-', 10);
    assert(rule@ =~= rule_row());
    lines.push(rule);
    let mut i: usize = 0;
    while i < listings.len()
        invariant
            i <= listings.len(),
            lines.len() == i + 2,
            lines@[0]@ == header_row(),
            lines@[1]@ == rule_row(),
            forall|j: int| 0 <= j < i ==> (#[trigger] lines@[j + 2])@ == listing_row(listings@[j]@),
        decreases listings.len() - i,
    {
        let name = clip(listings[i].name.as_str(), 25);
        let time = clock(listings[i].elapsed);
        let line = row(name.as_str(), time.as_str(), "test");
        lines.push(line);
        i += 1;
    }
    proof {
        let table = table_of(views(listings@));
        let got = views(lines@);
        assert(got.len() == table.len());
        assert forall|k: int| 0 <= k < got.len() implies got[k] == table[k] by {
            if k >= 2 {
                assert(lines@[(k - 2) + 2]@ == listing_row(listings@[k - 2]@));
            }
        }
        assert(got =~= table);
    }
    lines
}

} // verus!
