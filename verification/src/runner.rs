//! Running an outside converter under a memory ceiling.
//!
//! A converter is another program; it may need any amount of memory or never
//! come back. So it runs as a member of a resource group of the operating
//! system that holds a memory ceiling and ends all its members when it is
//! closed. Where the group cannot be had, the converter is not started.
//!
//! This module decides the order of the steps and what becomes of each
//! failure. The host does each step and reports how it went.

use vstd::prelude::*;
use vstd::string::*;

verus! {

/// The memory that a converter may use: 2.5 GiB.
pub const MEMORY_CEILING_BYTES: u64 = 2560 * 1024 * 1024;

/// The environment variable that names the converter's input file.
pub open spec fn input_variable() -> Seq<char> {
    "STEP2OBJ_INPUT"@
}

/// The environment variable that names the converter's output file.
pub open spec fn output_variable() -> Seq<char> {
    "STEP2OBJ_OUTPUT"@
}

/// Why a conversion gave no output.
#[derive(Debug, Clone, Copy, PartialEq, Eq, Structural)]
pub enum ConversionFailure {
    /// The resource group could not be created.
    GroupUnavailable,
    /// The memory ceiling could not be set on the group.
    LimitRefused,
    /// The converter could not be started.
    SpawnFailed,
    /// The converter could not be made a member of the group. It was ended.
    NotInGroup,
    /// Waiting for the converter failed.
    WaitFailed,
    /// The converter ended with a failure.
    ConverterFailed,
    /// The converter ended well, but its output could not be read.
    OutputUnreadable,
    /// The host reported something that does not fit the step it was at.
    OutOfTurn,
}

/// The step that the runner waits for.
#[derive(Debug, Clone, Copy, PartialEq, Eq, Structural)]
pub enum Stage {
    /// Nothing was done yet.
    Start,
    /// The resource group is being created.
    Group,
    /// The ceiling is being set on the group.
    Limit,
    /// The converter is being started.
    Spawn,
    /// The converter is being made a member of the group.
    Assign,
    /// The converter runs.
    Wait,
    /// The converter's output is being read.
    Read,
    /// The run is over.
    End,
}

/// What the host reports.
#[derive(Debug, Clone, Copy, PartialEq, Eq, Structural)]
pub enum Signal {
    /// The run is to begin.
    Go,
    /// The step went well.
    Succeeded,
    /// The step failed.
    Failed,
    /// The converter has ended, with success or without.
    Exited(bool),
}

/// What the host is to do next.
#[derive(Debug, Clone, Copy, PartialEq, Eq, Structural)]
pub enum Order {
    /// Create a resource group.
    CreateGroup,
    /// Set on the group a ceiling of so many bytes for each member, and that
    /// all members end when the group is closed.
    SetLimit(u64),
    /// Start the converter, its paths in its environment.
    SpawnConverter,
    /// Make the converter a member of the group.
    AssignToGroup,
    /// Wait until the converter ends.
    WaitForExit,
    /// Read the converter's output file.
    ReadOutput,
    /// Delete the output file and hand on what was read from it.
    Deliver,
    /// End the converter, close the group, and give up with this failure.
    KillAndStop(ConversionFailure),
    /// Close the group, if there is one, and give up with this failure.
    Stop(ConversionFailure),
}

/// The stage and the order that follow a report.
pub open spec fn advance(stage: Stage, signal: Signal) -> (Stage, Order) {
    match (stage, signal) {
        (Stage::Start, Signal::Go) => (Stage::Group, Order::CreateGroup),
        (Stage::Group, Signal::Succeeded) => (Stage::Limit, Order::SetLimit(MEMORY_CEILING_BYTES)),
        (Stage::Group, Signal::Failed) => (
            Stage::End,
            Order::Stop(ConversionFailure::GroupUnavailable),
        ),
        (Stage::Limit, Signal::Succeeded) => (Stage::Spawn, Order::SpawnConverter),
        (Stage::Limit, Signal::Failed) => (Stage::End, Order::Stop(ConversionFailure::LimitRefused)),
        (Stage::Spawn, Signal::Succeeded) => (Stage::Assign, Order::AssignToGroup),
        (Stage::Spawn, Signal::Failed) => (Stage::End, Order::Stop(ConversionFailure::SpawnFailed)),
        (Stage::Assign, Signal::Succeeded) => (Stage::Wait, Order::WaitForExit),
        (Stage::Assign, Signal::Failed) => (
            Stage::End,
            Order::KillAndStop(ConversionFailure::NotInGroup),
        ),
        (Stage::Wait, Signal::Exited(true)) => (Stage::Read, Order::ReadOutput),
        (Stage::Wait, Signal::Exited(false)) => (
            Stage::End,
            Order::Stop(ConversionFailure::ConverterFailed),
        ),
        (Stage::Wait, Signal::Failed) => (Stage::End, Order::Stop(ConversionFailure::WaitFailed)),
        (Stage::Read, Signal::Succeeded) => (Stage::End, Order::Deliver),
        (Stage::Read, Signal::Failed) => (
            Stage::End,
            Order::Stop(ConversionFailure::OutputUnreadable),
        ),
        (Stage::Assign, _) | (Stage::Wait, _) => (
            Stage::End,
            Order::KillAndStop(ConversionFailure::OutOfTurn),
        ),
        _ => (Stage::End, Order::Stop(ConversionFailure::OutOfTurn)),
    }
}

/// Decides the next step of a conversion from the host's report on the last.
pub fn step(stage: Stage, signal: Signal) -> (next: (Stage, Order))
    ensures
        next == advance(stage, signal),
{
    match stage {
        Stage::Start => match signal {
            Signal::Go => (Stage::Group, Order::CreateGroup),
            _ => (Stage::End, Order::Stop(ConversionFailure::OutOfTurn)),
        },
        Stage::Group => match signal {
            Signal::Succeeded => (Stage::Limit, Order::SetLimit(MEMORY_CEILING_BYTES)),
            Signal::Failed => (Stage::End, Order::Stop(ConversionFailure::GroupUnavailable)),
            _ => (Stage::End, Order::Stop(ConversionFailure::OutOfTurn)),
        },
        Stage::Limit => match signal {
            Signal::Succeeded => (Stage::Spawn, Order::SpawnConverter),
            Signal::Failed => (Stage::End, Order::Stop(ConversionFailure::LimitRefused)),
            _ => (Stage::End, Order::Stop(ConversionFailure::OutOfTurn)),
        },
        Stage::Spawn => match signal {
            Signal::Succeeded => (Stage::Assign, Order::AssignToGroup),
            Signal::Failed => (Stage::End, Order::Stop(ConversionFailure::SpawnFailed)),
            _ => (Stage::End, Order::Stop(ConversionFailure::OutOfTurn)),
        },
        Stage::Assign => match signal {
            Signal::Succeeded => (Stage::Wait, Order::WaitForExit),
            Signal::Failed => (Stage::End, Order::KillAndStop(ConversionFailure::NotInGroup)),
            _ => (Stage::End, Order::KillAndStop(ConversionFailure::OutOfTurn)),
        },
        Stage::Wait => match signal {
            Signal::Exited(true) => (Stage::Read, Order::ReadOutput),
            Signal::Exited(false) => (Stage::End, Order::Stop(ConversionFailure::ConverterFailed)),
            Signal::Failed => (Stage::End, Order::Stop(ConversionFailure::WaitFailed)),
            _ => (Stage::End, Order::KillAndStop(ConversionFailure::OutOfTurn)),
        },
        Stage::Read => match signal {
            Signal::Succeeded => (Stage::End, Order::Deliver),
            Signal::Failed => (Stage::End, Order::Stop(ConversionFailure::OutputUnreadable)),
            _ => (Stage::End, Order::Stop(ConversionFailure::OutOfTurn)),
        },
        Stage::End => (Stage::End, Order::Stop(ConversionFailure::OutOfTurn)),
    }
}

/// The stage reached from the start by the reports `signals`: the first
/// report is the first of the sequence.
pub open spec fn stage_reached(signals: Seq<Signal>) -> Stage
    decreases signals.len(),
{
    if signals.len() == 0 {
        Stage::Start
    } else {
        advance(stage_reached(signals.drop_last()), signals.last()).0
    }
}

/// The order given on the last of the reports `signals`.
pub open spec fn last_order(signals: Seq<Signal>) -> Order
    recommends
        signals.len() > 0,
{
    advance(stage_reached(signals.drop_last()), signals.last()).1
}

/// The runner fails closed: the converter is started only after the group
/// was created and the ceiling was set on it. Whatever the host reports, an
/// order to start the converter comes third, after a report that the group
/// was created and a report that the limit was set.
pub proof fn lemma_converter_starts_only_under_limit(signals: Seq<Signal>)
    requires
        signals.len() > 0,
        last_order(signals) == Order::SpawnConverter,
    ensures
        signals.len() == 3,
        signals[0] == Signal::Go,
        signals[1] == Signal::Succeeded,
        signals[2] == Signal::Succeeded,
        last_order(signals.take(1)) == Order::CreateGroup,
        last_order(signals.take(2)) == Order::SetLimit(MEMORY_CEILING_BYTES),
{
    let s2 = signals.drop_last();
    lemma_stage_history(s2);
    assert(stage_reached(s2) == Stage::Limit);
    let s1 = s2.drop_last();
    assert(s2.len() == 2);
    assert(s1.len() == 1);
    assert(s1.drop_last() =~= Seq::<Signal>::empty());
    assert(signals.take(1) =~= s1);
    assert(signals.take(2) =~= s2);
    assert(s1.last() == signals[0]);
    assert(s2.last() == signals[1]);
    assert(stage_reached(s1.drop_last()) == Stage::Start);
}

/// What the reports must have been for each stage to be reached.
pub proof fn lemma_stage_history(signals: Seq<Signal>)
    ensures
        stage_reached(signals) == Stage::Start ==> signals.len() == 0,
        stage_reached(signals) == Stage::Group ==> signals.len() == 1 && signals[0] == Signal::Go,
        stage_reached(signals) == Stage::Limit ==> signals.len() == 2 && signals[0] == Signal::Go
            && signals[1] == Signal::Succeeded,
        stage_reached(signals) == Stage::Spawn ==> signals.len() == 3 && signals[2]
            == Signal::Succeeded,
        stage_reached(signals) == Stage::Assign ==> signals.len() == 4 && signals[3]
            == Signal::Succeeded,
        stage_reached(signals) == Stage::Wait ==> signals.len() == 5 && signals[4]
            == Signal::Succeeded,
        stage_reached(signals) == Stage::Read ==> signals.len() == 6 && signals[5]
            == Signal::Exited(true),
    decreases signals.len(),
{
    if signals.len() > 0 {
        lemma_stage_history(signals.drop_last());
        let earlier = signals.drop_last();
        assert(forall|i: int| 0 <= i < earlier.len() ==> earlier[i] == signals[i]);
    }
}

/// Output is delivered only from a converter that ran as a member of the
/// group and ended with success, and only after its output file was read:
/// the order to deliver comes on the seventh report, and all reports before
/// it were good.
pub proof fn lemma_delivery_needs_every_step(signals: Seq<Signal>)
    requires
        signals.len() > 0,
        last_order(signals) == Order::Deliver,
    ensures
        signals =~= seq![
            Signal::Go,
            Signal::Succeeded,
            Signal::Succeeded,
            Signal::Succeeded,
            Signal::Succeeded,
            Signal::Exited(true),
            Signal::Succeeded,
        ],
{
    let s6 = signals.drop_last();
    lemma_stage_history(s6);
    assert(stage_reached(s6) == Stage::Read);
    let s5 = s6.drop_last();
    lemma_stage_history(s5);
    let s4 = s5.drop_last();
    lemma_stage_history(s4);
    let s3 = s4.drop_last();
    lemma_stage_history(s3);
    let s2 = s3.drop_last();
    lemma_stage_history(s2);
    assert(stage_reached(s5) == Stage::Wait);
    assert(stage_reached(s4) == Stage::Assign);
    assert(stage_reached(s3) == Stage::Spawn);
    assert(stage_reached(s2) == Stage::Limit);
}

/// A program to start: its name, its arguments, and the variables to add to
/// its environment, each with its value.
pub struct Command {
    pub program: String,
    pub args: Vec<String>,
    pub env: Vec<(String, String)>,
}

/// The command that runs the conversion script `script` on the file at
/// `input`, with the result to be written to `output`. Both paths go into
/// the environment, not into the arguments, so that no path needs quoting.
pub fn converter_command(script: &str, input: &str, output: &str) -> (command: Command)
    ensures
        command.program@ == "cmd"@,
        command.args@.len() == 2,
        command.args@[0]@ == "/C"@,
        command.args@[1]@ == script@,
        command.env@.len() == 2,
        command.env@[0].0@ == input_variable(),
        command.env@[0].1@ == input@,
        command.env@[1].0@ == output_variable(),
        command.env@[1].1@ == output@,
{
    let mut args: Vec<String> = Vec::new();
    args.push("/C".to_owned());
    args.push(script.to_owned());
    let mut env: Vec<(String, String)> = Vec::new();
    env.push(("STEP2OBJ_INPUT".to_owned(), input.to_owned()));
    env.push(("STEP2OBJ_OUTPUT".to_owned(), output.to_owned()));
    Command { program: "cmd".to_owned(), args, env }
}

/// Calls `Uuid::new_v4` of the `uuid` crate and writes the identifier out.
/// Nothing is claimed of the result: it is random.
#[verifier::external_body]
fn fresh_run_id() -> (id: String) {
    uuid::Uuid::new_v4().to_string()
}

/// A file name of the form `prefix`, an identifier, `suffix`.
pub open spec fn is_run_file_name(name: Seq<char>, prefix: Seq<char>, suffix: Seq<char>) -> bool {
    exists|id: Seq<char>| name == prefix + id + suffix
}

/// A name for a temporary file of one run: `prefix`, then an identifier
/// that no other run has, then `suffix`.
pub fn run_file_name(prefix: &str, suffix: &str) -> (name: String)
    ensures
        is_run_file_name(name@, prefix@, suffix@),
{
    let id = fresh_run_id();
    prefix.to_owned().concat(id.as_str()).concat(suffix)
}

/// A name for the file into which the converter writes the mesh.
pub fn converter_output_name() -> (name: String)
    ensures
        is_run_file_name(name@, "space_thumbnails_"@, ".obj"@),
{
    run_file_name("space_thumbnails_", ".obj")
}

} // verus!
