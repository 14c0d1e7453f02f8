//! Records that the diagnostic parsers produce, and the two output dialects
//! they read.

use vstd::prelude::*;
use crate::numbers::Milli;
use crate::text::{
    append,
    chars_of,
    optional_text,
    byte_prefix,
    head_within,
    string_of,
    texts,
    views,
};

verus! {

/// The output convention of the platform whose diagnostic commands ran.
#[derive(Clone, Copy, Debug, PartialEq, Eq, Structural)]
pub enum Dialect {
    Windows,
    Posix,
}

/// One intermediate node reported by a route trace.
#[derive(Debug)]
pub struct NetworkHop {
    pub hop_number: u32,
    pub address: String,
    pub hostname: Option<String>,
    pub latency_ms: Option<Milli>,
    pub packet_loss_percent: Option<Milli>,
}

/// The outcome of one network diagnostic.
#[derive(Debug)]
pub struct NetworkDiagnosticsResult {
    pub success: bool,
    pub message: String,
    pub latency_ms: Option<Milli>,
    pub packet_loss_percent: Option<Milli>,
    pub hops: Option<Vec<NetworkHop>>,
}

/// A hop, its texts as characters.
pub struct HopView {
    pub hop_number: u32,
    pub address: Seq<char>,
    pub hostname: Option<Seq<char>>,
    pub latency_ms: Option<Milli>,
    pub packet_loss_percent: Option<Milli>,
}

/// The outcome of a diagnostic, its texts as characters.
pub struct DiagnosticsView {
    pub success: bool,
    pub message: Seq<char>,
    pub latency_ms: Option<Milli>,
    pub packet_loss_percent: Option<Milli>,
    pub hops: Option<Seq<HopView>>,
}

/// The views of a list of hops.
pub open spec fn hop_views(hops: Seq<NetworkHop>) -> Seq<HopView> {
    hops.map_values(|h: NetworkHop| h@)
}

impl View for NetworkHop {
    type V = HopView;

    open spec fn view(&self) -> HopView {
        HopView {
            hop_number: self.hop_number,
            address: self.address@,
            hostname: optional_text(self.hostname),
            latency_ms: self.latency_ms,
            packet_loss_percent: self.packet_loss_percent,
        }
    }
}

impl View for NetworkDiagnosticsResult {
    type V = DiagnosticsView;

    open spec fn view(&self) -> DiagnosticsView {
        DiagnosticsView {
            success: self.success,
            message: self.message@,
            latency_ms: self.latency_ms,
            packet_loss_percent: self.packet_loss_percent,
            hops: match self.hops {
                Some(h) => Some(hop_views(h@)),
                None => None,
            },
        }
    }
}

impl Clone for NetworkHop {
    fn clone(&self) -> (r: Self)
        ensures
            r == *self,
    {
        NetworkHop {
            hop_number: self.hop_number,
            address: self.address.clone(),
            hostname: match &self.hostname {
                Some(name) => Some(name.clone()),
                None => None,
            },
            latency_ms: self.latency_ms,
            packet_loss_percent: self.packet_loss_percent,
        }
    }
}

/// A copy of a list of hops.
pub fn clone_hops(hops: &Vec<NetworkHop>) -> (r: Vec<NetworkHop>)
    ensures
        r@ == hops@,
{
    let mut r: Vec<NetworkHop> = Vec::new();
    let mut i: usize = 0;
    while i < hops.len()
        invariant
            i <= hops.len(),
            r@ == hops@.take(i as int),
        decreases hops.len() - i,
    {
        r.push(hops[i].clone());
        assert(r@ =~= hops@.take(i + 1));
        i += 1;
    }
    assert(hops@.take(i as int) =~= hops@);
    r
}

impl Clone for NetworkDiagnosticsResult {
    fn clone(&self) -> (r: Self)
        ensures
            r@ == self@,
    {
        NetworkDiagnosticsResult {
            success: self.success,
            message: self.message.clone(),
            latency_ms: self.latency_ms,
            packet_loss_percent: self.packet_loss_percent,
            hops: match &self.hops {
                Some(hops) => Some(clone_hops(hops)),
                None => None,
            },
        }
    }
}

/// How many bytes of unreadable output a failure message quotes at most.
pub const EXCERPT_BYTES: usize = 100;

/// A failure message: `label`, then the longest head of the output that
/// could not be read that takes at most `EXCERPT_BYTES` bytes.
pub open spec fn failure_text(label: Seq<char>, output: Seq<char>) -> Seq<char> {
    label + byte_prefix(output, EXCERPT_BYTES as nat)
}

/// The failure message for output that could not be read.
pub fn failure_message(label: &str, output: &Vec<char>) -> (r: String)
    ensures
        r@ == failure_text(label@, output@),
{
    let mut out = chars_of(label);
    let (head, _) = head_within(output, EXCERPT_BYTES);
    append(&mut out, &head);
    string_of(&out)
}

/// How the run of a diagnostic command ended.
#[derive(Debug)]
pub enum CommandOutcome {
    /// The command ran to its end.
    Finished { success: bool, stdout: String, stderr: String },
    /// The command could not be started; `reason` says why.
    NotStarted { reason: String },
}

/// A program and the arguments to start it with.
#[derive(Debug)]
pub struct CommandLine {
    pub program: String,
    pub arguments: Vec<String>,
}

/// A command line, its texts as characters.
pub struct CommandLineView {
    pub program: Seq<char>,
    pub arguments: Seq<Seq<char>>,
}

impl View for CommandLine {
    type V = CommandLineView;

    open spec fn view(&self) -> CommandLineView {
        CommandLineView {
            program: self.program@,
            arguments: texts(self.arguments@),
        }
    }
}

/// The command line made of a program and a list of arguments.
pub fn command_line(program: &str, arguments: &Vec<Vec<char>>) -> (r: CommandLine)
    ensures
        r@ == (CommandLineView { program: program@, arguments: views(arguments@) }),
{
    let mut list: Vec<String> = Vec::new();
    let mut i: usize = 0;
    while i < arguments.len()
        invariant
            i <= arguments.len(),
            list.len() == i,
            forall|j: int| 0 <= j < i ==> (#[trigger] list@[j])@ == arguments@[j]@,
        decreases arguments.len() - i,
    {
        list.push(string_of(&arguments[i]));
        i += 1;
    }
    let r = CommandLine { program: program.to_owned(), arguments: list };
    assert(r@.arguments =~= views(arguments@));
    r
}

/// The record of a diagnostic that did not succeed: `label`, then `detail`.
pub open spec fn failure_view(label: Seq<char>, detail: Seq<char>) -> DiagnosticsView {
    DiagnosticsView {
        success: false,
        message: label + detail,
        latency_ms: None,
        packet_loss_percent: None,
        hops: None,
    }
}

/// The record of a diagnostic that did not succeed.
pub fn failure_record(label: &str, detail: &String) -> (r: NetworkDiagnosticsResult)
    ensures
        r@ == failure_view(label@, detail@),
{
    let mut out = chars_of(label);
    let tail = chars_of(detail.as_str());
    append(&mut out, &tail);
    NetworkDiagnosticsResult {
        success: false,
        message: string_of(&out),
        latency_ms: None,
        packet_loss_percent: None,
        hops: None,
    }
}

} // verus!
