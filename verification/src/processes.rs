//! The processes of the host: filtering and ordering a listing, and ending
//! a process: the command to run and what its outcome tells.

use vstd::prelude::*;
use crate::diagnostics::{command_line, CommandLine, CommandLineView, CommandOutcome, Dialect};
use crate::numbers::{decimal_text, parse_unsigned, push_decimal, read_unsigned, Milli};
use crate::text::{
    append_str,
    chars_of,
    clone_text,
    find,
    find_from,
    same_text,
    string_of,
    views,
};

verus! {

/// The arguments that end the process `pid`: `taskkill` takes `/PID` and
/// the id, after `/F` where force is asked; `kill` takes the id, after `-9`
/// where force is asked.
pub open spec fn terminate_arguments(pid: u32, force: bool, dialect: Dialect) -> Seq<Seq<char>> {
    let id = decimal_text(pid as nat);
    match dialect {
        Dialect::Windows => if force {
            seq!["/F"@, "/PID"@, id]
        } else {
            seq!["/PID"@, id]
        },
        Dialect::Posix => if force {
            seq!["-9"@, id]
        } else {
            seq![id]
        },
    }
}

/// The command that ends the process whose id `pid` writes: `taskkill`
/// under the Windows dialect, `kill` under the POSIX dialect. Text that is
/// no process id is refused.
pub open spec fn terminate_plan(pid: Seq<char>, force: bool, dialect: Dialect) -> Result<
    CommandLineView,
    Seq<char>,
> {
    match parse_unsigned(pid, u32::MAX as u64) {
        Some(n) => Ok(
            CommandLineView {
                program: match dialect {
                    Dialect::Windows => "taskkill"@,
                    Dialect::Posix => "kill"@,
                },
                arguments: terminate_arguments(n as u32, force, dialect),
            },
        ),
        None => Err("Invalid PID format"@),
    }
}

/// The command line that ends the process whose id `pid` writes.
pub fn terminate_command(pid: &str, force: bool, dialect: Dialect) -> (r: Result<
    CommandLine,
    String,
>)
    ensures
        match terminate_plan(pid@, force, dialect) {
            Ok(view) => r matches Ok(line) && line@ == view,
            Err(text) => r matches Err(message) && message@ == text,
        },
{
    let number = match read_unsigned(&chars_of(pid), u32::MAX as u64) {
        Some(n) => n,
        None => {
            return Err("Invalid PID format".to_owned());
        },
    };
    let mut id: Vec<char> = Vec::new();
    push_decimal(&mut id, number);
    assert(id@ =~= decimal_text(number as nat));
    let mut arguments: Vec<Vec<char>> = Vec::new();
    match dialect {
        Dialect::Windows => {
            if force {
                arguments.push(chars_of("/F"));
            }
            arguments.push(chars_of("/PID"));
            arguments.push(id);
            assert(views(arguments@) =~= terminate_arguments(number as u32, force, dialect));
            Ok(command_line("taskkill", &arguments))
        },
        Dialect::Posix => {
            if force {
                arguments.push(chars_of("-9"));
            }
            arguments.push(id);
            assert(views(arguments@) =~= terminate_arguments(number as u32, force, dialect));
            Ok(command_line("kill", &arguments))
        },
    }
}

/// What the run of the ending command tells of the process named `pid`.
pub open spec fn termination_report(pid: Seq<char>, outcome: CommandOutcome) -> Result<
    Seq<char>,
    Seq<char>,
> {
    match outcome {
        CommandOutcome::Finished { success, stdout, stderr } => if success {
            Ok("Process "@ + pid + " terminated successfully"@)
        } else {
            Err(
                "Failed to terminate process "@ + pid + ": stdout="@ + stdout@ + ", stderr="@
                    + stderr@,
            )
        },
        CommandOutcome::NotStarted { reason } => Err(
            "Failed to execute terminate command: "@ + reason@,
        ),
    }
}

/// Tells the outcome of the ending command for the process named `pid`.
pub fn terminate_process(pid: &str, outcome: &CommandOutcome) -> (r: Result<String, String>)
    ensures
        match termination_report(pid@, *outcome) {
            Ok(text) => r matches Ok(found) && found@ == text,
            Err(text) => r matches Err(message) && message@ == text,
        },
{
    match outcome {
        CommandOutcome::Finished { success, stdout, stderr } => {
            if *success {
                let mut out = chars_of("Process ");
                append_str(&mut out, pid);
                append_str(&mut out, " terminated successfully");
                Ok(string_of(&out))
            } else {
                let mut out = chars_of("Failed to terminate process ");
                append_str(&mut out, pid);
                append_str(&mut out, ": stdout=");
                append_str(&mut out, stdout.as_str());
                append_str(&mut out, ", stderr=");
                append_str(&mut out, stderr.as_str());
                assert(out@ =~= "Failed to terminate process "@ + pid@ + ": stdout="@ + stdout@
                    + ", stderr="@ + stderr@);
                Err(string_of(&out))
            }
        },
        CommandOutcome::NotStarted { reason } => {
            let mut out = chars_of("Failed to execute terminate command: ");
            append_str(&mut out, reason.as_str());
            Err(string_of(&out))
        },
    }
}

/// One process of the host.
#[derive(Debug)]
pub struct ProcessDetails {
    pub pid: String,
    pub name: String,
    pub path: Option<String>,
    pub command_line: String,
    pub exe: Option<String>,
    pub cpu_usage_percent: Milli,
    pub memory_usage_bytes: u64,
    pub thread_count: u32,
    pub priority: i32,
    pub status: String,
    pub start_time: Option<String>,
    pub user: Option<String>,
    pub parent_pid: Option<String>,
    pub working_directory: Option<String>,
}

impl Clone for ProcessDetails {
    fn clone(&self) -> (r: Self)
        ensures
            r == *self,
    {
        ProcessDetails {
            pid: self.pid.clone(),
            name: self.name.clone(),
            path: clone_text(&self.path),
            command_line: self.command_line.clone(),
            exe: clone_text(&self.exe),
            cpu_usage_percent: self.cpu_usage_percent,
            memory_usage_bytes: self.memory_usage_bytes,
            thread_count: self.thread_count,
            priority: self.priority,
            status: self.status.clone(),
            start_time: clone_text(&self.start_time),
            user: clone_text(&self.user),
            parent_pid: clone_text(&self.parent_pid),
            working_directory: clone_text(&self.working_directory),
        }
    }
}

/// Which processes a listing holds and in what order.
#[derive(Debug)]
pub struct ProcessSortOptions {
    /// One of `name`, `cpu`, `memory` and `pid`; any other word orders by
    /// falling share of the processor.
    pub sort_by: String,
    /// `desc` for falling order; any other word for rising order.
    pub sort_order: String,
    pub filter_name: Option<String>,
    pub filter_user: Option<String>,
    pub min_cpu_usage: Option<Milli>,
    pub max_memory_usage: Option<u64>,
}

/// The lower-case form of a text, as `str::to_lowercase` gives it.
pub uninterp spec fn lowercase(text: Seq<char>) -> Seq<char>;

/// `str::to_lowercase`: the lower-case form of `text`, which is a function
/// of the text alone.
#[verifier::external_body]
fn to_lower(text: &str) -> (r: String)
    ensures
        r@ == lowercase(text@),
{
    text.to_lowercase()
}

/// Whether `needle` stands somewhere in `hay`.
pub open spec fn holds_text(hay: Seq<char>, needle: Seq<char>) -> bool {
    find_from(hay, needle, 0) is Some
}

fn text_holds(hay: &str, needle: &str) -> (r: bool)
    ensures
        r == holds_text(hay@, needle@),
{
    find(&chars_of(hay), &chars_of(needle), 0).is_some()
}

/// Whether a process passes the filters of a listing: its name holds the
/// name filter, letter case set aside; its user is known and holds the user
/// filter; its share of the processor is at least the least asked, and its
/// memory at most the most asked. A filter that is not set lets every
/// process pass.
pub open spec fn passes(p: ProcessDetails, options: ProcessSortOptions) -> bool {
    &&& options.filter_name matches Some(filter) ==> holds_text(
        lowercase(p.name@),
        lowercase(filter@),
    )
    &&& options.filter_user matches Some(filter) ==> (p.user matches Some(user) && holds_text(
        user@,
        filter@,
    ))
    &&& options.min_cpu_usage matches Some(least) ==> p.cpu_usage_percent.0 >= least.0
    &&& options.max_memory_usage matches Some(most) ==> p.memory_usage_bytes <= most
}

fn process_passes(p: &ProcessDetails, options: &ProcessSortOptions) -> (r: bool)
    ensures
        r == passes(*p, *options),
{
    if let Some(filter) = &options.filter_name {
        let name = to_lower(p.name.as_str());
        let wanted = to_lower(filter.as_str());
        if !text_holds(name.as_str(), wanted.as_str()) {
            return false;
        }
    }
    if let Some(filter) = &options.filter_user {
        match &p.user {
            Some(user) => {
                if !text_holds(user.as_str(), filter.as_str()) {
                    return false;
                }
            },
            None => {
                return false;
            },
        }
    }
    if let Some(least) = options.min_cpu_usage {
        if p.cpu_usage_percent.0 < least.0 {
            return false;
        }
    }
    if let Some(most) = options.max_memory_usage {
        if p.memory_usage_bytes > most {
            return false;
        }
    }
    true
}

/// Whether `a` does not come after `b` in the order of texts: character by
/// character, a text before every text that it begins.
pub open spec fn text_not_after(a: Seq<char>, b: Seq<char>) -> bool
    decreases a.len(),
{
    if a.len() == 0 {
        true
    } else if b.len() == 0 {
        false
    } else if a[0] != b[0] {
        a[0] < b[0]
    } else {
        text_not_after(a.drop_first(), b.drop_first())
    }
}

fn is_text_not_after(a: &str, b: &str) -> (r: bool)
    ensures
        r == text_not_after(a@, b@),
{
    let x = chars_of(a);
    let y = chars_of(b);
    let mut i: usize = 0;
    assert(x@.skip(0) =~= x@);
    assert(y@.skip(0) =~= y@);
    while i < x.len() && i < y.len()
        invariant
            i <= x.len(),
            i <= y.len(),
            x@ == a@,
            y@ == b@,
            text_not_after(x@, y@) == text_not_after(x@.skip(i as int), y@.skip(i as int)),
        decreases x.len() - i,
    {
        let c: char = x[i];
        let d: char = y[i];
        assert(x@.skip(i as int)[0] == c);
        assert(y@.skip(i as int)[0] == d);
        if c != d {
            return c < d;
        }
        assert(x@.skip(i as int).drop_first() =~= x@.skip(i + 1));
        assert(y@.skip(i as int).drop_first() =~= y@.skip(i + 1));
        i += 1;
    }
    i == x.len()
}

/// By what a listing is ordered.
#[derive(Clone, Copy, Debug, PartialEq, Eq, Structural)]
pub enum ProcessOrder {
    Name { falling: bool },
    Cpu { falling: bool },
    Memory { falling: bool },
    Pid { falling: bool },
}

/// The order that the options of a listing ask for.
pub open spec fn order_of(options: ProcessSortOptions) -> ProcessOrder {
    let falling = options.sort_order@ == "desc"@;
    if options.sort_by@ == "name"@ {
        ProcessOrder::Name { falling }
    } else if options.sort_by@ == "cpu"@ {
        ProcessOrder::Cpu { falling }
    } else if options.sort_by@ == "memory"@ {
        ProcessOrder::Memory { falling }
    } else if options.sort_by@ == "pid"@ {
        ProcessOrder::Pid { falling }
    } else {
        ProcessOrder::Cpu { falling: true }
    }
}

fn read_order(options: &ProcessSortOptions) -> (r: ProcessOrder)
    ensures
        r == order_of(*options),
{
    let falling = same_text(&chars_of(options.sort_order.as_str()), "desc");
    let by = chars_of(options.sort_by.as_str());
    if same_text(&by, "name") {
        ProcessOrder::Name { falling }
    } else if same_text(&by, "cpu") {
        ProcessOrder::Cpu { falling }
    } else if same_text(&by, "memory") {
        ProcessOrder::Memory { falling }
    } else if same_text(&by, "pid") {
        ProcessOrder::Pid { falling }
    } else {
        ProcessOrder::Cpu { falling: true }
    }
}

/// Whether `a` may stand before `b` under `order`: its key is not after the
/// key of `b`, or not before it where the order is falling. Process ids are
/// compared as texts.
pub open spec fn may_precede(a: ProcessDetails, b: ProcessDetails, order: ProcessOrder) -> bool {
    match order {
        ProcessOrder::Name { falling } => if falling {
            text_not_after(b.name@, a.name@)
        } else {
            text_not_after(a.name@, b.name@)
        },
        ProcessOrder::Cpu { falling } => if falling {
            b.cpu_usage_percent.0 <= a.cpu_usage_percent.0
        } else {
            a.cpu_usage_percent.0 <= b.cpu_usage_percent.0
        },
        ProcessOrder::Memory { falling } => if falling {
            b.memory_usage_bytes <= a.memory_usage_bytes
        } else {
            a.memory_usage_bytes <= b.memory_usage_bytes
        },
        ProcessOrder::Pid { falling } => if falling {
            text_not_after(b.pid@, a.pid@)
        } else {
            text_not_after(a.pid@, b.pid@)
        },
    }
}

fn precedes(a: &ProcessDetails, b: &ProcessDetails, order: ProcessOrder) -> (r: bool)
    ensures
        r == may_precede(*a, *b, order),
{
    match order {
        ProcessOrder::Name { falling } => if falling {
            is_text_not_after(b.name.as_str(), a.name.as_str())
        } else {
            is_text_not_after(a.name.as_str(), b.name.as_str())
        },
        ProcessOrder::Cpu { falling } => if falling {
            b.cpu_usage_percent.0 <= a.cpu_usage_percent.0
        } else {
            a.cpu_usage_percent.0 <= b.cpu_usage_percent.0
        },
        ProcessOrder::Memory { falling } => if falling {
            b.memory_usage_bytes <= a.memory_usage_bytes
        } else {
            a.memory_usage_bytes <= b.memory_usage_bytes
        },
        ProcessOrder::Pid { falling } => if falling {
            is_text_not_after(b.pid.as_str(), a.pid.as_str())
        } else {
            is_text_not_after(a.pid.as_str(), b.pid.as_str())
        },
    }
}

/// How many processes at the head of `list` may stand before `p`.
pub open spec fn leading_before(list: Seq<ProcessDetails>, p: ProcessDetails, order: ProcessOrder) -> nat
    decreases list.len(),
{
    if list.len() > 0 && may_precede(list[0], p, order) {
        1 + leading_before(list.drop_first(), p, order)
    } else {
        0
    }
}

/// The processes of `list` in the order `order`; processes that the order
/// does not tell apart keep the order they had.
pub open spec fn ordered_by(list: Seq<ProcessDetails>, order: ProcessOrder) -> Seq<ProcessDetails>
    decreases list.len(),
{
    if list.len() == 0 {
        list
    } else {
        let head = ordered_by(list.drop_last(), order);
        head.insert(leading_before(head, list.last(), order) as int, list.last())
    }
}

/// The listing that the options ask for: the processes that pass the
/// filters, in the order asked; all of them as they come where no options
/// are given.
pub open spec fn listing(processes: Seq<ProcessDetails>, options: Option<ProcessSortOptions>) -> Seq<
    ProcessDetails,
> {
    match options {
        Some(o) => ordered_by(processes.filter(|p: ProcessDetails| passes(p, o)), order_of(o)),
        None => processes,
    }
}

/// Of two texts one is not after the other.
pub proof fn lemma_text_order_total(a: Seq<char>, b: Seq<char>)
    ensures
        text_not_after(a, b) || text_not_after(b, a),
    decreases a.len(),
{
    if a.len() > 0 && b.len() > 0 && a[0] == b[0] {
        lemma_text_order_total(a.drop_first(), b.drop_first());
    }
}

/// A text not after a second that is not after a third is not after the
/// third.
pub proof fn lemma_text_order_transitive(a: Seq<char>, b: Seq<char>, c: Seq<char>)
    requires
        text_not_after(a, b),
        text_not_after(b, c),
    ensures
        text_not_after(a, c),
    decreases a.len(),
{
    if a.len() > 0 && b.len() > 0 && c.len() > 0 && a[0] == b[0] && b[0] == c[0] {
        lemma_text_order_transitive(a.drop_first(), b.drop_first(), c.drop_first());
    }
}

/// Of two processes one may stand before the other.
pub proof fn lemma_order_total(a: ProcessDetails, b: ProcessDetails, order: ProcessOrder)
    ensures
        may_precede(a, b, order) || may_precede(b, a, order),
{
    lemma_text_order_total(a.name@, b.name@);
    lemma_text_order_total(a.pid@, b.pid@);
}

/// A process that may stand before a second that may stand before a third
/// may stand before the third.
pub proof fn lemma_order_transitive(
    a: ProcessDetails,
    b: ProcessDetails,
    c: ProcessDetails,
    order: ProcessOrder,
)
    requires
        may_precede(a, b, order),
        may_precede(b, c, order),
    ensures
        may_precede(a, c, order),
{
    match order {
        ProcessOrder::Name { falling } => {
            if falling {
                lemma_text_order_transitive(c.name@, b.name@, a.name@);
            } else {
                lemma_text_order_transitive(a.name@, b.name@, c.name@);
            }
        },
        ProcessOrder::Pid { falling } => {
            if falling {
                lemma_text_order_transitive(c.pid@, b.pid@, a.pid@);
            } else {
                lemma_text_order_transitive(a.pid@, b.pid@, c.pid@);
            }
        },
        _ => {},
    }
}

/// Where the leading processes that may precede `p` end.
proof fn lemma_leading_before_ends(list: Seq<ProcessDetails>, p: ProcessDetails, order: ProcessOrder)
    ensures
        leading_before(list, p, order) <= list.len(),
        forall|i: int|
            0 <= i < leading_before(list, p, order) ==> may_precede(#[trigger] list[i], p, order),
        leading_before(list, p, order) < list.len() ==> !may_precede(
            list[leading_before(list, p, order) as int],
            p,
            order,
        ),
    decreases list.len(),
{
    if list.len() > 0 && may_precede(list[0], p, order) {
        let rest = list.drop_first();
        lemma_leading_before_ends(rest, p, order);
        assert forall|i: int| 0 <= i < leading_before(list, p, order) implies may_precede(
            #[trigger] list[i],
            p,
            order,
        ) by {
            if i > 0 {
                assert(list[i] == rest[i - 1]);
            }
        }
        if leading_before(list, p, order) < list.len() {
            assert(list[leading_before(list, p, order) as int] == rest[leading_before(
                rest,
                p,
                order,
            ) as int]);
        }
    }
}

/// An ordered listing holds the processes of the list it was made from,
/// each as often as the list holds it, and each process in it may stand
/// before every process that follows it.
pub proof fn lemma_ordered_by(list: Seq<ProcessDetails>, order: ProcessOrder)
    ensures
        ordered_by(list, order).len() == list.len(),
        ordered_by(list, order).to_multiset() == list.to_multiset(),
        forall|i: int, j: int|
            0 <= i < j < list.len() ==> may_precede(
                #[trigger] ordered_by(list, order)[i],
                #[trigger] ordered_by(list, order)[j],
                order,
            ),
    decreases list.len(),
{
    broadcast use vstd::seq_lib::group_to_multiset_ensures;

    if list.len() > 0 {
        let last = list.last();
        let head = ordered_by(list.drop_last(), order);
        let k = leading_before(head, last, order) as int;
        let all = ordered_by(list, order);
        lemma_ordered_by(list.drop_last(), order);
        lemma_leading_before_ends(head, last, order);
        head.insert_ensures(k, last);
        assert(list =~= list.drop_last().push(last));
        assert(all.to_multiset() =~= list.to_multiset());
        assert forall|i: int, j: int| 0 <= i < j < list.len() implies may_precede(
            #[trigger] all[i],
            #[trigger] all[j],
            order,
        ) by {
            if j < k {
            } else if j == k {
            } else if i == k {
                assert(all[(j - 1) + 1] == head[j - 1]);
                lemma_order_total(head[k], last, order);
                if k < j - 1 {
                    lemma_order_transitive(last, head[k], head[j - 1], order);
                }
            } else if i < k {
                assert(all[(j - 1) + 1] == head[j - 1]);
            } else {
                assert(all[(j - 1) + 1] == head[j - 1]);
                assert(all[(i - 1) + 1] == head[i - 1]);
            }
        }
    }
}

/// Filters and orders a list of processes as the options ask.
pub fn get_processes_enhanced(
    processes: &Vec<ProcessDetails>,
    sort_options: &Option<ProcessSortOptions>,
) -> (r: Vec<ProcessDetails>)
    ensures
        r@ == listing(processes@, *sort_options),
{
    let mut listed: Vec<ProcessDetails> = Vec::new();
    match sort_options {
        None => {
            let mut i: usize = 0;
            while i < processes.len()
                invariant
                    i <= processes.len(),
                    listed@ == processes@.take(i as int),
                decreases processes.len() - i,
            {
                listed.push(processes[i].clone());
                assert(listed@ =~= processes@.take(i + 1));
                i += 1;
            }
            assert(processes@.take(i as int) =~= processes@);
            listed
        },
        Some(options) => {
            let order = read_order(options);
            let ghost keep = |p: ProcessDetails| passes(p, *options);
            let mut i: usize = 0;
            proof {
                processes@.take(0).lemma_filter_len(keep);
                assert(processes@.take(0).filter(keep) =~= Seq::<ProcessDetails>::empty());
            }
            while i < processes.len()
                invariant
                    i <= processes.len(),
                    order == order_of(*options),
                    keep == |p: ProcessDetails| passes(p, *options),
                    listed@ == ordered_by(processes@.take(i as int).filter(keep), order),
                decreases processes.len() - i,
            {
                proof {
                    assert(processes@.take(i + 1).drop_last() =~= processes@.take(i as int));
                    crate::database::lemma_filter_last(processes@.take(i + 1), keep);
                    assert(processes@.take(i + 1).last() == processes@[i as int]);
                }
                if process_passes(&processes[i], options) {
                    let p = processes[i].clone();
                    let ghost head = listed@;
                    let mut k: usize = 0;
                    assert(head.skip(0) =~= head);
                    while k < listed.len() && precedes(&listed[k], &p, order)
                        invariant
                            k <= listed.len(),
                            listed@ == head,
                            leading_before(head, p, order) == k + leading_before(
                                head.skip(k as int),
                                p,
                                order,
                            ),
                        decreases listed.len() - k,
                    {
                        assert(head.skip(k as int).drop_first() =~= head.skip(k + 1));
                        k += 1;
                    }
                    proof {
                        let kept = processes@.take(i as int).filter(keep);
                        assert(kept.push(p).drop_last() =~= kept);
                    }
                    listed.insert(k, p);
                }
                i += 1;
            }
            assert(processes@.take(i as int) =~= processes@);
            listed
        },
    }
}

/// The process id that a text writes, or the message that it writes none.
pub fn parse_pid(pid: &str) -> (r: Result<u32, String>)
    ensures
        match parse_unsigned(pid@, u32::MAX as u64) {
            Some(n) => r matches Ok(id) && id == n,
            None => r matches Err(message) && message@ == "Invalid PID format"@,
        },
{
    match read_unsigned(&chars_of(pid), u32::MAX as u64) {
        Some(n) => Ok(n as u32),
        None => Err("Invalid PID format".to_owned()),
    }
}

/// The details of the process `pid` where the host has such a process, and
/// the message that it has none otherwise.
pub fn get_process_details(pid: u32, found: Option<ProcessDetails>) -> (r: Result<
    ProcessDetails,
    String,
>)
    ensures
        match found {
            Some(details) => r matches Ok(told) && told == details,
            None => r matches Err(message) && message@ == "Process with PID "@ + decimal_text(
                pid as nat,
            ) + " not found"@,
        },
{
    match found {
        Some(details) => Ok(details),
        None => {
            let mut out = chars_of("Process with PID ");
            push_decimal(&mut out, pid as u64);
            append_str(&mut out, " not found");
            Err(string_of(&out))
        },
    }
}

} // verus!
