//! The graphics adapters of the host: readers of what `nvidia-smi` and
//! `wmic` print, and the order in which the two are asked.

use vstd::prelude::*;
use crate::diagnostics::{command_line, CommandLine, CommandLineView, CommandOutcome, Dialect};
use crate::numbers::{
    or_zero,
    parse_thousandths,
    parse_unsigned,
    read_thousandths,
    read_unsigned,
    Milli,
};
use crate::text::{
    chars_of,
    join,
    joined,
    lines_of,
    split_at_char,
    split_lines,
    split_on,
    split_words,
    string_of,
    trim,
    trimmed,
    views,
    words,
};

verus! {

/// One graphics adapter of the host. Memory is counted in bytes.
#[derive(Debug)]
pub struct GpuInfo {
    pub name: String,
    pub vendor: String,
    pub vram_total: u64,
    pub vram_used: u64,
    pub vram_free: u64,
    pub usage_percent: Milli,
    pub temperature: Option<Milli>,
}

/// A graphics adapter, its texts as characters.
pub struct GpuView {
    pub name: Seq<char>,
    pub vendor: Seq<char>,
    pub vram_total: u64,
    pub vram_used: u64,
    pub vram_free: u64,
    pub usage_percent: Milli,
    pub temperature: Option<Milli>,
}

impl View for GpuInfo {
    type V = GpuView;

    open spec fn view(&self) -> GpuView {
        GpuView {
            name: self.name@,
            vendor: self.vendor@,
            vram_total: self.vram_total,
            vram_used: self.vram_used,
            vram_free: self.vram_free,
            usage_percent: self.usage_percent,
            temperature: self.temperature,
        }
    }
}

impl Clone for GpuInfo {
    fn clone(&self) -> (r: Self)
        ensures
            r == *self,
    {
        GpuInfo {
            name: self.name.clone(),
            vendor: self.vendor.clone(),
            vram_total: self.vram_total,
            vram_used: self.vram_used,
            vram_free: self.vram_free,
            usage_percent: self.usage_percent,
            temperature: self.temperature,
        }
    }
}

/// The views of a list of adapters.
pub open spec fn gpu_views(gpus: Seq<GpuInfo>) -> Seq<GpuView> {
    gpus.map_values(|g: GpuInfo| g@)
}

/// The view of an optional command line.
pub open spec fn line_view(o: Option<CommandLine>) -> Option<CommandLineView> {
    match o {
        Some(line) => Some(line@),
        None => None,
    }
}

/// The `nvidia-smi` query for name, memory, usage and temperature.
pub open spec fn nvidia_query() -> CommandLineView {
    CommandLineView {
        program: "nvidia-smi"@,
        arguments: seq![
            "--query-gpu=name,memory.total,memory.used,memory.free,utilization.gpu,temperature.gpu"@,
            "--format=csv,noheader,nounits"@,
        ],
    }
}

/// The view of an optional adapter.
pub open spec fn gpu_view(o: Option<GpuInfo>) -> Option<GpuView> {
    match o {
        Some(g) => Some(g@),
        None => None,
    }
}

/// The bytes of a mebibyte.
pub const MEBIBYTE: u64 = 1_048_576;

/// The number that a text writes; zero for a text that writes none.
pub open spec fn count_of(text: Seq<char>) -> u64 {
    match parse_unsigned(text, u64::MAX) {
        Some(n) => n,
        None => 0,
    }
}

/// The bytes of a count of mebibytes, held within `u64`.
pub open spec fn bytes_of_mebibytes(count: u64) -> u64 {
    if count * MEBIBYTE > u64::MAX {
        u64::MAX
    } else {
        (count * MEBIBYTE) as u64
    }
}

/// The quantity that a cell writes, white space around it set aside; zero
/// for a cell that writes none.
pub open spec fn quantity_of(cell: Seq<char>) -> Milli {
    or_zero(parse_thousandths(trim(cell)))
}

fn read_count(text: &Vec<char>) -> (r: u64)
    ensures
        r == count_of(text@),
{
    match read_unsigned(text, u64::MAX) {
        Some(n) => n,
        None => 0,
    }
}

fn read_mebibytes(cell: &Vec<char>) -> (r: u64)
    ensures
        r == bytes_of_mebibytes(count_of(trim(cell@))),
{
    let count = read_count(&trimmed(cell));
    let wide: u128 = count as u128 * MEBIBYTE as u128;
    if wide > u64::MAX as u128 {
        u64::MAX
    } else {
        wide as u64
    }
}

fn read_quantity(cell: &Vec<char>) -> (r: Milli)
    ensures
        r == quantity_of(cell@),
{
    match read_thousandths(&trimmed(cell)) {
        Some(m) => m,
        None => Milli(0),
    }
}

/// The adapter that a line of `nvidia-smi` output tells of: name, total,
/// used and free memory in mebibytes, usage and temperature, parted by
/// commas, white space around each set aside. `None` for a blank line and
/// for one of fewer than six cells. A figure that cannot be read counts as
/// zero.
pub open spec fn nvidia_gpu(line: Seq<char>) -> Option<GpuView> {
    let cells = split_on(trim(line), ',');
    if trim(line).len() > 0 && cells.len() >= 6 {
        Some(
            GpuView {
                name: trim(cells[0]),
                vendor: "NVIDIA"@,
                vram_total: bytes_of_mebibytes(count_of(trim(cells[1]))),
                vram_used: bytes_of_mebibytes(count_of(trim(cells[2]))),
                vram_free: bytes_of_mebibytes(count_of(trim(cells[3]))),
                usage_percent: quantity_of(cells[4]),
                temperature: Some(quantity_of(cells[5])),
            },
        )
    } else {
        None
    }
}

fn nvidia_line(line: &Vec<char>) -> (r: Option<GpuInfo>)
    ensures
        gpu_view(r) == nvidia_gpu(line@),
{
    let t = trimmed(line);
    if t.len() == 0 {
        return None;
    }
    let cells = split_at_char(&t, ',');
    if cells.len() < 6 {
        return None;
    }
    proof {
        assert(views(cells@)[0] == cells@[0]@);
        assert(views(cells@)[1] == cells@[1]@);
        assert(views(cells@)[2] == cells@[2]@);
        assert(views(cells@)[3] == cells@[3]@);
        assert(views(cells@)[4] == cells@[4]@);
        assert(views(cells@)[5] == cells@[5]@);
    }
    Some(
        GpuInfo {
            name: string_of(&trimmed(&cells[0])),
            vendor: "NVIDIA".to_owned(),
            vram_total: read_mebibytes(&cells[1]),
            vram_used: read_mebibytes(&cells[2]),
            vram_free: read_mebibytes(&cells[3]),
            usage_percent: read_quantity(&cells[4]),
            temperature: Some(read_quantity(&cells[5])),
        },
    )
}

/// The adapters that `nvidia-smi` output tells of, in the order of its
/// lines.
pub open spec fn nvidia_gpus(s: Seq<char>) -> Seq<GpuView> {
    lines_of(s).filter_map(|line: Seq<char>| nvidia_gpu(line))
}

/// Reads what `nvidia-smi` printed on the query for name, memory, usage and
/// temperature.
pub fn parse_nvidia_gpu_info(output: &str) -> (r: Vec<GpuInfo>)
    ensures
        gpu_views(r@) == nvidia_gpus(output@),
{
    let lines = split_lines(&chars_of(output));
    let ghost f = |line: Seq<char>| nvidia_gpu(line);
    let mut gpus: Vec<GpuInfo> = Vec::new();
    let mut i: usize = 0;
    assert(gpu_views(gpus@) =~= views(lines@).take(0).filter_map(f));
    while i < lines.len()
        invariant
            i <= lines.len(),
            f == |line: Seq<char>| nvidia_gpu(line),
            gpu_views(gpus@) == views(lines@).take(i as int).filter_map(f),
        decreases lines.len() - i,
    {
        proof {
            views(lines@).lemma_filter_map_take_succ(f, i as int);
            assert(views(lines@)[i as int] == lines@[i as int]@);
        }
        let ghost before = gpus@;
        if let Some(gpu) = nvidia_line(&lines[i]) {
            gpus.push(gpu);
            assert(gpu_views(gpus@) =~= gpu_views(before) + seq![gpu@]);
        }
        i += 1;
    }
    assert(views(lines@).take(i as int) =~= views(lines@));
    gpus
}

/// The adapter that a line of `wmic` output tells of: its last word is the
/// memory in bytes, the word before that the vendor, and the words before
/// those the name. `None` for a line of fewer than three words. Memory that
/// cannot be read counts as zero; all of it counts as free.
pub open spec fn wmic_gpu(line: Seq<char>) -> Option<GpuView> {
    let parts = words(line);
    if parts.len() >= 3 {
        Some(
            GpuView {
                name: joined(parts.take(parts.len() - 2), " "@),
                vendor: parts[parts.len() - 2],
                vram_total: count_of(parts.last()),
                vram_used: 0,
                vram_free: count_of(parts.last()),
                usage_percent: Milli(0),
                temperature: None,
            },
        )
    } else {
        None
    }
}

fn wmic_line(line: &Vec<char>) -> (r: Option<GpuInfo>)
    ensures
        gpu_view(r) == wmic_gpu(line@),
{
    let parts = split_words(line);
    let n = parts.len();
    if n < 3 {
        return None;
    }
    proof {
        assert(views(parts@)[n - 2] == parts@[n - 2]@);
        assert(views(parts@).last() == parts@[n - 1]@);
    }
    let vram_total = read_count(&parts[n - 1]);
    Some(
        GpuInfo {
            name: string_of(&join(&parts, n - 2, " ")),
            vendor: string_of(&parts[n - 2]),
            vram_total,
            vram_used: 0,
            vram_free: vram_total,
            usage_percent: Milli(0),
            temperature: None,
        },
    )
}

/// The lines of `wmic` output after the title line.
pub open spec fn wmic_body(lines: Seq<Seq<char>>) -> Seq<Seq<char>> {
    if lines.len() > 1 {
        lines.skip(1)
    } else {
        Seq::empty()
    }
}

/// The adapters that `wmic` output tells of, in the order of its lines.
pub open spec fn wmic_gpus(s: Seq<char>) -> Seq<GpuView> {
    wmic_body(lines_of(s)).filter_map(|line: Seq<char>| wmic_gpu(line))
}

/// Reads what `wmic` printed on the query for name, vendor and memory of
/// the video controllers.
pub fn parse_gpu_info(output: &str) -> (r: Vec<GpuInfo>)
    ensures
        gpu_views(r@) == wmic_gpus(output@),
{
    let lines = split_lines(&chars_of(output));
    let ghost f = |line: Seq<char>| wmic_gpu(line);
    let ghost body = wmic_body(views(lines@));
    let mut gpus: Vec<GpuInfo> = Vec::new();
    if lines.len() <= 1 {
        assert(gpu_views(gpus@) =~= body.filter_map(f));
        return gpus;
    }
    let mut i: usize = 1;
    assert(gpu_views(gpus@) =~= body.take(0).filter_map(f));
    while i < lines.len()
        invariant
            1 <= i <= lines.len(),
            f == |line: Seq<char>| wmic_gpu(line),
            body == views(lines@).skip(1),
            gpu_views(gpus@) == body.take(i - 1).filter_map(f),
        decreases lines.len() - i,
    {
        proof {
            body.lemma_filter_map_take_succ(f, i - 1);
            assert(body[i - 1] == lines@[i as int]@);
        }
        let ghost before = gpus@;
        if let Some(gpu) = wmic_line(&lines[i]) {
            gpus.push(gpu);
            assert(gpu_views(gpus@) =~= gpu_views(before) + seq![gpu@]);
        }
        i += 1;
    }
    assert(body.take(i - 1) =~= body);
    gpus
}

/// The `nvidia-smi` query for name, memory, usage and temperature.
pub fn nvidia_command() -> (r: CommandLine)
    ensures
        r@ == nvidia_query(),
{
    let mut arguments: Vec<Vec<char>> = Vec::new();
    arguments.push(
        chars_of(
            "--query-gpu=name,memory.total,memory.used,memory.free,utilization.gpu,temperature.gpu",
        ),
    );
    arguments.push(chars_of("--format=csv,noheader,nounits"));
    assert(views(arguments@) =~= seq![
        "--query-gpu=name,memory.total,memory.used,memory.free,utilization.gpu,temperature.gpu"@,
        "--format=csv,noheader,nounits"@,
    ]);
    command_line("nvidia-smi", &arguments)
}

/// The `wmic` query for name, vendor and memory of the video controllers.
pub fn wmic_command() -> (r: CommandLine)
    ensures
        r@ == (CommandLineView {
            program: "wmic"@,
            arguments: seq![
                "path"@,
                "win32_VideoController"@,
                "get"@,
                "name,adaptercompatibility,adapterram"@,
            ],
        }),
{
    let mut arguments: Vec<Vec<char>> = Vec::new();
    arguments.push(chars_of("path"));
    arguments.push(chars_of("win32_VideoController"));
    arguments.push(chars_of("get"));
    arguments.push(chars_of("name,adaptercompatibility,adapterram"));
    assert(views(arguments@) =~= seq![
        "path"@,
        "win32_VideoController"@,
        "get"@,
        "name,adaptercompatibility,adapterram"@,
    ]);
    command_line("wmic", &arguments)
}

/// The command with which the search for adapters begins: `nvidia-smi`
/// under the Windows dialect; under the POSIX dialect nothing is asked and
/// no adapter is told of.
pub fn first_gpu_command(dialect: Dialect) -> (r: Option<CommandLine>)
    ensures
        line_view(r) == (match dialect {
            Dialect::Windows => Some(nvidia_query()),
            Dialect::Posix => None,
        }),
{
    match dialect {
        Dialect::Windows => Some(nvidia_command()),
        Dialect::Posix => None,
    }
}

/// Whether a command ran to its end with success.
pub open spec fn succeeded(outcome: CommandOutcome) -> bool {
    outcome matches CommandOutcome::Finished { success, .. } && success
}

/// What a command printed; nothing for one that did not start.
pub open spec fn printed(outcome: CommandOutcome) -> Seq<char> {
    match outcome {
        CommandOutcome::Finished { stdout, .. } => stdout@,
        CommandOutcome::NotStarted { .. } => Seq::empty(),
    }
}

/// The adapters that a successful run of `nvidia-smi` tells of; `None`
/// where the run did not succeed and `wmic` is to be asked.
pub fn gpus_from_nvidia(outcome: &CommandOutcome) -> (r: Option<Vec<GpuInfo>>)
    ensures
        r is Some == succeeded(*outcome),
        r matches Some(gpus) ==> gpu_views(gpus@) == nvidia_gpus(printed(*outcome)),
{
    match outcome {
        CommandOutcome::Finished { success, stdout, stderr } => {
            if *success {
                Some(parse_nvidia_gpu_info(stdout.as_str()))
            } else {
                None
            }
        },
        CommandOutcome::NotStarted { reason } => None,
    }
}

/// The adapters that a run of `wmic` tells of: those of its output where
/// it succeeded, none otherwise.
pub fn gpus_from_wmic(outcome: &CommandOutcome) -> (r: Vec<GpuInfo>)
    ensures
        gpu_views(r@) == (if succeeded(*outcome) {
            wmic_gpus(printed(*outcome))
        } else {
            Seq::empty()
        }),
{
    match outcome {
        CommandOutcome::Finished { success, stdout, stderr } => {
            if *success {
                parse_gpu_info(stdout.as_str())
            } else {
                let none: Vec<GpuInfo> = Vec::new();
                assert(gpu_views(none@) =~= Seq::<GpuView>::empty());
                none
            }
        },
        CommandOutcome::NotStarted { reason } => {
            let none: Vec<GpuInfo> = Vec::new();
            assert(gpu_views(none@) =~= Seq::<GpuView>::empty());
            none
        },
    }
}

} // verus!
