//! Reader of connection listings (`netstat`): one record for each line that
//! has the columns of its dialect.

use vstd::prelude::*;
use crate::diagnostics::{
    command_line,
    CommandLine,
    CommandLineView,
    CommandOutcome,
    Dialect,
};
use crate::numbers::{parse_unsigned, read_unsigned};
use crate::text::{
    chars_of,
    optional_text,
    index_of_char,
    last_index_of_char,
    last_position_of,
    lines_of,
    position_of,
    slice_of,
    split_at_char,
    split_lines,
    split_on,
    split_words,
    string_of,
    strip_leading,
    trim,
    trimmed,
    views,
    without_leading,
    words,
};

verus! {

/// One row of a connection listing.
#[derive(Debug)]
pub struct NetworkConnectionInfo {
    pub local_address: String,
    pub local_port: u16,
    pub remote_address: Option<String>,
    pub remote_port: Option<u16>,
    pub protocol: String,
    pub state: String,
    pub pid: Option<u32>,
    pub process_name: Option<String>,
}

/// A row of a connection listing, its texts as characters.
pub struct ConnectionView {
    pub local_address: Seq<char>,
    pub local_port: u16,
    pub remote_address: Option<Seq<char>>,
    pub remote_port: Option<u16>,
    pub protocol: Seq<char>,
    pub state: Seq<char>,
    pub pid: Option<u32>,
    pub process_name: Option<Seq<char>>,
}

impl View for NetworkConnectionInfo {
    type V = ConnectionView;

    open spec fn view(&self) -> ConnectionView {
        ConnectionView {
            local_address: self.local_address@,
            local_port: self.local_port,
            remote_address: optional_text(self.remote_address),
            remote_port: self.remote_port,
            protocol: self.protocol@,
            state: self.state@,
            pid: self.pid,
            process_name: optional_text(self.process_name),
        }
    }
}

impl Clone for NetworkConnectionInfo {
    fn clone(&self) -> (r: Self)
        ensures
            r == *self,
    {
        NetworkConnectionInfo {
            local_address: self.local_address.clone(),
            local_port: self.local_port,
            remote_address: match &self.remote_address {
                Some(a) => Some(a.clone()),
                None => None,
            },
            remote_port: self.remote_port,
            protocol: self.protocol.clone(),
            state: self.state.clone(),
            pid: self.pid,
            process_name: match &self.process_name {
                Some(n) => Some(n.clone()),
                None => None,
            },
        }
    }
}

/// The view of an optional record.
pub open spec fn connection_view(o: Option<NetworkConnectionInfo>) -> Option<ConnectionView> {
    match o {
        Some(c) => Some(c@),
        None => None,
    }
}

/// The views of a list of records.
pub open spec fn connection_views(records: Seq<NetworkConnectionInfo>) -> Seq<ConnectionView> {
    records.map_values(|c: NetworkConnectionInfo| c@)
}

/// A port number as written, `None` for text that is not a number below 65536.
pub open spec fn port_number(s: Seq<char>) -> Option<u16> {
    match parse_unsigned(s, u16::MAX as u64) {
        Some(n) => Some(n as u16),
        None => None,
    }
}

/// A port number as written, zero for text that is none.
pub open spec fn port_or_zero(s: Seq<char>) -> u16 {
    match port_number(s) {
        Some(n) => n,
        None => 0,
    }
}

/// A process id as written.
pub open spec fn process_id(s: Seq<char>) -> Option<u32> {
    match parse_unsigned(s, u32::MAX as u64) {
        Some(n) => Some(n as u32),
        None => None,
    }
}

fn read_port(v: &Vec<char>) -> (r: Option<u16>)
    ensures
        r == port_number(v@),
{
    match read_unsigned(v, u16::MAX as u64) {
        Some(n) => Some(n as u16),
        None => None,
    }
}

fn read_process_id(v: &Vec<char>) -> (r: Option<u32>)
    ensures
        r == process_id(v@),
{
    match read_unsigned(v, u32::MAX as u64) {
        Some(n) => Some(n as u32),
        None => None,
    }
}

/// The address of an `address:port` pair: what stands before its last colon,
/// or all of it where it has no colon.
pub open spec fn address_of(s: Seq<char>) -> Seq<char> {
    let colon = last_index_of_char(s, ':');
    if colon >= 0 {
        s.take(colon)
    } else {
        s
    }
}

/// The port of an `address:port` pair: the number after its last colon, zero
/// where that is no port number or there is no colon.
pub open spec fn port_of(s: Seq<char>) -> u16 {
    let colon = last_index_of_char(s, ':');
    if colon >= 0 {
        port_or_zero(s.skip(colon + 1))
    } else {
        0
    }
}

fn address_port(v: &Vec<char>) -> (r: (String, u16))
    ensures
        r.0@ == address_of(v@),
        r.1 == port_of(v@),
{
    assert(v@.take(v.len() as int) =~= v@);
    match last_position_of(v, ':', v.len()) {
        Some(colon) => {
            let address = slice_of(v, 0, colon);
            let port = slice_of(v, colon + 1, v.len());
            assert(port@ =~= v@.skip(colon + 1));
            let number = match read_port(&port) {
                Some(n) => n,
                None => 0,
            };
            (string_of(&address), number)
        },
        None => (string_of(v), 0),
    }
}

/// Splits an `address:port` pair at its last colon.
pub fn parse_address_port(addr_port: &str) -> (r: (String, u16))
    ensures
        r.0@ == address_of(addr_port@),
        r.1 == port_of(addr_port@),
{
    address_port(&chars_of(addr_port))
}

/// The record of a line of Windows `netstat -ano` output: protocol, local
/// and remote `address:port`, state and, where present, the process id. The
/// pairs are parted at their first colon, and the port is what stands before
/// the second. `None` for a line of fewer than four words.
pub open spec fn windows_connection(line: Seq<char>) -> Option<ConnectionView> {
    let parts = words(line);
    if parts.len() < 4 {
        None
    } else {
        let local = split_on(parts[1], ':');
        let remote = split_on(parts[2], ':');
        Some(
            ConnectionView {
                local_address: local[0],
                local_port: if local.len() > 1 {
                    port_or_zero(local[1])
                } else {
                    0
                },
                remote_address: if remote[0].len() > 0 {
                    Some(remote[0])
                } else {
                    None
                },
                remote_port: if remote.len() > 1 {
                    port_number(remote[1])
                } else {
                    None
                },
                protocol: parts[0],
                state: parts[3],
                pid: if parts.len() > 4 {
                    process_id(parts[4])
                } else {
                    None
                },
                process_name: None,
            },
        )
    }
}

fn windows_line(line: &Vec<char>) -> (r: Option<NetworkConnectionInfo>)
    ensures
        connection_view(r) == windows_connection(line@),
{
    let parts = split_words(line);
    if parts.len() < 4 {
        return None;
    }
    proof {
        assert(views(parts@)[0] == parts@[0]@);
        assert(views(parts@)[1] == parts@[1]@);
        assert(views(parts@)[2] == parts@[2]@);
        assert(views(parts@)[3] == parts@[3]@);
        if parts.len() > 4 {
            assert(views(parts@)[4] == parts@[4]@);
        }
    }
    let local = split_at_char(&parts[1], ':');
    let remote = split_at_char(&parts[2], ':');
    proof {
        assert(views(local@)[0] == local@[0]@);
        assert(views(remote@)[0] == remote@[0]@);
        if local.len() > 1 {
            assert(views(local@)[1] == local@[1]@);
        }
        if remote.len() > 1 {
            assert(views(remote@)[1] == remote@[1]@);
        }
    }
    let local_port = if local.len() > 1 {
        match read_port(&local[1]) {
            Some(n) => n,
            None => 0,
        }
    } else {
        0
    };
    let remote_address = if remote[0].len() > 0 {
        Some(string_of(&remote[0]))
    } else {
        None
    };
    let remote_port = if remote.len() > 1 {
        read_port(&remote[1])
    } else {
        None
    };
    let pid = if parts.len() > 4 {
        read_process_id(&parts[4])
    } else {
        None
    };
    Some(
        NetworkConnectionInfo {
            local_address: string_of(&local[0]),
            local_port,
            remote_address,
            remote_port,
            protocol: string_of(&parts[0]),
            state: string_of(&parts[3]),
            pid,
            process_name: None,
        },
    )
}

/// Reads one line of Windows `netstat -ano` output.
pub fn parse_windows_netstat_line(line: &str) -> (r: Option<NetworkConnectionInfo>)
    ensures
        connection_view(r) == windows_connection(line@),
{
    windows_line(&chars_of(line))
}

/// The record of a line of POSIX `netstat -tunlp` output: protocol, two
/// queue columns that are passed over, local and remote `address:port`,
/// state and, where present, `pid/program`. The process id is what stands
/// before the first slash of that last word, the program name what follows
/// it, slashes at its start taken off. `None` for a line of fewer than six
/// words.
pub open spec fn posix_connection(line: Seq<char>) -> Option<ConnectionView> {
    let parts = words(line);
    if parts.len() < 6 {
        None
    } else {
        Some(
            ConnectionView {
                local_address: address_of(parts[3]),
                local_port: port_of(parts[3]),
                remote_address: Some(address_of(parts[4])),
                remote_port: Some(port_of(parts[4])),
                protocol: parts[0],
                state: parts[5],
                pid: if parts.len() > 6 {
                    process_id(parts[6].take(index_of_char(parts[6], '/') as int))
                } else {
                    None
                },
                process_name: if parts.len() > 6 {
                    Some(strip_leading(parts[6].skip(index_of_char(parts[6], '/') as int), '/'))
                } else {
                    None
                },
            },
        )
    }
}

fn posix_line(line: &Vec<char>) -> (r: Option<NetworkConnectionInfo>)
    ensures
        connection_view(r) == posix_connection(line@),
{
    let parts = split_words(line);
    if parts.len() < 6 {
        return None;
    }
    proof {
        assert(views(parts@)[0] == parts@[0]@);
        assert(views(parts@)[3] == parts@[3]@);
        assert(views(parts@)[4] == parts@[4]@);
        assert(views(parts@)[5] == parts@[5]@);
        if parts.len() > 6 {
            assert(views(parts@)[6] == parts@[6]@);
        }
    }
    let (local_address, local_port) = address_port(&parts[3]);
    let (remote_address, remote_port) = address_port(&parts[4]);
    let mut pid: Option<u32> = None;
    let mut process_name: Option<String> = None;
    if parts.len() > 6 {
        let owner = &parts[6];
        assert(owner@.skip(0) =~= owner@);
        let slash = position_of(owner, '/', 0);
        let id = slice_of(owner, 0, slash);
        let rest = slice_of(owner, slash, owner.len());
        proof {
            assert(id@ =~= owner@.take(slash as int));
            assert(rest@ =~= owner@.skip(slash as int));
        }
        pid = read_process_id(&id);
        process_name = Some(string_of(&without_leading(&rest, '/')));
    }
    Some(
        NetworkConnectionInfo {
            local_address,
            local_port,
            remote_address: Some(remote_address),
            remote_port: Some(remote_port),
            protocol: string_of(&parts[0]),
            state: string_of(&parts[5]),
            pid,
            process_name,
        },
    )
}

/// Reads one line of POSIX `netstat -tunlp` output.
pub fn parse_unix_netstat_line(line: &str) -> (r: Option<NetworkConnectionInfo>)
    ensures
        connection_view(r) == posix_connection(line@),
{
    posix_line(&chars_of(line))
}

/// How many lines at the head of a listing are titles.
pub const HEADER_LINES: usize = 4;

/// The lines of a listing after its titles.
pub open spec fn listing_body(lines: Seq<Seq<char>>) -> Seq<Seq<char>> {
    if lines.len() > HEADER_LINES {
        lines.skip(HEADER_LINES as int)
    } else {
        Seq::empty()
    }
}

/// The record of one line of a listing, white space around it set aside;
/// `None` for a blank line and for one that lacks the columns of the dialect.
pub open spec fn connection_of(line: Seq<char>, dialect: Dialect) -> Option<ConnectionView> {
    let t = trim(line);
    if t.len() == 0 {
        None
    } else {
        match dialect {
            Dialect::Windows => windows_connection(t),
            Dialect::Posix => posix_connection(t),
        }
    }
}

/// The records of a connection listing: one for each line after the titles
/// that gives one, in the order of the lines.
pub open spec fn connections_of(s: Seq<char>, dialect: Dialect) -> Seq<ConnectionView> {
    listing_body(lines_of(s)).filter_map(|line: Seq<char>| connection_of(line, dialect))
}

/// Reads a connection listing. Lines that cannot be read are passed over.
pub fn parse_network_connections(output: &str, dialect: Dialect) -> (r: Vec<
    NetworkConnectionInfo,
>)
    ensures
        connection_views(r@) == connections_of(output@, dialect),
{
    let lines = split_lines(&chars_of(output));
    let mut connections: Vec<NetworkConnectionInfo> = Vec::new();
    let ghost f = |line: Seq<char>| connection_of(line, dialect);
    let ghost body = listing_body(views(lines@));
    if lines.len() <= HEADER_LINES {
        assert(connection_views(connections@) =~= body.filter_map(f));
        return connections;
    }
    let mut i: usize = HEADER_LINES;
    assert(connection_views(connections@) =~= body.take(0).filter_map(f));
    while i < lines.len()
        invariant
            HEADER_LINES <= i <= lines.len(),
            f == |line: Seq<char>| connection_of(line, dialect),
            body == views(lines@).skip(HEADER_LINES as int),
            connection_views(connections@) == body.take(i - HEADER_LINES).filter_map(f),
        decreases lines.len() - i,
    {
        proof {
            body.lemma_filter_map_take_succ(f, i - HEADER_LINES);
            assert(body[i - HEADER_LINES] == lines@[i as int]@);
        }
        let ghost before = connections@;
        let line = trimmed(&lines[i]);
        if line.len() > 0 {
            let found = match dialect {
                Dialect::Windows => windows_line(&line),
                Dialect::Posix => posix_line(&line),
            };
            if let Some(connection) = found {
                connections.push(connection);
                assert(connection_views(connections@) =~= connection_views(before) + seq![
                    connection@,
                ]);
            }
        }
        i += 1;
    }
    assert(body.take(i - HEADER_LINES) =~= body);
    connections
}

/// The command line that lists the connections: `netstat -ano` under the
/// Windows dialect, `netstat -tunlp` under the POSIX dialect.
pub fn netstat_command(dialect: Dialect) -> (r: CommandLine)
    ensures
        r@ == (CommandLineView {
            program: "netstat"@,
            arguments: match dialect {
                Dialect::Windows => seq!["-ano"@],
                Dialect::Posix => seq!["-tunlp"@],
            },
        }),
{
    let mut arguments: Vec<Vec<char>> = Vec::new();
    match dialect {
        Dialect::Windows => {
            arguments.push(chars_of("-ano"));
            assert(views(arguments@) =~= seq!["-ano"@]);
        },
        Dialect::Posix => {
            arguments.push(chars_of("-tunlp"));
            assert(views(arguments@) =~= seq!["-tunlp"@]);
        },
    }
    command_line("netstat", &arguments)
}

/// The connections that a run of the listing command gives: those of its
/// output where it succeeded, none otherwise.
pub open spec fn listed_connections(outcome: CommandOutcome, dialect: Dialect) -> Seq<
    ConnectionView,
> {
    match outcome {
        CommandOutcome::Finished { success, stdout, stderr } => if success {
            connections_of(stdout@, dialect)
        } else {
            Seq::empty()
        },
        CommandOutcome::NotStarted { reason } => Seq::empty(),
    }
}

/// Tells the connections that a run of the listing command found.
pub fn get_network_connections(outcome: &CommandOutcome, dialect: Dialect) -> (r: Vec<
    NetworkConnectionInfo,
>)
    ensures
        connection_views(r@) == listed_connections(*outcome, dialect),
{
    match outcome {
        CommandOutcome::Finished { success, stdout, stderr } => {
            if *success {
                parse_network_connections(stdout.as_str(), dialect)
            } else {
                let none: Vec<NetworkConnectionInfo> = Vec::new();
                assert(connection_views(none@) =~= Seq::<ConnectionView>::empty());
                none
            }
        },
        CommandOutcome::NotStarted { reason } => {
            let none: Vec<NetworkConnectionInfo> = Vec::new();
            assert(connection_views(none@) =~= Seq::<ConnectionView>::empty());
            none
        },
    }
}

} // verus!
