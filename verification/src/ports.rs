use vstd::prelude::*;

use crate::order::{is_stable_sort_of, sort_by_keys};
use crate::text::{
    after_last, after_last_char, ascii_lower, chars_of, ends_with_chars, eq_ascii_ci,
    eq_ignore_ascii_case, has_prefix, has_suffix, is_digit, join2, lines, parse_unsigned,
    parse_unsigned_chars, parse_unsigned_str, split_lines, split_whitespace, split_ws, strip_prefix,
    to_ascii_lowercase, views, join, join_with, has_infix, contains, lines_state, strip_cr,
    lemma_split_lines_at_newline, lemma_split_ws_trailing_ws,
};

verus! {

/// The decimal digits at the end of `s`.
pub open spec fn trailing_digits(s: Seq<char>) -> Seq<char>
    decreases s.len(),
{
    if s.len() > 0 && is_digit(s.last()) {
        trailing_digits(s.drop_last()).push(s.last())
    } else {
        Seq::empty()
    }
}

/// A port number, 1 to 65535, from its text.
pub open spec fn port_from(text: Seq<char>) -> Option<u16> {
    match parse_unsigned(text, 65535) {
        Some(n) => if n > 0 {
            Some(n as u16)
        } else {
            None
        },
        None => None,
    }
}

/// The port written by the digits that end `value` ("9229", "127.0.0.1:9333").
pub open spec fn port_value(value: Seq<char>) -> Option<u16> {
    port_from(trailing_digits(value))
}

proof fn lemma_trailing_digits(s: Seq<char>, j: int)
    requires
        0 <= j <= s.len(),
        forall|k: int| j <= k < s.len() ==> is_digit(#[trigger] s[k]),
        j == 0 || !is_digit(s[j - 1]),
    ensures
        trailing_digits(s) == s.skip(j),
    decreases s.len() - j,
{
    if j == s.len() {
        assert(s.skip(j) =~= Seq::<char>::empty());
    } else {
        let t = s.drop_last();
        assert forall|k: int| j <= k < t.len() implies is_digit(#[trigger] t[k]) by {
            assert(t[k] == s[k]);
        }
        lemma_trailing_digits(t, j);
        assert(t.skip(j).push(s.last()) =~= s.skip(j));
    }
}

/// The port written by the digits that end `value`, if they write one from 1 to 65535.
pub fn parse_port_value(value: &str) -> (r: Option<u16>)
    ensures
        r == port_value(value@),
{
    let v = chars_of(value);
    let mut j: usize = v.len();
    while j > 0 && '0' <= v[j - 1] && v[j - 1] <= '9'
        invariant
            j <= v.len(),
            forall|k: int| j <= k < v.len() ==> is_digit(#[trigger] v@[k]),
        decreases j,
    {
        j = j - 1;
    }
    proof {
        lemma_trailing_digits(v@, j as int);
    }
    let digits = vstd::slice::slice_subrange(v.as_slice(), j, v.len());
    proof {
        assert(digits@ =~= value@.skip(j as int));
    }
    match parse_unsigned_chars(digits, 65535) {
        Some(n) => {
            if n > 0 {
                Some(n as u16)
            } else {
                None
            }
        },
        None => None,
    }
}

/// The port after the last `':'` of an address ("127.0.0.1:9333", "[::]:9444"), 1 to 65535.
pub open spec fn address_port(address: Seq<char>) -> Option<u16> {
    port_from(after_last(address, ':'))
}

/// The port of a listening address.
pub fn parse_port_from_address(address: &str) -> (r: Option<u16>)
    ensures
        r == address_port(address@),
{
    let v = chars_of(address);
    let last = after_last_char(v.as_slice(), ':');
    match parse_unsigned_str(last.as_str(), 65535) {
        Some(n) => {
            if n > 0 {
                Some(n as u16)
            } else {
                None
            }
        },
        None => None,
    }
}

/// Some column of a `netstat` row reads `LISTENING` (in any ASCII case).
pub open spec fn has_listening_column(columns: Seq<Seq<char>>) -> bool {
    exists|i: int| 0 <= i < columns.len() && eq_ascii_ci(#[trigger] columns[i], "LISTENING"@)
}

/// The `(pid, port)` of a `netstat -ano` row of a listening TCP socket: at least five columns,
/// the first `TCP`, some column `LISTENING`, the pid in the last column, the local address in
/// the second.
pub open spec fn netstat_listener(line: Seq<char>) -> Option<(u32, u16)> {
    let columns = split_ws(line);
    if columns.len() < 5 || !eq_ascii_ci(columns[0], "TCP"@) || !has_listening_column(columns) {
        None
    } else {
        match (parse_unsigned(columns.last(), 0xffff_ffff), address_port(columns[1])) {
            (Some(pid), Some(port)) => Some((pid as u32, port)),
            _ => None,
        }
    }
}

/// Reads one row of `netstat -ano -p TCP`.
pub fn parse_netstat_line(line: &str) -> (r: Option<(u32, u16)>)
    ensures
        r == netstat_listener(line@),
{
    let columns = split_whitespace(line);
    let ghost cols = views(columns@);
    proof {
        assert(cols.len() == columns@.len());
        assert(forall|i: int| 0 <= i < cols.len() ==> #[trigger] cols[i] == columns@[i]@);
    }
    if columns.len() < 5 || !eq_ignore_ascii_case(columns[0].as_str(), "TCP") {
        return None;
    }
    let mut found = false;
    let mut i: usize = 0;
    while i < columns.len()
        invariant
            i <= columns.len(),
            cols == views(columns@),
            cols.len() == columns@.len(),
            forall|k: int| 0 <= k < cols.len() ==> #[trigger] cols[k] == columns@[k]@,
            found == exists|k: int| 0 <= k < i && eq_ascii_ci(#[trigger] cols[k], "LISTENING"@),
        decreases columns.len() - i,
    {
        if eq_ignore_ascii_case(columns[i].as_str(), "LISTENING") {
            found = true;
        }
        proof {
            assert(cols[i as int] == columns@[i as int]@);
            if !found {
                assert forall|k: int| 0 <= k < i + 1 implies !eq_ascii_ci(
                    #[trigger] cols[k],
                    "LISTENING"@,
                ) by {
                    if k == i {
                        assert(cols[k] == columns@[k]@);
                    }
                }
            }
        }
        i = i + 1;
    }
    if !found {
        return None;
    }
    let pid = match parse_unsigned_str(columns[columns.len() - 1].as_str(), 0xffff_ffff) {
        Some(p) => p,
        None => {
            return None;
        },
    };
    let port = match parse_port_from_address(columns[1].as_str()) {
        Some(p) => p,
        None => {
            return None;
        },
    };
    Some((pid as u32, port))
}

/// The listeners of the rows of `netstat` output, in order.
pub open spec fn listeners_of(rows: Seq<Seq<char>>) -> Seq<(u32, u16)>
    decreases rows.len(),
{
    if rows.len() == 0 {
        Seq::empty()
    } else {
        match netstat_listener(rows.last()) {
            Some(l) => listeners_of(rows.drop_last()).push(l),
            None => listeners_of(rows.drop_last()),
        }
    }
}

/// Reads the listening TCP sockets out of `netstat -ano -p TCP` output.
pub fn parse_netstat_listeners(output: &str) -> (r: Vec<(u32, u16)>)
    ensures
        r@ == listeners_of(split_lines(output@)),
{
    let rows = lines(output);
    let ghost rs = views(rows@);
    let mut out: Vec<(u32, u16)> = Vec::new();
    let mut i: usize = 0;
    while i < rows.len()
        invariant
            i <= rows.len(),
            rs == views(rows@),
            rs == split_lines(output@),
            rs.len() == rows@.len(),
            out@ == listeners_of(rs.take(i as int)),
        decreases rows.len() - i,
    {
        proof {
            assert(rs.take(i + 1).drop_last() =~= rs.take(i as int));
            assert(rs[i as int] == rows@[i as int]@);
        }
        match parse_netstat_line(rows[i].as_str()) {
            Some(l) => {
                out.push(l);
            },
            None => {},
        }
        i = i + 1;
    }
    proof {
        assert(rs.take(rows.len() as int) =~= rs);
    }
    out
}

/// The listeners of two row lists, one after the other.
proof fn lemma_listeners_of_concat(x: Seq<Seq<char>>, y: Seq<Seq<char>>)
    ensures
        listeners_of(x + y) == listeners_of(x) + listeners_of(y),
    decreases y.len(),
{
    if y.len() == 0 {
        assert(x + y =~= x);
        assert(listeners_of(x) + listeners_of(y) =~= listeners_of(x));
    } else {
        assert((x + y).drop_last() =~= x + y.drop_last());
        assert((x + y).last() == y.last());
        lemma_listeners_of_concat(x, y.drop_last());
        match netstat_listener(y.last()) {
            Some(l) => {
                assert((listeners_of(x) + listeners_of(y.drop_last())).push(l) =~= listeners_of(x)
                    + listeners_of(y.drop_last()).push(l));
            },
            None => {},
        }
    }
}

/// A row read with or without the `'\r'` that ended it gives the same listener.
proof fn lemma_netstat_listener_strip_cr(line: Seq<char>)
    ensures
        netstat_listener(strip_cr(line)) == netstat_listener(line),
{
    if line.len() > 0 && line.last() == '\r' {
        lemma_split_ws_trailing_ws(line);
    }
}

/// Rows split at a line end: the listeners of `a`, a line end, then `b` are those of `a` followed
/// by those of `b`, so each row is read on its own, in order; empty output has no listeners.
pub proof fn netstat_listeners_split_at_newline(a: Seq<char>, b: Seq<char>)
    ensures
        listeners_of(split_lines(a + seq!['\n'] + b)) == listeners_of(split_lines(a))
            + listeners_of(split_lines(b)),
        listeners_of(split_lines(Seq::empty())) == Seq::<(u32, u16)>::empty(),
{
    let sa = lines_state(a);
    let x = sa.0.push(strip_cr(sa.1));
    lemma_split_lines_at_newline(a, b);
    lemma_listeners_of_concat(x, split_lines(b));
    assert(x.drop_last() =~= sa.0);
    lemma_netstat_listener_strip_cr(sa.1);
    if sa.1.len() > 0 {
        assert(split_lines(a).drop_last() =~= sa.0);
    } else {
        assert(split_ws(sa.1) =~= Seq::<Seq<char>>::empty());
    }
}

/// Whether a process is the Antigravity executable: its name is `antigravity.exe`, or its path
/// ends with `\antigravity.exe` (both in any ASCII case; an unknown path counts as empty).
pub open spec fn is_antigravity(name: Seq<char>, exe_path: Option<Seq<char>>) -> bool {
    ascii_lower(name) == "antigravity.exe"@ || match exe_path {
        Some(p) => has_suffix(ascii_lower(p), "\\antigravity.exe"@),
        None => false,
    }
}


pub open spec fn opt_view(v: Option<String>) -> Option<Seq<char>> {
    match v {
        Some(s) => Some(s@),
        None => None,
    }
}

/// Whether a process is the Antigravity executable, from its name and executable path.
pub fn is_antigravity_process(name: &str, exe_path: Option<&str>) -> (r: bool)
    ensures
        r == is_antigravity(
            name@,
            match exe_path {
                Some(p) => Some(p@),
                None => None,
            },
        ),
{
    let lower_name = to_ascii_lowercase(name);
    let target = String::from_str("antigravity.exe");
    proof {
        reveal_strlit("antigravity.exe");
    }
    if lower_name == target {
        return true;
    }
    match exe_path {
        Some(p) => {
            let lower = to_ascii_lowercase(p);
            let lv = chars_of(lower.as_str());
            let suffix = chars_of("\\antigravity.exe");
            ends_with_chars(lv.as_slice(), suffix.as_slice())
        },
        None => false,
    }
}

/// A port found on a process, with the rank it is tried by (lower first).
#[derive(Debug)]
pub struct InspectorPortCandidate {
    pub pid: u32,
    pub port: u16,
    pub priority: u8,
}

/// A port of a process to ask for Inspector targets.
#[derive(Debug)]
pub struct InspectorPort {
    pub pid: u32,
    pub port: u16,
}

/// The ports that an argument list gives to `flag`, as `flag=PORT` or as `flag PORT`, in order.
pub open spec fn ports_at(args: Seq<Seq<char>>, flag: Seq<char>, i: int) -> Seq<u16> {
    let a = args[i];
    let eq = flag + "="@;
    if has_prefix(a, eq) {
        opt_seq(port_value(a.skip(eq.len() as int)))
    } else if a == flag && i + 1 < args.len() {
        opt_seq(port_value(args[i + 1]))
    } else {
        Seq::empty()
    }
}

pub open spec fn opt_seq<T>(o: Option<T>) -> Seq<T> {
    match o {
        Some(x) => seq![x],
        None => Seq::empty(),
    }
}

/// The ports given to `flag` by the first `n` arguments.
pub open spec fn flag_ports_upto(args: Seq<Seq<char>>, flag: Seq<char>, n: int) -> Seq<u16>
    decreases n,
{
    if n <= 0 {
        Seq::empty()
    } else {
        flag_ports_upto(args, flag, n - 1) + ports_at(args, flag, n - 1)
    }
}

/// The ports given to `flag` by an argument list.
pub open spec fn flag_ports(args: Seq<Seq<char>>, flag: Seq<char>) -> Seq<u16> {
    flag_ports_upto(args, flag, args.len() as int)
}

fn opt_push(v: &mut Vec<u16>, o: Option<u16>)
    ensures
        final(v)@ == old(v)@ + opt_seq(o),
{
    match o {
        Some(x) => {
            v.push(x);
        },
        None => {},
    }
    proof {
        match o {
            Some(x) => {
                assert(old(v)@.push(x) =~= old(v)@ + seq![x]);
            },
            None => {
                assert(old(v)@ + Seq::<u16>::empty() =~= old(v)@);
            },
        }
    }
}

/// The ports that `args` give to `flag` (`--flag=9229` or `--flag 9229`; the digits that end
/// the value are read).
pub fn collect_debug_flag_ports(args: &[String], flag: &str) -> (r: Vec<u16>)
    ensures
        r@ == flag_ports(views(args@), flag@),
{
    let ghost a = views(args@);
    let eq = join2(flag, "=");
    let mut ports: Vec<u16> = Vec::new();
    let mut i: usize = 0;
    while i < args.len()
        invariant
            i <= args.len(),
            a == views(args@),
            a.len() == args@.len(),
            eq@ == flag@ + "="@,
            ports@ == flag_ports_upto(a, flag@, i as int),
        decreases args.len() - i,
    {
        proof {
            assert(a[i as int] == args@[i as int]@);
        }
        match strip_prefix(args[i].as_str(), eq.as_str()) {
            Some(value) => {
                opt_push(&mut ports, parse_port_value(value.as_str()));
            },
            None => {
                let f = String::from_str(flag);
                if args[i] == f && i + 1 < args.len() {
                    proof {
                        assert(a[i + 1] == args@[i + 1]@);
                    }
                    opt_push(&mut ports, parse_port_value(args[i + 1].as_str()));
                } else {
                    proof {
                        assert(ports@ + Seq::<u16>::empty() =~= ports@);
                    }
                }
            },
        }
        i = i + 1;
    }
    ports
}

/// The candidates for `pid` made of the given ports; a port 0 is left out.
pub open spec fn candidates_of(pid: u32, ports: Seq<u16>, priority: u8) -> Seq<InspectorPortCandidate>
    decreases ports.len(),
{
    if ports.len() == 0 {
        Seq::empty()
    } else if ports.last() > 0 {
        candidates_of(pid, ports.drop_last(), priority).push(
            InspectorPortCandidate { pid, port: ports.last(), priority },
        )
    } else {
        candidates_of(pid, ports.drop_last(), priority)
    }
}

/// Records a port of `pid`, unless it is 0.
pub fn push_port_candidate(
    candidates: &mut Vec<InspectorPortCandidate>,
    pid: u32,
    port: u16,
    priority: u8,
)
    ensures
        final(candidates)@ == if port > 0 {
            old(candidates)@.push(InspectorPortCandidate { pid, port, priority })
        } else {
            old(candidates)@
        },
{
    if port > 0 {
        candidates.push(InspectorPortCandidate { pid, port, priority });
    }
}

/// Records the ports that `args` give to `flag`, for `pid`.
pub fn push_ports_from_flag(
    candidates: &mut Vec<InspectorPortCandidate>,
    pid: u32,
    args: &[String],
    flag: &str,
    priority: u8,
)
    ensures
        final(candidates)@ == old(candidates)@ + candidates_of(
            pid,
            flag_ports(views(args@), flag@),
            priority,
        ),
{
    let ports = collect_debug_flag_ports(args, flag);
    let ghost start = candidates@;
    let mut i: usize = 0;
    while i < ports.len()
        invariant
            i <= ports.len(),
            candidates@ == start + candidates_of(pid, ports@.take(i as int), priority),
        decreases ports.len() - i,
    {
        proof {
            assert(ports@.take(i + 1).drop_last() =~= ports@.take(i as int));
        }
        push_port_candidate(candidates, pid, ports[i], priority);
        proof {
            let c = InspectorPortCandidate { pid, port: ports@[i as int], priority };
            if ports@[i as int] > 0 {
                assert((start + candidates_of(pid, ports@.take(i as int), priority)).push(c)
                    =~= start + candidates_of(pid, ports@.take(i as int), priority).push(c));
            }
        }
        i = i + 1;
    }
    proof {
        assert(ports@.take(ports.len() as int) =~= ports@);
    }
}


/// What the port scan reads of a running process.
#[derive(Debug)]
pub struct ProcessInfo {
    pub pid: u32,
    pub parent_pid: Option<u32>,
    pub name: String,
    pub exe_path: Option<String>,
    pub args: Vec<String>,
}

/// The state of the port scan: ports found so far, the Antigravity processes, and the
/// processes that run Antigravity's Node service.
#[derive(Debug)]
pub struct PortScan {
    pub candidates: Vec<InspectorPortCandidate>,
    pub antigravity_pids: Vec<u32>,
    pub node_service_pids: Vec<u32>,
}

pub struct PortScanView {
    pub candidates: Seq<InspectorPortCandidate>,
    pub antigravity_pids: Seq<u32>,
    pub node_service_pids: Seq<u32>,
}

impl View for PortScan {
    type V = PortScanView;

    open spec fn view(&self) -> PortScanView {
        PortScanView {
            candidates: self.candidates@,
            antigravity_pids: self.antigravity_pids@,
            node_service_pids: self.node_service_pids@,
        }
    }
}

/// A set of process ids, kept as a list without repetition: `x` added.
pub open spec fn set_insert(s: Seq<u32>, x: u32) -> Seq<u32> {
    if s.contains(x) {
        s
    } else {
        s.push(x)
    }
}

/// The command line of a process names Antigravity's Node service (`node.mojom.nodeservice`,
/// in any ASCII case).
pub open spec fn runs_node_service(args: Seq<Seq<char>>) -> bool {
    has_infix(ascii_lower(join_with(args, " "@)), "node.mojom.nodeservice"@)
}

/// The candidates that an Antigravity process gives by its own flags.
pub open spec fn own_flag_candidates(pid: u32, args: Seq<Seq<char>>) -> Seq<InspectorPortCandidate> {
    candidates_of(pid, flag_ports(args, "--inspect-port"@), 0) + candidates_of(
        pid,
        flag_ports(args, "--inspect-extensions"@),
        0,
    ) + candidates_of(pid, flag_ports(args, "--inspect-brk-extensions"@), 0) + candidates_of(
        pid,
        flag_ports(args, "--remote-debugging-port"@),
        5,
    )
}

/// The candidates that a child process of Antigravity gives by its flags.
pub open spec fn child_flag_candidates(pid: u32, args: Seq<Seq<char>>) -> Seq<InspectorPortCandidate> {
    candidates_of(pid, flag_ports(args, "--inspect-port"@), 0) + candidates_of(
        pid,
        flag_ports(args, "--inspect-extensions"@),
        0,
    ) + candidates_of(pid, flag_ports(args, "--inspect-brk-extensions"@), 0) + candidates_of(
        pid,
        flag_ports(args, "--inspect"@),
        0,
    ) + candidates_of(pid, flag_ports(args, "--inspect-brk"@), 0) + candidates_of(
        pid,
        flag_ports(args, "--remote-debugging-port"@),
        5,
    ) + candidates_of(pid, flag_ports(args, "--debug"@), 4)
}

pub open spec fn empty_scan() -> PortScanView {
    PortScanView {
        candidates: Seq::empty(),
        antigravity_pids: Seq::empty(),
        node_service_pids: Seq::empty(),
    }
}

/// The scan after the Antigravity processes among `procs` have been read, in order.
pub open spec fn scan_own(procs: Seq<ProcessInfo>) -> PortScanView
    decreases procs.len(),
{
    if procs.len() == 0 {
        empty_scan()
    } else {
        let st = scan_own(procs.drop_last());
        let p = procs.last();
        if !is_antigravity(p.name@, opt_view(p.exe_path)) {
            st
        } else {
            PortScanView {
                candidates: st.candidates + own_flag_candidates(p.pid, views(p.args@)),
                antigravity_pids: set_insert(st.antigravity_pids, p.pid),
                node_service_pids: if runs_node_service(views(p.args@)) {
                    set_insert(st.node_service_pids, p.pid)
                } else {
                    st.node_service_pids
                },
            }
        }
    }
}

/// The scan after the children of Antigravity (or of its Node service) among `procs` have been
/// read, in order, from `start`.
pub open spec fn scan_children(procs: Seq<ProcessInfo>, start: PortScanView) -> PortScanView
    decreases procs.len(),
{
    if procs.len() == 0 {
        start
    } else {
        let st = scan_children(procs.drop_last(), start);
        let p = procs.last();
        if st.antigravity_pids.contains(p.pid) {
            st
        } else {
            match p.parent_pid {
                None => st,
                Some(parent) => if !st.antigravity_pids.contains(parent)
                    && !st.node_service_pids.contains(parent) {
                    st
                } else {
                    PortScanView {
                        candidates: st.candidates + child_flag_candidates(p.pid, views(p.args@)),
                        antigravity_pids: st.antigravity_pids,
                        node_service_pids: if runs_node_service(views(p.args@)) {
                            set_insert(st.node_service_pids, p.pid)
                        } else {
                            st.node_service_pids
                        },
                    }
                },
            }
        }
    }
}

proof fn lemma_concat_contains<T>(a: Seq<T>, b: Seq<T>, x: T)
    requires
        a.contains(x) || b.contains(x),
    ensures
        (a + b).contains(x),
{
    if a.contains(x) {
        let k = choose|k: int| 0 <= k < a.len() && a[k] == x;
        assert((a + b)[k] == x);
    } else {
        let k = choose|k: int| 0 <= k < b.len() && b[k] == x;
        assert((a + b)[a.len() + k] == x);
    }
}

/// The ports an argument gives to a flag are among the flag's ports.
proof fn lemma_flag_ports_upto_has(args: Seq<Seq<char>>, flag: Seq<char>, j: int, n: int, port: u16)
    requires
        0 <= j < n,
        ports_at(args, flag, j).contains(port),
    ensures
        flag_ports_upto(args, flag, n).contains(port),
    decreases n,
{
    if n == j + 1 {
        lemma_concat_contains(flag_ports_upto(args, flag, j), ports_at(args, flag, j), port);
    } else {
        lemma_flag_ports_upto_has(args, flag, j, n - 1, port);
        lemma_concat_contains(flag_ports_upto(args, flag, n - 1), ports_at(args, flag, n - 1), port);
    }
}

/// Each port but 0 becomes a candidate.
proof fn lemma_candidates_of_has(pid: u32, ports: Seq<u16>, priority: u8, port: u16)
    requires
        ports.contains(port),
        port > 0,
    ensures
        candidates_of(pid, ports, priority).contains(InspectorPortCandidate { pid, port, priority }),
    decreases ports.len(),
{
    let c = InspectorPortCandidate { pid, port, priority };
    let rest = candidates_of(pid, ports.drop_last(), priority);
    if ports.last() == port {
        assert(rest.push(c)[rest.len() as int] == c);
    } else {
        let k = choose|k: int| 0 <= k < ports.len() && ports[k] == port;
        assert(ports.drop_last()[k] == port);
        lemma_candidates_of_has(pid, ports.drop_last(), priority, port);
        if ports.last() > 0 {
            let m = choose|m: int| 0 <= m < rest.len() && rest[m] == c;
            let last = InspectorPortCandidate { pid, port: ports.last(), priority };
            assert(rest.push(last)[m] == c);
        }
    }
}

/// The candidates of an Antigravity process stay among those of the scan of its own flags.
proof fn lemma_scan_own_has(procs: Seq<ProcessInfo>, i: int, c: InspectorPortCandidate)
    requires
        0 <= i < procs.len(),
        is_antigravity(procs[i].name@, opt_view(procs[i].exe_path)),
        own_flag_candidates(procs[i].pid, views(procs[i].args@)).contains(c),
    ensures
        scan_own(procs).candidates.contains(c),
    decreases procs.len(),
{
    let st = scan_own(procs.drop_last());
    let p = procs.last();
    if i == procs.len() - 1 {
        lemma_concat_contains(st.candidates, own_flag_candidates(p.pid, views(p.args@)), c);
    } else {
        assert(procs.drop_last()[i] == procs[i]);
        lemma_scan_own_has(procs.drop_last(), i, c);
        if is_antigravity(p.name@, opt_view(p.exe_path)) {
            lemma_concat_contains(st.candidates, own_flag_candidates(p.pid, views(p.args@)), c);
        }
    }
}

/// Reading the children only adds candidates.
proof fn lemma_scan_children_keeps(procs: Seq<ProcessInfo>, start: PortScanView, c: InspectorPortCandidate)
    requires
        start.candidates.contains(c),
    ensures
        scan_children(procs, start).candidates.contains(c),
    decreases procs.len(),
{
    if procs.len() > 0 {
        lemma_scan_children_keeps(procs.drop_last(), start, c);
        let st = scan_children(procs.drop_last(), start);
        let p = procs.last();
        lemma_concat_contains(st.candidates, child_flag_candidates(p.pid, views(p.args@)), c);
    }
}

/// `value` is given to `flag` by argument `j`: as `flag=value`, or as the flag followed by it.
pub open spec fn gives_flag_value(args: Seq<Seq<char>>, j: int, flag: Seq<char>, value: Seq<char>) -> bool {
    &&& 0 <= j < args.len()
    &&& args[j] == flag + "="@ + value || (args[j] == flag && j + 1 < args.len() && args[j + 1]
        == value)
}

proof fn lemma_flag_port_given(
    args: Seq<Seq<char>>,
    j: int,
    flag: Seq<char>,
    value: Seq<char>,
    port: u16,
)
    requires
        gives_flag_value(args, j, flag, value),
        port_value(value) == Some(port),
    ensures
        flag_ports(args, flag).contains(port),
{
    let eq = flag + "="@;
    reveal_strlit("=");
    if args[j] == eq + value {
        assert(has_prefix(args[j], eq)) by {
            assert(args[j].take(eq.len() as int) =~= eq);
        }
        assert(args[j].skip(eq.len() as int) =~= value);
    } else {
        assert(eq.len() == flag.len() + 1);
        assert(!has_prefix(args[j], eq));
    }
    assert(ports_at(args, flag, j) == seq![port]);
    assert(seq![port][0] == port);
    lemma_flag_ports_upto_has(args, flag, j, args.len() as int, port);
}

/// Every debugging port that an Antigravity process is started with becomes a candidate of
/// that process: one given to `--inspect-port`, `--inspect-extensions` or
/// `--inspect-brk-extensions` at priority 0, one given to `--remote-debugging-port` at priority
/// 5, written as `flag=value` or as the flag followed by the value (a port of 0 aside).
pub proof fn antigravity_flag_ports_are_candidates(
    procs: Seq<ProcessInfo>,
    i: int,
    j: int,
    flag: Seq<char>,
    priority: u8,
    value: Seq<char>,
    port: u16,
)
    requires
        0 <= i < procs.len(),
        is_antigravity(procs[i].name@, opt_view(procs[i].exe_path)),
        (flag == "--inspect-port"@ && priority == 0) || (flag == "--inspect-extensions"@ && priority
            == 0) || (flag == "--inspect-brk-extensions"@ && priority == 0) || (flag
            == "--remote-debugging-port"@ && priority == 5),
        gives_flag_value(views(procs[i].args@), j, flag, value),
        port_value(value) == Some(port),
        port > 0,
    ensures
        scan_children(procs, scan_own(procs)).candidates.contains(
            InspectorPortCandidate { pid: procs[i].pid, port, priority },
        ),
{
    let pr = procs[i];
    let args = views(pr.args@);
    let c = InspectorPortCandidate { pid: pr.pid, port, priority };
    lemma_flag_port_given(args, j, flag, value, port);
    lemma_candidates_of_has(pr.pid, flag_ports(args, flag), priority, port);
    let a = candidates_of(pr.pid, flag_ports(args, "--inspect-port"@), 0);
    let b = candidates_of(pr.pid, flag_ports(args, "--inspect-extensions"@), 0);
    let d = candidates_of(pr.pid, flag_ports(args, "--inspect-brk-extensions"@), 0);
    let e = candidates_of(pr.pid, flag_ports(args, "--remote-debugging-port"@), 5);
    if (flag == "--inspect-port"@ || flag == "--inspect-extensions"@) && priority == 0 {
        lemma_concat_contains(a, b, c);
        lemma_concat_contains(a + b, d, c);
    } else if flag == "--inspect-brk-extensions"@ && priority == 0 {
        lemma_concat_contains(a + b, d, c);
    }
    lemma_concat_contains(a + b + d, e, c);
    lemma_scan_own_has(procs, i, c);
    lemma_scan_children_keeps(procs, scan_own(procs), c);
}

/// The pid of every Antigravity process is recorded, and no other.
proof fn lemma_scan_own_pids(procs: Seq<ProcessInfo>, x: u32)
    ensures
        scan_own(procs).antigravity_pids.contains(x) <==> exists|k: int|
            0 <= k < procs.len() && #[trigger] procs[k].pid == x && is_antigravity(
                procs[k].name@,
                opt_view(procs[k].exe_path),
            ),
    decreases procs.len(),
{
    if procs.len() > 0 {
        let rest = procs.drop_last();
        lemma_scan_own_pids(rest, x);
        let st = scan_own(rest);
        let p = procs.last();
        if exists|k: int|
            0 <= k < rest.len() && #[trigger] rest[k].pid == x && is_antigravity(
                rest[k].name@,
                opt_view(rest[k].exe_path),
            ) {
            let k = choose|k: int|
                0 <= k < rest.len() && #[trigger] rest[k].pid == x && is_antigravity(
                    rest[k].name@,
                    opt_view(rest[k].exe_path),
                );
            assert(procs[k] == rest[k]);
        }
        if exists|k: int|
            0 <= k < procs.len() && #[trigger] procs[k].pid == x && is_antigravity(
                procs[k].name@,
                opt_view(procs[k].exe_path),
            ) {
            let k = choose|k: int|
                0 <= k < procs.len() && #[trigger] procs[k].pid == x && is_antigravity(
                    procs[k].name@,
                    opt_view(procs[k].exe_path),
                );
            if k < rest.len() {
                assert(rest[k] == procs[k]);
            }
        }
        if is_antigravity(p.name@, opt_view(p.exe_path)) {
            if st.antigravity_pids.contains(p.pid) {
            } else {
                assert(st.antigravity_pids.push(p.pid)[st.antigravity_pids.len() as int] == p.pid);
                assert(st.antigravity_pids.push(p.pid).contains(x) ==> (st.antigravity_pids.contains(x)
                    || x == p.pid)) by {
                    if st.antigravity_pids.push(p.pid).contains(x) {
                        let m = choose|m: int|
                            0 <= m < st.antigravity_pids.len() + 1 && st.antigravity_pids.push(
                                p.pid,
                            )[m] == x;
                        if m < st.antigravity_pids.len() {
                            assert(st.antigravity_pids[m] == x);
                        }
                    }
                }
                if st.antigravity_pids.contains(x) {
                    let m = choose|m: int|
                        0 <= m < st.antigravity_pids.len() && st.antigravity_pids[m] == x;
                    assert(st.antigravity_pids.push(p.pid)[m] == x);
                }
            }
        }
    }
}

/// Reading the children leaves the Antigravity pids as they were.
proof fn lemma_scan_children_pids(procs: Seq<ProcessInfo>, start: PortScanView)
    ensures
        scan_children(procs, start).antigravity_pids == start.antigravity_pids,
    decreases procs.len(),
{
    if procs.len() > 0 {
        lemma_scan_children_pids(procs.drop_last(), start);
    }
}

/// The candidates of a child of an Antigravity process are among those of the scan.
proof fn lemma_scan_children_has(
    procs: Seq<ProcessInfo>,
    start: PortScanView,
    i: int,
    c: InspectorPortCandidate,
)
    requires
        0 <= i < procs.len(),
        !start.antigravity_pids.contains(procs[i].pid),
        procs[i].parent_pid matches Some(parent) && start.antigravity_pids.contains(parent),
        child_flag_candidates(procs[i].pid, views(procs[i].args@)).contains(c),
    ensures
        scan_children(procs, start).candidates.contains(c),
    decreases procs.len(),
{
    let rest = procs.drop_last();
    lemma_scan_children_pids(rest, start);
    let st = scan_children(rest, start);
    let p = procs.last();
    if i == procs.len() - 1 {
        lemma_concat_contains(st.candidates, child_flag_candidates(p.pid, views(p.args@)), c);
    } else {
        assert(rest[i] == procs[i]);
        lemma_scan_children_has(rest, start, i, c);
        lemma_concat_contains(st.candidates, child_flag_candidates(p.pid, views(p.args@)), c);
    }
}

/// Every debugging port that a child of an Antigravity process is started with becomes a
/// candidate of the child (a child that is no Antigravity process itself): one given to
/// `--inspect-port`, `--inspect-extensions`, `--inspect-brk-extensions`, `--inspect` or
/// `--inspect-brk` at priority 0, to `--remote-debugging-port` at priority 5, to `--debug` at
/// priority 4 (a port of 0 aside).
pub proof fn antigravity_child_flag_ports_are_candidates(
    procs: Seq<ProcessInfo>,
    k: int,
    i: int,
    j: int,
    flag: Seq<char>,
    priority: u8,
    value: Seq<char>,
    port: u16,
)
    requires
        0 <= k < procs.len(),
        is_antigravity(procs[k].name@, opt_view(procs[k].exe_path)),
        0 <= i < procs.len(),
        procs[i].parent_pid == Some(procs[k].pid),
        forall|m: int|
            0 <= m < procs.len() && #[trigger] procs[m].pid == procs[i].pid ==> !is_antigravity(
                procs[m].name@,
                opt_view(procs[m].exe_path),
            ),
        ((flag == "--inspect-port"@ || flag == "--inspect-extensions"@
            || flag == "--inspect-brk-extensions"@ || flag == "--inspect"@ || flag
            == "--inspect-brk"@) && priority == 0) || (flag == "--remote-debugging-port"@
            && priority == 5) || (flag == "--debug"@ && priority == 4),
        gives_flag_value(views(procs[i].args@), j, flag, value),
        port_value(value) == Some(port),
        port > 0,
    ensures
        scan_children(procs, scan_own(procs)).candidates.contains(
            InspectorPortCandidate { pid: procs[i].pid, port, priority },
        ),
{
    let pr = procs[i];
    let args = views(pr.args@);
    let c = InspectorPortCandidate { pid: pr.pid, port, priority };
    lemma_flag_port_given(args, j, flag, value, port);
    lemma_candidates_of_has(pr.pid, flag_ports(args, flag), priority, port);
    let c1 = candidates_of(pr.pid, flag_ports(args, "--inspect-port"@), 0);
    let c2 = candidates_of(pr.pid, flag_ports(args, "--inspect-extensions"@), 0);
    let c3 = candidates_of(pr.pid, flag_ports(args, "--inspect-brk-extensions"@), 0);
    let c4 = candidates_of(pr.pid, flag_ports(args, "--inspect"@), 0);
    let c5 = candidates_of(pr.pid, flag_ports(args, "--inspect-brk"@), 0);
    let c6 = candidates_of(pr.pid, flag_ports(args, "--remote-debugging-port"@), 5);
    let c7 = candidates_of(pr.pid, flag_ports(args, "--debug"@), 4);
    if c1.contains(c) || c2.contains(c) {
        lemma_concat_contains(c1, c2, c);
    }
    if (c1 + c2).contains(c) || c3.contains(c) {
        lemma_concat_contains(c1 + c2, c3, c);
    }
    if (c1 + c2 + c3).contains(c) || c4.contains(c) {
        lemma_concat_contains(c1 + c2 + c3, c4, c);
    }
    if (c1 + c2 + c3 + c4).contains(c) || c5.contains(c) {
        lemma_concat_contains(c1 + c2 + c3 + c4, c5, c);
    }
    if (c1 + c2 + c3 + c4 + c5).contains(c) || c6.contains(c) {
        lemma_concat_contains(c1 + c2 + c3 + c4 + c5, c6, c);
    }
    lemma_concat_contains(c1 + c2 + c3 + c4 + c5 + c6, c7, c);
    let own = scan_own(procs);
    lemma_scan_own_pids(procs, procs[k].pid);
    lemma_scan_own_pids(procs, pr.pid);
    lemma_scan_children_has(procs, own, i, c);
}

fn insert_pid(s: &mut Vec<u32>, x: u32)
    ensures
        final(s)@ == set_insert(old(s)@, x),
{
    let mut i: usize = 0;
    while i < s.len()
        invariant
            i <= s.len(),
            s@ == old(s)@,
            forall|k: int| 0 <= k < i ==> s@[k] != x,
        decreases s.len() - i,
    {
        if s[i] == x {
            proof {
                assert(s@.contains(x));
            }
            return;
        }
        i = i + 1;
    }
    s.push(x);
}

fn contains_pid(s: &Vec<u32>, x: u32) -> (r: bool)
    ensures
        r == s@.contains(x),
{
    let mut i: usize = 0;
    while i < s.len()
        invariant
            i <= s.len(),
            forall|k: int| 0 <= k < i ==> s@[k] != x,
        decreases s.len() - i,
    {
        if s[i] == x {
            return true;
        }
        i = i + 1;
    }
    false
}

fn node_service_named(args: &[String]) -> (r: bool)
    ensures
        r == runs_node_service(views(args@)),
{
    let joined = join(args, " ");
    let lower = to_ascii_lowercase(joined.as_str());
    contains(lower.as_str(), "node.mojom.nodeservice")
}

impl PortScan {
    /// Reads the Antigravity processes (first pass) and then their children (second pass).
    pub fn scan_processes(processes: &Vec<ProcessInfo>) -> (r: PortScan)
        ensures
            r@ == scan_children(processes@, scan_own(processes@)),
    {
        let mut scan = PortScan {
            candidates: Vec::new(),
            antigravity_pids: Vec::new(),
            node_service_pids: Vec::new(),
        };
        let mut i: usize = 0;
        while i < processes.len()
            invariant
                i <= processes.len(),
                scan@ == scan_own(processes@.take(i as int)),
            decreases processes.len() - i,
        {
            proof {
                assert(processes@.take(i + 1).drop_last() =~= processes@.take(i as int));
            }
            let p = &processes[i];
            let exe = match &p.exe_path {
                Some(e) => Some(e.as_str()),
                None => None,
            };
            if is_antigravity_process(p.name.as_str(), exe) {
                insert_pid(&mut scan.antigravity_pids, p.pid);
                if node_service_named(p.args.as_slice()) {
                    insert_pid(&mut scan.node_service_pids, p.pid);
                }
                let ghost c0 = scan.candidates@;
                let a = p.args.as_slice();
                push_ports_from_flag(&mut scan.candidates, p.pid, a, "--inspect-port", 0);
                push_ports_from_flag(&mut scan.candidates, p.pid, a, "--inspect-extensions", 0);
                push_ports_from_flag(&mut scan.candidates, p.pid, a, "--inspect-brk-extensions", 0);
                push_ports_from_flag(&mut scan.candidates, p.pid, a, "--remote-debugging-port", 5);
                proof {
                    assert(scan.candidates@ =~= c0 + own_flag_candidates(p.pid, views(p.args@)));
                }
            }
            i = i + 1;
        }
        proof {
            assert(processes@.take(processes.len() as int) =~= processes@);
        }
        let ghost first = scan@;
        let mut i: usize = 0;
        while i < processes.len()
            invariant
                i <= processes.len(),
                scan@ == scan_children(processes@.take(i as int), first),
            decreases processes.len() - i,
        {
            proof {
                assert(processes@.take(i + 1).drop_last() =~= processes@.take(i as int));
            }
            let p = &processes[i];
            if !contains_pid(&scan.antigravity_pids, p.pid) {
                match p.parent_pid {
                    None => {},
                    Some(parent) => {
                        if contains_pid(&scan.antigravity_pids, parent) || contains_pid(
                            &scan.node_service_pids,
                            parent,
                        ) {
                            let a = p.args.as_slice();
                            if node_service_named(a) {
                                insert_pid(&mut scan.node_service_pids, p.pid);
                            }
                            let ghost c0 = scan.candidates@;
                            push_ports_from_flag(&mut scan.candidates, p.pid, a, "--inspect-port", 0);
                            push_ports_from_flag(&mut scan.candidates, p.pid, a, "--inspect-extensions", 0);
                            push_ports_from_flag(
                                &mut scan.candidates,
                                p.pid,
                                a,
                                "--inspect-brk-extensions",
                                0,
                            );
                            push_ports_from_flag(&mut scan.candidates, p.pid, a, "--inspect", 0);
                            push_ports_from_flag(&mut scan.candidates, p.pid, a, "--inspect-brk", 0);
                            push_ports_from_flag(
                                &mut scan.candidates,
                                p.pid,
                                a,
                                "--remote-debugging-port",
                                5,
                            );
                            push_ports_from_flag(&mut scan.candidates, p.pid, a, "--debug", 4);
                            proof {
                                assert(scan.candidates@ =~= c0 + child_flag_candidates(
                                    p.pid,
                                    views(p.args@),
                                ));
                            }
                        }
                    },
                }
            }
            i = i + 1;
        }
        proof {
            assert(processes@.take(processes.len() as int) =~= processes@);
        }
        scan
    }

    /// Adds the listening sockets that `netstat` reports: a port of a Node-service process
    /// ranks first (0), a port of another Antigravity process ranks 5, other ports are left out.
    pub fn add_netstat_listeners(&mut self, netstat_output: &str)
        ensures
            final(self)@ == with_listeners(
                old(self)@,
                listeners_of(split_lines(netstat_output@)),
            ),
    {
        let listeners = parse_netstat_listeners(netstat_output);
        let ghost start = self@;
        let mut i: usize = 0;
        while i < listeners.len()
            invariant
                i <= listeners.len(),
                self@ == with_listeners(start, listeners@.take(i as int)),
            decreases listeners.len() - i,
        {
            proof {
                assert(listeners@.take(i + 1).drop_last() =~= listeners@.take(i as int));
            }
            let (pid, port) = listeners[i];
            proof {
                let one = seq![port];
                assert(one.drop_last() =~= Seq::<u16>::empty());
                assert(one.last() == port);
                let c0 = InspectorPortCandidate { pid, port, priority: 0 };
                let c5 = InspectorPortCandidate { pid, port, priority: 5 };
                assert(candidates_of(pid, Seq::<u16>::empty(), 0).len() == 0);
                assert(candidates_of(pid, Seq::<u16>::empty(), 5).len() == 0);
                if port > 0 {
                    assert(candidates_of(pid, one, 0) =~= seq![c0]);
                    assert(candidates_of(pid, one, 5) =~= seq![c5]);
                    assert(self@.candidates.push(c0) =~= self@.candidates + seq![c0]);
                    assert(self@.candidates.push(c5) =~= self@.candidates + seq![c5]);
                } else {
                    assert(candidates_of(pid, one, 0) =~= Seq::<InspectorPortCandidate>::empty());
                    assert(candidates_of(pid, one, 5) =~= Seq::<InspectorPortCandidate>::empty());
                }
                assert(self@.candidates + Seq::<InspectorPortCandidate>::empty() =~= self@.candidates);
            }
            if contains_pid(&self.node_service_pids, pid) {
                push_port_candidate(&mut self.candidates, pid, port, 0);
            } else if contains_pid(&self.antigravity_pids, pid) {
                push_port_candidate(&mut self.candidates, pid, port, 5);
            }
            i = i + 1;
        }
        proof {
            assert(listeners@.take(listeners.len() as int) =~= listeners@);
        }
    }

    /// Whether `netstat` is to be asked: some Antigravity process was found.
    pub fn needs_netstat(&self) -> (r: bool)
        ensures
            r == (self@.antigravity_pids.len() > 0),
    {
        self.antigravity_pids.len() > 0
    }
}


/// The candidate for a listening socket, if its process is one of Antigravity's.
pub open spec fn listener_candidate(st: PortScanView, l: (u32, u16)) -> Seq<InspectorPortCandidate> {
    if st.node_service_pids.contains(l.0) {
        candidates_of(l.0, seq![l.1], 0)
    } else if st.antigravity_pids.contains(l.0) {
        candidates_of(l.0, seq![l.1], 5)
    } else {
        Seq::empty()
    }
}

/// The scan after the given listening sockets have been added, in order.
pub open spec fn with_listeners(st: PortScanView, ls: Seq<(u32, u16)>) -> PortScanView
    decreases ls.len(),
{
    if ls.len() == 0 {
        st
    } else {
        let s = with_listeners(st, ls.drop_last());
        PortScanView { candidates: s.candidates + listener_candidate(s, ls.last()), ..s }
    }
}

/// The key by which candidates are ranked: priority, then pid, then port.
pub open spec fn candidate_key(c: InspectorPortCandidate) -> (u64, u64, u64) {
    (c.priority as u64, c.pid as u64, c.port as u64)
}

pub open spec fn candidate_keys(cs: Seq<InspectorPortCandidate>) -> Seq<(u64, u64, u64)> {
    cs.map_values(|c| candidate_key(c))
}

pub open spec fn candidate_port(c: InspectorPortCandidate) -> InspectorPort {
    InspectorPort { pid: c.pid, port: c.port }
}

/// The items of `s` that do not occur earlier in `s`, in order.
pub open spec fn first_occurrences(s: Seq<InspectorPort>) -> Seq<InspectorPort>
    decreases s.len(),
{
    if s.len() == 0 {
        Seq::empty()
    } else {
        let f = first_occurrences(s.drop_last());
        if f.contains(s.last()) {
            f
        } else {
            f.push(s.last())
        }
    }
}

/// The ports to try: the candidates ranked by priority, pid and port, each (pid, port) once,
/// where it first occurs in that order.
pub open spec fn ranked_ports(candidates: Seq<InspectorPortCandidate>, out: Seq<InspectorPort>) -> bool {
    exists|sorted: Seq<InspectorPortCandidate>|
        #[trigger] is_stable_sort_of(candidates, candidate_keys(candidates), sorted)
            && out
            == first_occurrences(sorted.map_values(|c| candidate_port(c)))
}

fn contains_port(s: &Vec<InspectorPort>, x: &InspectorPort) -> (r: bool)
    ensures
        r == s@.contains(*x),
{
    let mut i: usize = 0;
    while i < s.len()
        invariant
            i <= s.len(),
            forall|k: int| 0 <= k < i ==> s@[k] != *x,
        decreases s.len() - i,
    {
        if s[i].pid == x.pid && s[i].port == x.port {
            proof {
                assert(s@[i as int] == *x);
            }
            return true;
        }
        i = i + 1;
    }
    false
}

/// The ports to try, from the candidates found.
pub fn unique_inspector_ports(candidates: Vec<InspectorPortCandidate>) -> (r: Vec<InspectorPort>)
    ensures
        ranked_ports(candidates@, r@),
{
    let ghost orig = candidates@;
    let mut keys: Vec<(u64, u64, u64)> = Vec::new();
    let mut i: usize = 0;
    while i < candidates.len()
        invariant
            i <= candidates.len(),
            keys.len() == i,
            forall|k: int| 0 <= k < i ==> #[trigger] keys@[k] == candidate_key(candidates@[k]),
        decreases candidates.len() - i,
    {
        let c = &candidates[i];
        keys.push((c.priority as u64, c.pid as u64, c.port as u64));
        i = i + 1;
    }
    proof {
        assert(keys@ =~= candidate_keys(orig));
    }
    let sorted = sort_by_keys(candidates, &keys);
    let ghost pairs = sorted@.map_values(|c| candidate_port(c));
    let mut ports: Vec<InspectorPort> = Vec::new();
    let mut i: usize = 0;
    while i < sorted.len()
        invariant
            i <= sorted.len(),
            pairs == sorted@.map_values(|c| candidate_port(c)),
            ports@ == first_occurrences(pairs.take(i as int)),
        decreases sorted.len() - i,
    {
        proof {
            assert(pairs.take(i + 1).drop_last() =~= pairs.take(i as int));
        }
        let p = InspectorPort { pid: sorted[i].pid, port: sorted[i].port };
        if !contains_port(&ports, &p) {
            ports.push(p);
        }
        i = i + 1;
    }
    proof {
        assert(pairs.take(sorted.len() as int) =~= pairs);
        assert(is_stable_sort_of(orig, candidate_keys(orig), sorted@));
    }
    ports
}


proof fn lemma_first_occurrences(s: Seq<InspectorPort>)
    ensures
        forall|i: int, j: int|
            0 <= i < j < first_occurrences(s).len() ==> first_occurrences(s)[i]
                != first_occurrences(s)[j],
        forall|x: InspectorPort| #[trigger] first_occurrences(s).contains(x) <==> s.contains(x),
    decreases s.len(),
{
    if s.len() > 0 {
        let f = first_occurrences(s.drop_last());
        lemma_first_occurrences(s.drop_last());
        assert forall|x: InspectorPort| #[trigger] first_occurrences(s).contains(x) <==> s.contains(
            x,
        ) by {
            if s.contains(x) {
                let k = choose|k: int| 0 <= k < s.len() && s[k] == x;
                if k < s.len() - 1 {
                    assert(s.drop_last()[k] == x);
                    assert(f.contains(x));
                    if !f.contains(s.last()) {
                        let m = choose|m: int| 0 <= m < f.len() && f[m] == x;
                        assert(f.push(s.last())[m] == x);
                    }
                } else if !f.contains(s.last()) {
                    assert(f.push(s.last())[f.len() as int] == x);
                }
            }
            if first_occurrences(s).contains(x) {
                if f.contains(x) {
                    let m = choose|m: int| 0 <= m < s.drop_last().len() && s.drop_last()[m] == x;
                    assert(s[m] == x);
                } else {
                    assert(x == s.last());
                    assert(s[s.len() - 1] == x);
                }
            }
        }
    }
}

proof fn lemma_first_occurrence_positions(s: Seq<InspectorPort>) -> (pos: Seq<int>)
    ensures
        pos.len() == first_occurrences(s).len(),
        forall|i: int|
            0 <= i < pos.len() ==> 0 <= #[trigger] pos[i] < s.len() && s[pos[i]]
                == first_occurrences(s)[i],
        forall|i: int, j: int| 0 <= i < j < pos.len() ==> #[trigger] pos[i] < #[trigger] pos[j],
        forall|i: int, b: int| 0 <= i < pos.len() && 0 <= b < #[trigger] pos[i] ==> #[trigger] s[b]
            != first_occurrences(s)[i],
    decreases s.len(),
{
    if s.len() == 0 {
        Seq::empty()
    } else {
        let t = s.drop_last();
        let p0 = lemma_first_occurrence_positions(t);
        lemma_first_occurrences(t);
        let f = first_occurrences(t);
        if f.contains(s.last()) {
            assert forall|i: int| 0 <= i < p0.len() implies 0 <= #[trigger] p0[i] < s.len() && s[p0[i]]
                == first_occurrences(s)[i] by {
                assert(t[p0[i]] == s[p0[i]]);
            }
            assert forall|i: int, b: int| 0 <= i < p0.len() && 0 <= b < #[trigger] p0[i] implies #[trigger] s[b]
                != first_occurrences(s)[i] by {
                assert(t[b] == s[b]);
            }
            p0
        } else {
            let pos = p0.push(s.len() - 1);
            assert(!t.contains(s.last()));
            assert forall|i: int| 0 <= i < pos.len() implies 0 <= #[trigger] pos[i] < s.len()
                && s[pos[i]] == first_occurrences(s)[i] by {
                if i < p0.len() {
                    assert(pos[i] == p0[i]);
                    assert(t[p0[i]] == s[p0[i]]);
                }
            }
            assert forall|i: int, b: int| 0 <= i < pos.len() && 0 <= b < #[trigger] pos[i] implies #[trigger] s[b]
                != first_occurrences(s)[i] by {
                assert(t[b] == s[b]);
                if i == p0.len() {
                    if s[b] == s.last() {
                        assert(t.contains(s.last()));
                    }
                } else {
                    assert(pos[i] == p0[i]);
                }
            }
            pos
        }
    }
}

/// A candidate with the lowest priority among those that give port `p`.
pub open spec fn best_candidate(candidates: Seq<InspectorPortCandidate>, p: InspectorPort) -> InspectorPortCandidate {
    choose|c: InspectorPortCandidate|
        #[trigger] candidates.contains(c) && candidate_port(c) == p && forall|m: int|
            0 <= m < candidates.len() && candidate_port(#[trigger] candidates[m]) == p ==> c.priority
                <= candidates[m].priority
}

/// Each port is tried at the rank of its best candidate: the ports to try are ordered by the
/// lowest priority that a candidate gives them, then by pid, then by port.
pub proof fn ranked_ports_by_best_priority(
    candidates: Seq<InspectorPortCandidate>,
    out: Seq<InspectorPort>,
)
    requires
        ranked_ports(candidates, out),
        candidates.len() <= usize::MAX,
    ensures
        forall|i: int| 0 <= i < out.len() ==> {
            let b = #[trigger] best_candidate(candidates, out[i]);
            &&& candidates.contains(b)
            &&& candidate_port(b) == out[i]
            &&& forall|m: int|
                0 <= m < candidates.len() && candidate_port(#[trigger] candidates[m]) == out[i]
                    ==> b.priority <= candidates[m].priority
        },
        forall|i: int, j: int|
            0 <= i < j < out.len() ==> crate::order::key_lt(
                candidate_key(#[trigger] best_candidate(candidates, out[i])),
                candidate_key(#[trigger] best_candidate(candidates, out[j])),
            ),
{
    let sorted = choose|sorted: Seq<InspectorPortCandidate>|
        #[trigger] is_stable_sort_of(candidates, candidate_keys(candidates), sorted) && out
            == first_occurrences(sorted.map_values(|c| candidate_port(c)));
    let keys = candidate_keys(candidates);
    let r = choose|r: Seq<usize>|
        crate::order::is_stable_order(keys, r) && sorted.len() == r.len() && forall|a: int|
            0 <= a < sorted.len() ==> #[trigger] sorted[a] == candidates[r[a] as int];
    let pairs = sorted.map_values(|c| candidate_port(c));
    let pos = lemma_first_occurrence_positions(pairs);
    assert(keys.len() == candidates.len());
    // sorted keys never go down
    assert forall|a: int, b: int| 0 <= a < b < sorted.len() implies !crate::order::key_lt(
        candidate_key(#[trigger] sorted[b]),
        candidate_key(#[trigger] sorted[a]),
    ) by {
        assert(crate::order::stable_before(keys, r[a] as int, r[b] as int));
        assert(keys[r[a] as int] == candidate_key(candidates[r[a] as int]));
        assert(keys[r[b] as int] == candidate_key(candidates[r[b] as int]));
    }
    // the first occurrence of a port is a best candidate for it
    assert forall|i: int| 0 <= i < out.len() implies {
        let c = #[trigger] sorted[pos[i]];
        &&& candidates.contains(c)
        &&& candidate_port(c) == out[i]
        &&& forall|m: int|
            0 <= m < candidates.len() && candidate_port(#[trigger] candidates[m]) == out[i]
                ==> c.priority <= candidates[m].priority
    } by {
        let a = pos[i];
        assert(sorted[a] == candidates[r[a] as int]);
        assert(candidates[r[a] as int] == sorted[a]);
        assert(candidates.contains(sorted[a]));
        assert(pairs[a] == candidate_port(sorted[a]));
        assert forall|m: int|
            0 <= m < candidates.len() && candidate_port(#[trigger] candidates[m]) == out[i] implies sorted[a].priority
            <= candidates[m].priority by {
            assert(r.contains(m as usize));
            let b = choose|b: int| 0 <= b < r.len() && r[b] == m as usize;
            assert(sorted[b] == candidates[m]);
            assert(pairs[b] == out[i]);
            if b < a {
                assert(pairs[b] != out[i]);
            } else if b > a {
                assert(!crate::order::key_lt(candidate_key(sorted[b]), candidate_key(sorted[a])));
            }
        }
    }
    assert forall|i: int| 0 <= i < out.len() implies {
        let b = #[trigger] best_candidate(candidates, out[i]);
        &&& candidates.contains(b)
        &&& candidate_port(b) == out[i]
        &&& forall|m: int|
            0 <= m < candidates.len() && candidate_port(#[trigger] candidates[m]) == out[i]
                ==> b.priority <= candidates[m].priority
    } by {
        let c = sorted[pos[i]];
        assert(candidates.contains(c) && candidate_port(c) == out[i]);
    }
    assert forall|i: int, j: int| 0 <= i < j < out.len() implies crate::order::key_lt(
        candidate_key(#[trigger] best_candidate(candidates, out[i])),
        candidate_key(#[trigger] best_candidate(candidates, out[j])),
    ) by {
        let bi = best_candidate(candidates, out[i]);
        let bj = best_candidate(candidates, out[j]);
        let ci = sorted[pos[i]];
        let cj = sorted[pos[j]];
        // both best: same priority
        let mi = choose|m: int| 0 <= m < candidates.len() && candidates[m] == bi;
        let mj = choose|m: int| 0 <= m < candidates.len() && candidates[m] == bj;
        let ni = choose|m: int| 0 <= m < candidates.len() && candidates[m] == ci;
        let nj = choose|m: int| 0 <= m < candidates.len() && candidates[m] == cj;
        assert(candidate_port(candidates[ni]) == out[i]);
        assert(candidate_port(candidates[nj]) == out[j]);
        assert(candidate_port(candidates[mi]) == out[i]);
        assert(candidate_port(candidates[mj]) == out[j]);
        assert(bi.priority == ci.priority);
        assert(bj.priority == cj.priority);
        assert(pos[i] < pos[j]);
        assert(!crate::order::key_lt(candidate_key(cj), candidate_key(ci)));
        lemma_first_occurrences(pairs);
        assert(out[i] != out[j]);
    }
}

/// The ports to try name each (pid, port) that a candidate gives exactly once, and nothing
/// else.
pub proof fn ranked_ports_once_each(candidates: Seq<InspectorPortCandidate>, out: Seq<InspectorPort>)
    requires
        ranked_ports(candidates, out),
    ensures
        forall|i: int, j: int| 0 <= i < j < out.len() ==> out[i] != out[j],
        forall|k: usize|
            (k as int) < candidates.len() ==> out.contains(candidate_port(#[trigger] candidates[k as int])),
        forall|i: int| 0 <= i < out.len() ==> exists|k: int|
            0 <= k < candidates.len() && candidate_port(#[trigger] candidates[k]) == #[trigger] out[i],
{
    let sorted = choose|sorted: Seq<InspectorPortCandidate>|
        #[trigger] is_stable_sort_of(candidates, candidate_keys(candidates), sorted) && out
            == first_occurrences(sorted.map_values(|c| candidate_port(c)));
    let keys = candidate_keys(candidates);
    let r = choose|r: Seq<usize>|
        crate::order::is_stable_order(keys, r) && sorted.len() == r.len() && forall|a: int|
            0 <= a < sorted.len() ==> #[trigger] sorted[a] == candidates[r[a] as int];
    let pairs = sorted.map_values(|c| candidate_port(c));
    lemma_first_occurrences(pairs);
    assert forall|k: usize| (k as int) < candidates.len() implies out.contains(
        candidate_port(#[trigger] candidates[k as int]),
    ) by {
        assert(keys.len() == candidates.len());
        assert(r.contains(k));
        let a = choose|a: int| 0 <= a < r.len() && r[a] == k;
        assert(0 <= a < sorted.len());
        assert(sorted[a] == candidates[r[a] as int]);
        assert(pairs[a] == candidate_port(candidates[k as int]));
        assert(pairs.contains(candidate_port(candidates[k as int])));
    }
    assert forall|i: int| 0 <= i < out.len() implies exists|k: int|
        0 <= k < candidates.len() && candidate_port(#[trigger] candidates[k]) == #[trigger] out[i] by {
        assert(out.contains(out[i]));
        assert(pairs.contains(out[i]));
        let a = choose|a: int| 0 <= a < pairs.len() && pairs[a] == out[i];
        let k = r[a] as int;
        assert(sorted[a] == candidates[k]);
        assert(candidate_port(candidates[k]) == out[i]);
    }
}

} // verus!
