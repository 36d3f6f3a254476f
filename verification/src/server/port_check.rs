//! Who holds the port that the server wants.

use vstd::prelude::*;
use vstd::string::*;

use crate::text::{
    chars_of, decimal, decimal_text, field_ranges, fields, find_char, first_at, join3,
    parse_unsigned, range_is, same_text, split, split_once, split_ranges, unsigned, Separator,
};

verus! {

/// What came of a trial connection to the port.
#[derive(Clone, Copy, Debug, PartialEq, Eq, Structural)]
pub enum Probe {
    Accepted,
    Refused,
    /// It failed otherwise, or took too long.
    Unclear,
}

/// A socket on the port.
#[derive(Debug)]
pub struct PortUse {
    pub state: String,
    pub inode: String,
}

/// What is known of the port.
#[derive(Debug)]
pub struct PortReport {
    /// Somebody accepts connections on it.
    pub answered: bool,
    /// The sockets on it.
    pub sockets: Vec<PortUse>,
}

/// An upper-case hexadecimal digit.
pub open spec fn hex_digit(d: int) -> char {
    if d < 10 {
        (d + 48) as char
    } else {
        (d + 55) as char
    }
}

/// A port as four upper-case hexadecimal digits.
pub open spec fn hex4(port: u16) -> Seq<char> {
    seq![
        hex_digit(port as int / 4096),
        hex_digit(port as int / 256 % 16),
        hex_digit(port as int / 16 % 16),
        hex_digit(port as int % 16),
    ]
}

/// Name of a socket's state; unknown states stand for themselves.
pub open spec fn state_name(state: Seq<char>) -> Seq<char> {
    if state == "0A"@ {
        "LISTEN"@
    } else if state == "01"@ {
        "ESTABLISHED"@
    } else if state == "06"@ {
        "TIME_WAIT"@
    } else if state == "08"@ {
        "CLOSE_WAIT"@
    } else {
        state
    }
}

/// What stands behind the first colon, up to the second.
pub open spec fn port_part(address: Seq<char>) -> Option<Seq<char>> {
    match split_once(address, ':') {
        Some((_, rest)) => Some(rest.take(first_at(rest, ':'))),
        None => None,
    }
}

/// The state and inode of the socket that a row of the table describes, if it is on
/// the port.
pub open spec fn row_use(row: Seq<char>, port: u16) -> Option<(Seq<char>, Seq<char>)> {
    let words = fields(row);
    if words.len() >= 10 && port_part(words[1]) == Some(hex4(port)) {
        Some((state_name(words[3]), words[9]))
    } else {
        None
    }
}

/// The sockets on the port that rows of the table describe, in order.
pub open spec fn uses_in(rows: Seq<Seq<char>>, port: u16) -> Seq<(Seq<char>, Seq<char>)>
    decreases rows.len(),
{
    if rows.len() == 0 {
        seq![]
    } else {
        match row_use(rows.last(), port) {
            Some(u) => uses_in(rows.drop_last(), port).push(u),
            None => uses_in(rows.drop_last(), port),
        }
    }
}

/// The sockets on the port that the kernel's table describes. Its first line is a
/// heading.
pub open spec fn uses_in_table(table: Seq<char>, port: u16) -> Seq<(Seq<char>, Seq<char>)> {
    uses_in(split(table, Separator::Char('\n')).skip(1), port)
}

/// The texts of sockets.
pub open spec fn texts(sockets: Seq<PortUse>) -> Seq<(Seq<char>, Seq<char>)> {
    sockets.map_values(|u: PortUse| (u.state@, u.inode@))
}

fn hex_char(d: u16) -> (r: char)
    requires
        d < 16,
    ensures
        r == hex_digit(d as int),
{
    let n: u8 = d as u8;
    if n < 10 {
        (n + 48) as char
    } else {
        (n + 55) as char
    }
}

fn hex_chars(port: u16) -> (r: Vec<char>)
    ensures
        r@ == hex4(port),
{
    let mut r: Vec<char> = Vec::new();
    r.push(hex_char(port / 4096));
    r.push(hex_char(port / 256 % 16));
    r.push(hex_char(port / 16 % 16));
    r.push(hex_char(port % 16));
    assert(r@ =~= hex4(port));
    r
}

fn named_state(state: &str) -> (r: String)
    ensures
        r@ == state_name(state@),
{
    if same_text(state, "0A") {
        "LISTEN".to_owned()
    } else if same_text(state, "01") {
        "ESTABLISHED".to_owned()
    } else if same_text(state, "06") {
        "TIME_WAIT".to_owned()
    } else if same_text(state, "08") {
        "CLOSE_WAIT".to_owned()
    } else {
        state.to_owned()
    }
}

/// Whether the address `chars[from .. to]` has the port.
fn on_port(chars: &Vec<char>, from: usize, to: usize, wanted: &Vec<char>) -> (r: bool)
    requires
        from <= to <= chars@.len(),
    ensures
        r == (port_part(chars@.subrange(from as int, to as int)) == Some(wanted@)),
{
    let ghost address = chars@.subrange(from as int, to as int);
    let colon: usize = find_char(chars, from, to, ':');
    if colon == to {
        return false;
    }
    let start: usize = colon + 1;
    let end: usize = find_char(chars, start, to, ':');
    proof {
        let rest = chars@.subrange(start as int, to as int);
        assert(address.skip(colon - from + 1) =~= rest);
        assert(rest.take(end - start) =~= chars@.subrange(start as int, end as int));
    }
    range_is(chars, start, end, wanted)
}

/// The sockets on a port that the kernel's table of TCP sockets lists.
pub fn sockets_on_port(table: &str, port: u16) -> (r: Vec<PortUse>)
    ensures
        texts(r@) == uses_in_table(table@, port),
{
    let chars = chars_of(table);
    let wanted = hex_chars(port);
    let n: usize = chars.len();
    let rows = split_ranges(&chars, 0, n, Separator::Char('\n'));
    let ghost all = split(table@, Separator::Char('\n'));
    let mut r: Vec<PortUse> = Vec::new();
    let mut k: usize = 1;
    proof {
        assert(chars@.subrange(0, n as int) =~= table@);
        crate::text::lemma_split_not_empty(table@, Separator::Char('\n'));
        assert(all.skip(1).take(0) =~= Seq::<Seq<char>>::empty());
        assert(texts(r@) =~= seq![]);
    }
    while k < rows.len()
        invariant
            1 <= k <= rows@.len(),
            rows@.len() == all.len(),
            chars@ == table@,
            n == chars@.len(),
            wanted@ == hex4(port),
            forall|j: int|
                0 <= j < rows@.len() ==> {
                    &&& 0 <= (#[trigger] rows@[j]).0 <= rows@[j].1 <= n
                    &&& chars@.subrange(rows@[j].0 as int, rows@[j].1 as int) == all[j]
                },
            texts(r@) == uses_in(all.skip(1).take(k - 1), port),
        decreases rows@.len() - k,
    {
        let row: (usize, usize) = rows[k];
        let words = field_ranges(&chars, row.0, row.1);
        let ghost so_far = all.skip(1).take(k as int);
        proof {
            assert(so_far.drop_last() =~= all.skip(1).take(k - 1));
            assert(so_far.last() == all[k as int]);
        }
        if words.len() >= 10 {
            let address: (usize, usize) = words[1];
            let state: (usize, usize) = words[3];
            let inode: (usize, usize) = words[9];
            if on_port(&chars, address.0, address.1, &wanted) {
                let u = PortUse {
                    state: named_state(table.substring_char(state.0, state.1)),
                    inode: table.substring_char(inode.0, inode.1).to_owned(),
                };
                let ghost before = r@;
                r.push(u);
                assert(texts(r@) =~= texts(before).push((u.state@, u.inode@)));
            }
        }
        k += 1;
    }
    proof {
        assert(all.skip(1).take(rows@.len() - 1) =~= all.skip(1));
    }
    r
}

/// What a trial connection and the kernel's table, where it can be read, say of a
/// port. A port that refuses connections is free, and the table is not looked at.
pub fn check_port_available(probe: Probe, table: Option<&str>, port: u16) -> (r: PortReport)
    ensures
        r.answered == (probe == Probe::Accepted),
        texts(r.sockets@) == (match table {
            Some(t) => if probe == Probe::Refused {
                seq![]
            } else {
                uses_in_table(t@, port)
            },
            None => seq![],
        }),
{
    let none: Vec<PortUse> = Vec::new();
    assert(texts(none@) =~= seq![]);
    match probe {
        Probe::Refused => PortReport { answered: false, sockets: none },
        Probe::Accepted => PortReport {
            answered: true,
            sockets: match table {
                Some(t) => sockets_on_port(t, port),
                None => none,
            },
        },
        Probe::Unclear => PortReport {
            answered: false,
            sockets: match table {
                Some(t) => sockets_on_port(t, port),
                None => none,
            },
        },
    }
}

/// What a descriptor of a process points to where it is the socket of that inode.
pub fn socket_target(inode: &str) -> (r: String)
    ensures
        r@ == "socket:["@ + inode@ + "]"@,
{
    join3("socket:[", inode, "]")
}

/// The process that an entry of the process directory stands for, if it is one.
pub fn process_id(entry: &str) -> (r: Option<u32>)
    ensures
        r == (match unsigned(entry@, u32::MAX as nat) {
            Some(n) => Some(n as u32),
            None => None,
        }),
{
    let chars = chars_of(entry);
    let n: usize = chars.len();
    assert(chars@.subrange(0, n as int) =~= entry@);
    match parse_unsigned(&chars, 0, n, u32::MAX as u64) {
        Some(v) => Some(v as u32),
        None => None,
    }
}

/// What to report of a socket on the port.
pub fn describe(port: u16, socket: &PortUse, holder: Option<(u32, String)>) -> (r: String)
    ensures
        r@ == (match holder {
            Some((pid, name)) => "Port "@ + decimal(port as nat) + " is held by process '"@
                + name@ + "' (PID "@ + decimal(pid as nat) + ") in state "@ + socket.state@,
            None => "Port "@ + decimal(port as nat) + " is in use (state: "@ + socket.state@
                + ", inode: "@ + socket.inode@ + ")"@,
        }),
{
    let number = decimal_text(port as u64);
    match holder {
        Some((pid, name)) => {
            let process = decimal_text(pid as u64);
            let mut r = join3("Port ", number.as_str(), " is held by process '");
            r.append(name.as_str());
            r.append("' (PID ");
            r.append(process.as_str());
            r.append(") in state ");
            r.append(socket.state.as_str());
            r
        },
        None => {
            let mut r = join3("Port ", number.as_str(), " is in use (state: ");
            r.append(socket.state.as_str());
            r.append(", inode: ");
            r.append(socket.inode.as_str());
            r.append(")");
            r
        },
    }
}

/// The digit of a number is the one whose place among the digits it is.
pub proof fn law_hex_digits(d: int)
    requires
        0 <= d < 16,
    ensures
        d < 10 ==> hex_digit(d) as int == '0' as int + d,
        d >= 10 ==> hex_digit(d) as int == 'A' as int + (d - 10),
{
}

/// What a digit counts.
pub open spec fn hex_value(c: char) -> int {
    if c <= '9' {
        c as int - '0' as int
    } else {
        c as int - 'A' as int + 10
    }
}

proof fn lemma_hex_value(d: int)
    requires
        0 <= d < 16,
    ensures
        hex_value(hex_digit(d)) == d,
        '0' <= hex_digit(d) <= '9' || 'A' <= hex_digit(d) <= 'F',
{
    law_hex_digits(d);
}

/// A port is written as the four digits whose value it is in base sixteen, in capitals.
pub proof fn law_port_in_hexadecimal(port: u16, i: int)
    requires
        0 <= i < 4,
    ensures
        hex4(port).len() == 4,
        '0' <= hex4(port)[i] <= '9' || 'A' <= hex4(port)[i] <= 'F',
        hex_value(hex4(port)[0]) * 4096 + hex_value(hex4(port)[1]) * 256 + hex_value(hex4(port)[2])
            * 16 + hex_value(hex4(port)[3]) == port,
{
    let p = port as int;
    let s = hex4(port);
    lemma_base_sixteen(p);
    lemma_hex_value(p / 4096);
    lemma_hex_value(p / 256 % 16);
    lemma_hex_value(p / 16 % 16);
    lemma_hex_value(p % 16);
    assert(s[0] == hex_digit(p / 4096));
    assert(s[1] == hex_digit(p / 256 % 16));
    assert(s[2] == hex_digit(p / 16 % 16));
    assert(s[3] == hex_digit(p % 16));
    assert(i == 0 || i == 1 || i == 2 || i == 3);
}

proof fn lemma_base_sixteen(p: int)
    requires
        0 <= p < 65536,
    ensures
        p / 4096 * 4096 + p / 256 % 16 * 256 + p / 16 % 16 * 16 + p % 16 == p,
        0 <= p / 4096 < 16,
{
    let a = p / 16;
    let b = a / 16;
    assert(p == a * 16 + p % 16);
    assert(a == b * 16 + a % 16);
    assert(b == b / 16 * 16 + b % 16);
    assert(p / 256 == b);
    assert(p / 4096 == b / 16);
}

/// The states of which people know the name are called by it.
pub proof fn law_state_names(state: Seq<char>)
    ensures
        state_name("0A"@) == "LISTEN"@,
        state_name("01"@) == "ESTABLISHED"@,
        state_name("06"@) == "TIME_WAIT"@,
        state_name("08"@) == "CLOSE_WAIT"@,
        state != "0A"@ && state != "01"@ && state != "06"@ && state != "08"@ ==> state_name(state)
            == state,
{
    reveal_strlit("0A");
    reveal_strlit("01");
    reveal_strlit("06");
    reveal_strlit("08");
    assert("0A"@[1] == 'A' && "01"@[1] == '1' && "06"@[1] == '6' && "08"@[1] == '8');
}

/// The port of an address stands behind its colon.
pub proof fn law_port_of_address(host: Seq<char>, port: Seq<char>)
    requires
        !host.contains(':'),
        !port.contains(':'),
    ensures
        port_part(host.push(':') + port) == Some(port),
        port_part(host) is None,
{
    crate::text::law_split_once(host, ':', port);
    crate::text::law_split_once(port, ':', seq![]);
    assert(port.take(port.len() as int) =~= port);
}

/// A row counts exactly where it has the table's columns and its local address, in the
/// second, is on the port; its state stands in the fourth and its inode in the tenth.
pub proof fn law_row_of_the_table(
    row: Seq<char>,
    words: Seq<Seq<char>>,
    host: Seq<char>,
    digits: Seq<char>,
    port: u16,
)
    requires
        fields(row) == words,
        words.len() >= 10,
        words[1] == host.push(':') + digits,
        !host.contains(':'),
        !digits.contains(':'),
    ensures
        row_use(row, port) is Some <==> digits == hex4(port),
        row_use(row, port) is Some ==> row_use(row, port) == Some((state_name(words[3]), words[9])),
{
    law_port_of_address(host, digits);
}

/// Rows are read one by one and in order, and a row that is too short is passed over.
pub proof fn law_rows_are_read_in_order(rows: Seq<Seq<char>>, row: Seq<char>, port: u16)
    ensures
        uses_in(Seq::<Seq<char>>::empty(), port).len() == 0,
        row_use(row, port) is Some ==> uses_in(rows.push(row), port) == uses_in(rows, port).push(
            row_use(row, port)->0,
        ),
        row_use(row, port) is None ==> uses_in(rows.push(row), port) == uses_in(rows, port),
        fields(row).len() < 10 ==> row_use(row, port) is None,
{
    assert(rows.push(row).drop_last() =~= rows);
}

/// The heading of the table is not a row of it.
pub proof fn law_heading_is_not_a_row(heading: Seq<char>, body: Seq<char>, port: u16)
    requires
        !heading.contains('\n'),
    ensures
        uses_in_table(heading.push('\n') + body, port) == uses_in(
            split(body, Separator::Char('\n')),
            port,
        ),
        uses_in_table(heading, port).len() == 0,
{
    let sep = Separator::Char('\n');
    crate::text::law_split_parts(heading, '\n', body, sep);
    assert((seq![heading] + split(body, sep)).skip(1) =~= split(body, sep));
    assert(seq![heading].skip(1) =~= Seq::<Seq<char>>::empty());
}

} // verus!
