//! The text table of a sweep's reported ports.
use vstd::prelude::*;
use vstd::string::*;

use pad::PadStr;

use crate::scan::{PortResult, PortState, ScanType};

verus! {

/// Whether every character is printable ASCII, one column wide.
pub open spec fn printable(s: Seq<char>) -> bool {
    forall|i: int| 0 <= i < s.len() ==> ' ' <= #[trigger] s[i] <= '~'
}

/// `s` with spaces appended up to `width` characters; a longer `s` stays as it is.
pub open spec fn padded(s: Seq<char>, width: nat) -> Seq<char> {
    if s.len() >= width {
        s
    } else {
        s + Seq::new((width - s.len()) as nat, |i: int| ' ')
    }
}

/// The decimal digit `d`.
pub open spec fn digit_char(d: nat) -> char {
    if d == 0 {
        '0'
    } else if d == 1 {
        '1'
    } else if d == 2 {
        '2'
    } else if d == 3 {
        '3'
    } else if d == 4 {
        '4'
    } else if d == 5 {
        '5'
    } else if d == 6 {
        '6'
    } else if d == 7 {
        '7'
    } else if d == 8 {
        '8'
    } else {
        '9'
    }
}

/// The decimal form of `n`, without leading zeros.
pub open spec fn decimal(n: nat) -> Seq<char>
    decreases n,
{
    if n < 10 {
        seq![digit_char(n)]
    } else {
        decimal(n / 10) + seq![digit_char(n % 10)]
    }
}

/// The name of a reported state.
pub open spec fn state_label(s: PortState) -> Seq<char> {
    match s {
        PortState::Open => "open"@,
        PortState::Filtered => "filtered"@,
        _ => "unknown"@,
    }
}

/// The name of a technique.
pub open spec fn kind_label(k: ScanType) -> Seq<char> {
    match k {
        ScanType::Tcp => "TCP scan"@,
        ScanType::Syn => "TCP SYN scan"@,
        ScanType::Udp => "UDP scan"@,
    }
}

/// One line of the table: the port in 8 columns, the state in 11, then
/// the technique.
pub open spec fn row(pr: PortResult) -> Seq<char> {
    padded(decimal(pr.port as nat), 8) + padded(state_label(pr.state), 11) + kind_label(pr.kind)
        + seq!['\n']
}

/// One line per result, in order.
pub open spec fn rows(ports: Seq<PortResult>) -> Seq<char>
    decreases ports.len(),
{
    if ports.len() == 0 {
        seq![]
    } else {
        rows(ports.drop_last()) + row(ports.last())
    }
}

/// The table: a header and one line per port, or a note that none was found.
pub open spec fn table(ports: Seq<PortResult>) -> Seq<char> {
    if ports.len() == 0 {
        "Didn't find any open port.\n"@
    } else {
        "Port    State      Scan Method\n"@ + rows(ports)
    }
}

/// Relies on pad::PadStr::pad_to_width: the text's columns are counted
/// with unicode-width, one per printable ASCII character, and spaces are
/// appended up to `width` columns; a text as wide or wider comes back as it is.
#[verifier::external_body]
fn pad_right(s: &str, width: usize) -> (r: String)
    requires
        printable(s@),
    ensures
        r@ == padded(s@, width as nat),
{
    s.pad_to_width(width)
}

fn digit_str(d: u16) -> (r: &'static str)
    requires
        d < 10,
    ensures
        r@ == seq![digit_char(d as nat)],
{
    proof {
        reveal_strlit("0");
        reveal_strlit("1");
        reveal_strlit("2");
        reveal_strlit("3");
        reveal_strlit("4");
        reveal_strlit("5");
        reveal_strlit("6");
        reveal_strlit("7");
        reveal_strlit("8");
        reveal_strlit("9");
    }
    if d == 0 {
        "0"
    } else if d == 1 {
        "1"
    } else if d == 2 {
        "2"
    } else if d == 3 {
        "3"
    } else if d == 4 {
        "4"
    } else if d == 5 {
        "5"
    } else if d == 6 {
        "6"
    } else if d == 7 {
        "7"
    } else if d == 8 {
        "8"
    } else {
        "9"
    }
}

proof fn lemma_decimal_printable(n: nat)
    ensures
        printable(decimal(n)),
    decreases n,
{
    if n >= 10 {
        lemma_decimal_printable(n / 10);
    }
}

fn append_decimal(out: &mut String, n: u16)
    ensures
        final(out)@ == old(out)@ + decimal(n as nat),
    decreases n,
{
    if n >= 10 {
        append_decimal(out, n / 10);
    }
    out.append(digit_str(n % 10));
    assert(final(out)@ =~= old(out)@ + decimal(n as nat));
}

fn row_text(pr: &PortResult) -> (r: String)
    requires
        !(pr.state is _Closed),
    ensures
        r@ == row(*pr),
{
    proof {
        reveal_strlit("open");
        reveal_strlit("filtered");
        reveal_strlit("unknown");
        reveal_strlit("\n");
    }
    let mut port = String::new();
    append_decimal(&mut port, pr.port);
    proof {
        lemma_decimal_printable(pr.port as nat);
    }
    let mut line = pad_right(port.as_str(), 8);
    let state = pr.state.label();
    assert(state@ == state_label(pr.state));
    let state_col = pad_right(state, 11);
    line.append(state_col.as_str());
    line.append(pr.kind.label());
    line.append("\n");
    assert(line@ =~= row(*pr));
    line
}

/// The table of `ports`, none of them closed.
pub fn render_ports(ports: &Vec<PortResult>) -> (r: String)
    requires
        forall|i: int| 0 <= i < ports@.len() ==> !(#[trigger] ports@[i].state is _Closed),
    ensures
        r@ == table(ports@),
{
    if ports.len() == 0 {
        return String::from_str("Didn't find any open port.\n");
    }
    let mut out = String::from_str("Port    State      Scan Method\n");
    let ghost head = out@;
    let mut i: usize = 0;
    while i < ports.len()
        invariant
            i <= ports@.len(),
            ports@.len() > 0,
            head == "Port    State      Scan Method\n"@,
            forall|j: int| 0 <= j < ports@.len() ==> !(#[trigger] ports@[j].state is _Closed),
            out@ == head + rows(ports@.take(i as int)),
        decreases ports@.len() - i,
    {
        let line = row_text(&ports[i]);
        out.append(line.as_str());
        assert(ports@.take(i + 1).drop_last() =~= ports@.take(i as int));
        assert(out@ =~= head + rows(ports@.take(i + 1)));
        i = i + 1;
    }
    assert(ports@.take(i as int) =~= ports@);
    out
}

} // verus!
