//! The checks made on the user's configuration: port numbers and the
//! privileges a technique needs.
use vstd::prelude::*;

use crate::error::ScanError;
use crate::scan::{ScanType, Technique};

verus! {

/// Whether every character is an ASCII digit.
pub open spec fn all_digits(s: Seq<char>) -> bool {
    forall|i: int| 0 <= i < s.len() ==> '0' <= #[trigger] s[i] <= '9'
}

/// The value of a string of decimal digits.
pub open spec fn digits_value(s: Seq<char>) -> int
    decreases s.len(),
{
    if s.len() == 0 {
        0
    } else {
        digits_value(s.drop_last()) * 10 + (s.last() as int - '0' as int)
    }
}

/// The port a text names: an optional `+`, then one or more decimal digits
/// whose value is at most 65535.
pub open spec fn port_of_text(s: Seq<char>) -> Option<u16> {
    let d = if s.len() > 0 && s[0] == '+' {
        s.drop_first()
    } else {
        s
    };
    if d.len() > 0 && all_digits(d) && digits_value(d) <= u16::MAX {
        Some(digits_value(d) as u16)
    } else {
        None
    }
}

/// Relies on `str::parse::<u16>`: an optional `+` followed by decimal
/// digits whose value fits in a u16 parses to that value; any other text
/// is an error.
#[verifier::external_body]
fn parse_u16(s: &str) -> (r: Option<u16>)
    ensures
        r == port_of_text(s@),
{
    s.parse::<u16>().ok()
}

/// A port number given by the user.
pub fn parse_port(raw: &str) -> (r: Result<u16, ScanError>)
    ensures
        match port_of_text(raw@) {
            Some(p) => r == Ok::<u16, ScanError>(p),
            None => r matches Err(ScanError::InvalidPort(t)) && t@ == raw@,
        },
{
    match parse_u16(raw) {
        Some(p) => Ok(p),
        None => Err(ScanError::InvalidPort(raw.to_owned())),
    }
}

/// The port numbers given by the user, in order; the first text that is no
/// port number is the error.
pub fn parse_ports(raws: &Vec<String>) -> (r: Result<Vec<u16>, ScanError>)
    ensures
        (forall|i: int| 0 <= i < raws@.len() ==> port_of_text(#[trigger] raws@[i]@) is Some) ==> (r matches Ok(ps)
            && ps@.len() == raws@.len() && forall|i: int|
            0 <= i < raws@.len() ==> Some(#[trigger] ps@[i]) == port_of_text(raws@[i]@)),
        (exists|i: int| 0 <= i < raws@.len() && port_of_text(#[trigger] raws@[i]@) is None) ==> r is Err,
        r matches Err(e) ==> exists|k: int|
            0 <= k < raws@.len() && port_of_text(#[trigger] raws@[k]@) is None && (forall|i: int|
                0 <= i < k ==> port_of_text(#[trigger] raws@[i]@) is Some) && (e matches ScanError::InvalidPort(t)
                && t@ == raws@[k]@),
{
    let mut ps: Vec<u16> = Vec::new();
    let mut i: usize = 0;
    while i < raws.len()
        invariant
            i <= raws@.len(),
            ps@.len() == i,
            forall|j: int| 0 <= j < i ==> Some(#[trigger] ps@[j]) == port_of_text(raws@[j]@),
        decreases raws@.len() - i,
    {
        match parse_port(raws[i].as_str()) {
            Ok(p) => ps.push(p),
            Err(e) => {
                assert(forall|j: int| 0 <= j < i ==> port_of_text(#[trigger] raws@[j]@) is Some) by {
                    assert forall|j: int| 0 <= j < i implies port_of_text(#[trigger] raws@[j]@) is Some by {
                        assert(Some(ps@[j]) == port_of_text(raws@[j]@));
                    }
                }
                assert(port_of_text(raws@[i as int]@) is None);
                return Err(e);
            },
        }
        i = i + 1;
    }
    assert forall|j: int| 0 <= j < raws@.len() implies port_of_text(#[trigger] raws@[j]@) is Some by {
        assert(Some(ps@[j]) == port_of_text(raws@[j]@));
    }
    Ok(ps)
}

/// Whether some technique is a SYN scan.
pub open spec fn needs_superuser(ts: Seq<Technique>) -> bool {
    exists|i: int| 0 <= i < ts.len() && ts[i].kind is Syn
}

/// A SYN scan needs superuser rights; `superuser` says whether the process
/// has them.
pub fn check_privileges(techniques: &Vec<Technique>, superuser: bool) -> (r: Result<(), ScanError>)
    ensures
        (r is Ok) <==> (superuser || !needs_superuser(techniques@)),
        r matches Err(e) ==> e matches ScanError::NormalUserRequired,
{
    if superuser {
        return Ok(());
    }
    let mut i: usize = 0;
    while i < techniques.len()
        invariant
            i <= techniques@.len(),
            !superuser,
            forall|j: int| 0 <= j < i ==> !(#[trigger] techniques@[j].kind is Syn),
        decreases techniques@.len() - i,
    {
        if let ScanType::Syn = techniques[i].kind {
            assert(techniques@[i as int].kind is Syn);
            return Err(ScanError::NormalUserRequired);
        }
        i = i + 1;
    }
    Ok(())
}

} // verus!
