//! Rendering a snapshot as the two display strings the presence service
//! shows: the details line naming the active file and the state line with
//! the aggregate counts.

use vstd::prelude::*;
use vstd::string::StringExecFns;
use crate::session::DiscordData;

verus! {

/// The decimal digit for a value below ten.
pub open spec fn digit_char(d: int) -> char {
    if d == 0 {
        '0'
    } else if d == 1 {
        '1'
    } else if d == 2 {
        '2'
    } else if d == 3 {
        '3'
    } else if d == 4 {
        '4'
    } else if d == 5 {
        '5'
    } else if d == 6 {
        '6'
    } else if d == 7 {
        '7'
    } else if d == 8 {
        '8'
    } else {
        '9'
    }
}

/// The decimal writing of a non-negative number.
pub open spec fn dec_str(n: int) -> Seq<char>
    decreases n,
{
    if n < 10 {
        seq![digit_char(n)]
    } else {
        dec_str(n / 10).push(digit_char(n % 10))
    }
}

fn digit_str(d: u32) -> (r: &'static str)
    requires
        d < 10,
    ensures
        r@ == seq![digit_char(d as int)],
{
    proof {
        reveal_strlit("0");
        reveal_strlit("1");
        reveal_strlit("2");
        reveal_strlit("3");
        reveal_strlit("4");
        reveal_strlit("5");
        reveal_strlit("6");
        reveal_strlit("7");
        reveal_strlit("8");
        reveal_strlit("9");
    }
    let r = if d == 0 {
        "0"
    } else if d == 1 {
        "1"
    } else if d == 2 {
        "2"
    } else if d == 3 {
        "3"
    } else if d == 4 {
        "4"
    } else if d == 5 {
        "5"
    } else if d == 6 {
        "6"
    } else if d == 7 {
        "7"
    } else if d == 8 {
        "8"
    } else {
        "9"
    };
    proof {
        assert(r@ =~= seq![digit_char(d as int)]);
    }
    r
}

/// The decimal writing of a number, most significant digit first.
pub fn u32_dec(n: u32) -> (r: String)
    ensures
        r@ == dec_str(n as int),
    decreases n,
{
    if n < 10 {
        let mut s = String::new();
        s.append(digit_str(n));
        proof {
            assert(s@ =~= seq![digit_char(n as int)]);
        }
        s
    } else {
        let mut s = u32_dec(n / 10);
        s.append(digit_str(n % 10));
        proof {
            assert((n / 10) as int == (n as int) / 10);
            assert((n % 10) as int == (n as int) % 10);
            assert(s@ =~= dec_str((n as int) / 10).push(digit_char((n as int) % 10)));
        }
        s
    }
}

/// The details line: the active file's name, or idleness.
pub fn presence_details(filename: &Option<String>) -> (r: String)
    ensures
        filename matches Some(name) ==> r@ == "Editing "@ + name@,
        filename is None ==> r@ == "Idling"@,
{
    match filename {
        Option::Some(name) => {
            let mut s = "Editing ".to_owned();
            s.append(name.as_str());
            s
        },
        Option::None => "Idling".to_owned(),
    }
}

/// The state line's text for the given counts.
pub open spec fn spec_state_line(additions: int, deletions: int, num_files: int) -> Seq<char> {
    dec_str(additions) + " additions, "@ + dec_str(deletions) + " deletions in "@ + dec_str(
        num_files,
    ) + " files"@
}

/// The state line: the aggregate counts, written out.
pub fn presence_state_line(additions: u32, deletions: u32, num_files: u32) -> (r: String)
    ensures
        r@ == spec_state_line(additions as int, deletions as int, num_files as int),
{
    let mut s = u32_dec(additions);
    s.append(" additions, ");
    let d = u32_dec(deletions);
    s.append(d.as_str());
    s.append(" deletions in ");
    let f = u32_dec(num_files);
    s.append(f.as_str());
    s.append(" files");
    s
}

/// Both display strings for one snapshot.
pub fn render_presence(data: &DiscordData) -> (r: (String, String))
    ensures
        data@.filename matches Some(name) ==> r.0@ == "Editing "@ + name,
        data@.filename is None ==> r.0@ == "Idling"@,
        r.1@ == spec_state_line(data@.additions, data@.deletions, data@.num_files),
{
    let details = presence_details(&data.filename);
    let state = presence_state_line(data.additions, data.deletions, data.num_files);
    (details, state)
}

} // verus!
