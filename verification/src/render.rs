//! Text rendering for server-to-client notifications: decimal rendering of
//! identities, the fixed notification strings, and the textual form of a
//! relayed reading.
use vstd::prelude::*;
use crate::relay_server::Reading;

verus! {

/// The decimal digit character for `d` (meaningful for `d < 10`).
pub open spec fn dec_digit(d: nat) -> char {
    if d == 0 {
        '0'
    } else if d == 1 {
        '1'
    } else if d == 2 {
        '2'
    } else if d == 3 {
        '3'
    } else if d == 4 {
        '4'
    } else if d == 5 {
        '5'
    } else if d == 6 {
        '6'
    } else if d == 7 {
        '7'
    } else if d == 8 {
        '8'
    } else {
        '9'
    }
}

/// The usual decimal rendering of `n`, most significant digit first, no
/// leading zeros (just "0" for zero).
pub open spec fn spec_dec(n: nat) -> Seq<char>
    decreases n,
{
    if n < 10 {
        seq![dec_digit(n)]
    } else {
        spec_dec(n / 10).push(dec_digit(n % 10))
    }
}

fn digit_str(d: u64) -> (r: &'static str)
    requires
        d < 10,
    ensures
        r@ == seq![dec_digit(d as nat)],
{
    proof {
        reveal_strlit("0");
        reveal_strlit("1");
        reveal_strlit("2");
        reveal_strlit("3");
        reveal_strlit("4");
        reveal_strlit("5");
        reveal_strlit("6");
        reveal_strlit("7");
        reveal_strlit("8");
        reveal_strlit("9");
    }
    let r: &'static str = if d == 0 {
        "0"
    } else if d == 1 {
        "1"
    } else if d == 2 {
        "2"
    } else if d == 3 {
        "3"
    } else if d == 4 {
        "4"
    } else if d == 5 {
        "5"
    } else if d == 6 {
        "6"
    } else if d == 7 {
        "7"
    } else if d == 8 {
        "8"
    } else {
        "9"
    };
    proof {
        assert(r@ =~= seq![dec_digit(d as nat)]);
    }
    r
}

/// Render `n` in decimal.
pub fn u64_to_dec(n: u64) -> (s: String)
    ensures
        s@ == spec_dec(n as nat),
    decreases n,
{
    if n < 10 {
        String::from_str(digit_str(n))
    } else {
        proof {
            assert(n / 10 < n) by (nonlinear_arith)
                requires n >= 10;
        }
        let mut s = u64_to_dec(n / 10);
        s.append(digit_str(n % 10));
        proof {
            assert(s@ =~= spec_dec(n as nat));
        }
        s
    }
}

/// Relies on String::push of std: appends the given character to the end of
/// the string.
#[verifier::external_body]
pub fn string_push_char(s: &mut String, c: char)
    ensures
        final(s)@ == old(s)@.push(c),
{
    s.push(c);
}

/// The characters of `s`, in order.
pub fn chars_of(s: &str) -> (v: Vec<char>)
    ensures
        v@ == s@,
{
    let n = s.unicode_len();
    let mut v: Vec<char> = Vec::new();
    let mut i: usize = 0;
    while i < n
        invariant
            i <= n,
            n == s@.len(),
            v@ == s@.subrange(0, i as int),
        decreases n - i,
    {
        v.push(s.get_char(i));
        proof {
            assert(v@ =~= s@.subrange(0, i + 1 as int));
        }
        i = i + 1;
    }
    proof {
        assert(v@ =~= s@);
    }
    v
}

/// A string holding exactly the characters of `v`.
pub fn string_of_chars(v: &Vec<char>) -> (s: String)
    ensures
        s@ == v@,
{
    let mut s = String::new();
    let mut i: usize = 0;
    while i < v.len()
        invariant
            i <= v.len(),
            s@ == v@.subrange(0, i as int),
        decreases v.len() - i,
    {
        string_push_char(&mut s, v[i]);
        proof {
            assert(s@ =~= v@.subrange(0, i + 1 as int));
        }
        i = i + 1;
    }
    proof {
        assert(s@ =~= v@);
    }
    s
}

/// The eviction notice sent to a handle displaced by a reconnect.
pub fn disconnected_text() -> (s: String)
    ensures
        s@ == "disconnected"@,
{
    String::from_str("disconnected")
}

/// Confirmation sent to a subscriber that joined `pub_id`.
pub fn joined_text(pub_id: u64) -> (s: String)
    ensures
        s@ == "joined "@ + spec_dec(pub_id as nat),
{
    let mut s = String::from_str("joined ");
    let num = u64_to_dec(pub_id);
    s.append(num.as_str());
    s
}

/// Notice sent to a subscriber whose join target has no subscription set.
pub fn failed_join_text(pub_id: u64) -> (s: String)
    ensures
        s@ == "failed to join "@ + spec_dec(pub_id as nat),
{
    let mut s = String::from_str("failed to join ");
    let num = u64_to_dec(pub_id);
    s.append(num.as_str());
    s
}

/// The textual form of a relayed reading: every field rendered by value.
pub open spec fn spec_render_reading(
    pub_id: u64,
    eco2: u16,
    evtoc: u16,
    read_time: u64,
    start_time: u64,
    increment: Seq<char>,
) -> Seq<char> {
    "Reading { pub_id: "@ + spec_dec(pub_id as nat) + ", eco2: "@ + spec_dec(eco2 as nat)
        + ", evtoc: "@ + spec_dec(evtoc as nat) + ", read_time: "@ + spec_dec(read_time as nat)
        + ", start_time: "@ + spec_dec(start_time as nat) + ", increment: "@ + increment + " }"@
}

/// Render a reading for fan-out to subscribers.
pub fn render_reading(r: &Reading) -> (s: String)
    ensures
        s@ == spec_render_reading(
            r.pub_id,
            r.eco2,
            r.evtoc,
            r.read_time,
            r.start_time,
            r.increment@,
        ),
{
    let mut s = String::from_str("Reading { pub_id: ");
    s.append(u64_to_dec(r.pub_id).as_str());
    s.append(", eco2: ");
    s.append(u64_to_dec(r.eco2 as u64).as_str());
    s.append(", evtoc: ");
    s.append(u64_to_dec(r.evtoc as u64).as_str());
    s.append(", read_time: ");
    s.append(u64_to_dec(r.read_time).as_str());
    s.append(", start_time: ");
    s.append(u64_to_dec(r.start_time).as_str());
    s.append(", increment: ");
    s.append(r.increment.as_str());
    s.append(" }");
    s
}

} // verus!
