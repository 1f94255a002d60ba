//! Reply texts of the outer operations.

use vstd::prelude::*;
use crate::decode::{join_lines, views_of};

verus! {

pub open spec fn digit_char(d: nat) -> char {
    "0123456789"@[d as int]
}

/// The decimal numeral of `n`, without leading zeros.
pub open spec fn decimal_spec(n: nat) -> Seq<char>
    decreases n,
{
    if n < 10 {
        seq![digit_char(n)]
    } else {
        decimal_spec(n / 10) + seq![digit_char(n % 10)]
    }
}

/// Writes `n` in decimal.
pub fn decimal_text(n: usize) -> (r: String)
    ensures
        r@ == decimal_spec(n as nat),
    decreases n,
{
    let digits = "0123456789";
    proof {
        reveal_strlit("0123456789");
    }
    if n < 10 {
        String::from_str(digits.substring_char(n, n + 1))
    } else {
        let mut s = decimal_text(n / 10);
        let d = n % 10;
        s.append(digits.substring_char(d, d + 1));
        s
    }
}

pub open spec fn connected_spec(host: Seq<char>, session_id: Seq<char>) -> Seq<char> {
    "Successfully connected to "@ + host + " (session: "@ + session_id + ")"@
}

/// The confirmation of a connect.
pub fn connected_text(host: &str, session_id: &str) -> (r: String)
    ensures
        r@ == connected_spec(host@, session_id@),
{
    let mut s = String::from_str("Successfully connected to ");
    s.append(host);
    s.append(" (session: ");
    s.append(session_id);
    s.append(")");
    s
}

pub open spec fn disconnected_spec(session_id: Seq<char>) -> Seq<char> {
    "Successfully disconnected session: "@ + session_id
}

/// The confirmation of a disconnect.
pub fn disconnected_text(session_id: &str) -> (r: String)
    ensures
        r@ == disconnected_spec(session_id@),
{
    let mut s = String::from_str("Successfully disconnected session: ");
    s.append(session_id);
    s
}

/// One line per session: the identifier behind a dash.
pub open spec fn bullets(ids: Seq<Seq<char>>) -> Seq<Seq<char>> {
    ids.map_values(|id: Seq<char>| "  - "@ + id)
}

/// The session listing: a fixed sentence when none is open, else a header
/// with the count and one line per identifier.
pub open spec fn sessions_spec(ids: Seq<Seq<char>>) -> Seq<char> {
    if ids.len() == 0 {
        "No active SSH sessions"@
    } else {
        "Active SSH sessions ("@ + decimal_spec(ids.len()) + "):\n"@ + join_lines(bullets(ids))
    }
}

/// Lists the open sessions for the caller.
pub fn sessions_text(ids: &Vec<String>) -> (r: String)
    ensures
        r@ == sessions_spec(views_of(ids@)),
{
    let n = ids.len();
    if n == 0 {
        return String::from_str("No active SSH sessions");
    }
    let mut s = String::from_str("Active SSH sessions (");
    let count = decimal_text(n);
    s.append(count.as_str());
    s.append("):\n");
    let ghost head = s@;
    let ghost all = bullets(views_of(ids@));
    let mut i: usize = 0;
    while i < n
        invariant
            n == ids@.len(),
            i <= n,
            all == bullets(views_of(ids@)),
            s@ == head + join_lines(all.take(i as int)),
        decreases n - i,
    {
        proof {
            reveal_strlit("\n");
            let t = all.take(i + 1);
            assert(t.drop_last() == all.take(i as int));
            if i == 0 {
                assert(t.len() == 1);
            }
        }
        if i > 0 {
            s.append("\n");
        }
        s.append("  - ");
        s.append(ids[i].as_str());
        proof {
            assert(all[i as int] == "  - "@ + ids@[i as int]@);
        }
        i = i + 1;
    }
    assert(all.take(n as int) == all);
    s
}

} // verus!
