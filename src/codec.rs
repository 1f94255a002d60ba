//! The line protocol: escaping a command for the remote `eval` loop, and
//! reading back output framed by the exit sentinel `<<<EXIT:<code>>>>`.

use vstd::prelude::*;

verus! {

/// Characters that the remote interpreter re-interprets inside double quotes.
pub open spec fn is_special(c: char) -> bool {
    c == '\\' || c == '"' || c == '$' || c == '`'
}

/// The escaped form of one character.
pub open spec fn escape_char(c: char) -> Seq<char> {
    if is_special(c) {
        seq!['\\', c]
    } else {
        seq![c]
    }
}

/// Every special character gets a backslash in front of it. Replacing the
/// backslashes first and then the other three characters, each in a separate
/// pass, gives exactly this.
pub open spec fn escape_spec(s: Seq<char>) -> Seq<char>
    decreases s.len(),
{
    if s.len() == 0 {
        Seq::empty()
    } else {
        escape_char(s[0]) + escape_spec(s.drop_first())
    }
}

/// What the remote shell makes of the text between double quotes: a
/// backslash in front of a special character is dropped, any other backslash
/// stays.
pub open spec fn unescape_spec(s: Seq<char>) -> Seq<char>
    decreases s.len(),
{
    if s.len() == 0 {
        Seq::empty()
    } else if s.len() >= 2 && s[0] == '\\' && is_special(s[1]) {
        seq![s[1]] + unescape_spec(s.subrange(2, s.len() as int))
    } else {
        seq![s[0]] + unescape_spec(s.drop_first())
    }
}

/// The name of the remote procedure that runs a request.
pub open spec fn runner_prefix(use_sudo: bool) -> Seq<char> {
    if use_sudo {
        "sudo_run \""@
    } else {
        "run \""@
    }
}

/// The request line for a command, without its line terminator.
pub open spec fn encode_spec(command: Seq<char>, use_sudo: bool) -> Seq<char> {
    runner_prefix(use_sudo) + escape_spec(command) + "\""@
}

pub proof fn lemma_escape_append(a: Seq<char>, b: Seq<char>)
    ensures
        escape_spec(a + b) == escape_spec(a) + escape_spec(b),
    decreases a.len(),
{
    if a.len() == 0 {
        assert(a + b == b);
    } else {
        lemma_escape_append(a.drop_first(), b);
        assert((a + b).drop_first() == a.drop_first() + b);
    }
}

pub proof fn lemma_escape_one(c: char)
    ensures
        escape_spec(seq![c]) == escape_char(c),
{
    assert(seq![c].drop_first() == Seq::<char>::empty());
    assert(escape_spec(Seq::<char>::empty()) == Seq::<char>::empty());
    assert(escape_char(c) + Seq::<char>::empty() == escape_char(c));
}

/// Unescaping what escaping produced gives back the command: the remote
/// interpreter receives exactly the characters the caller wrote.
pub proof fn lemma_unescape_escape(s: Seq<char>)
    ensures
        unescape_spec(escape_spec(s)) == s,
    decreases s.len(),
{
    if s.len() > 0 {
        lemma_unescape_escape(s.drop_first());
        let e = escape_spec(s);
        let rest = escape_spec(s.drop_first());
        if is_special(s[0]) {
            assert(e == seq!['\\', s[0]] + rest);
            assert(e.subrange(2, e.len() as int) == rest);
        } else {
            assert(e == seq![s[0]] + rest);
            assert(e.drop_first() == rest);
        }
        assert(s == seq![s[0]] + s.drop_first());
    }
}

/// A request line holds no bare double quote inside its argument: every
/// double quote of the escaped text has a backslash in front of it, so the
/// argument ends at the closing quote that the encoder appends.
pub proof fn lemma_escaped_quotes_are_guarded(s: Seq<char>, i: int)
    requires
        0 <= i < escape_spec(s).len(),
        escape_spec(s)[i] == '"',
    ensures
        i > 0 && escape_spec(s)[i - 1] == '\\',
    decreases s.len(),
{
    let rest = escape_spec(s.drop_first());
    if is_special(s[0]) {
        assert(escape_spec(s) == seq!['\\', s[0]] + rest);
        if i >= 2 {
            lemma_escaped_quotes_are_guarded(s.drop_first(), i - 2);
        }
    } else {
        assert(escape_spec(s) == seq![s[0]] + rest);
        if i >= 1 {
            lemma_escaped_quotes_are_guarded(s.drop_first(), i - 1);
            if i == 1 {
                assert(false);
            }
        }
    }
}

/// Escapes a command for the remote `eval` loop.
pub fn escape_command(command: &str) -> (r: String)
    ensures
        r@ == escape_spec(command@),
{
    let n = command.unicode_len();
    let mut out = String::new();
    let mut i: usize = 0;
    while i < n
        invariant
            n == command@.len(),
            i <= n,
            out@ == escape_spec(command@.subrange(0, i as int)),
        decreases n - i,
    {
        let c = command.get_char(i);
        let piece = command.substring_char(i, i + 1);
        proof {
            let s = command@;
            assert(s.subrange(0, i + 1) == s.subrange(0, i as int) + seq![c]);
            lemma_escape_append(s.subrange(0, i as int), seq![c]);
            lemma_escape_one(c);
            reveal_strlit("\\");
            assert(piece@ == seq![c]);
        }
        if c == '\\' || c == '"' || c == '$' || c == '`' {
            out.append("\\");
        }
        out.append(piece);
        i = i + 1;
    }
    assert(command@.subrange(0, n as int) == command@);
    out
}

/// Builds the request line (without its terminator) that runs `command`
/// through the plain or the privilege-elevated remote procedure.
pub fn encode_request(command: &str, use_sudo: bool) -> (r: String)
    ensures
        r@ == encode_spec(command@, use_sudo),
{
    let escaped = escape_command(command);
    let mut out = if use_sudo {
        String::from_str("sudo_run \"")
    } else {
        String::from_str("run \"")
    };
    out.append(escaped.as_str());
    out.append("\"");
    out
}

} // verus!
