//! The names of the coding agents whose telemetry is read.

use crate::text::{chars_of, same_text};
use vstd::prelude::*;

verus! {

/// The character, or a dash in place of an underscore.
pub open spec fn dashed_char(c: char) -> char {
    if c == '_' {
        '-'
    } else {
        c
    }
}

/// `s` with dashes in place of its underscores.
pub open spec fn dashed(s: Seq<char>) -> Seq<char> {
    s.map_values(|c: char| dashed_char(c))
}

/// The service name of the Anthropic agent: the namespace of its metrics and
/// events, with a dash.
pub open spec fn claude_code() -> Seq<char> {
    dashed("claude_code"@)
}

fn dash(c: char) -> (r: char)
    ensures
        r == dashed_char(c),
{
    if c == '_' {
        '-'
    } else {
        c
    }
}

/// The service name of the Anthropic agent.
pub fn claude_code_name() -> (r: String)
    ensures
        r@ == claude_code(),
{
    let namespace = chars_of("claude_code");
    let mut out = String::new();
    assert(out@ =~= dashed(namespace@.take(0)));
    for i in 0..namespace.len()
        invariant
            out@ == dashed(namespace@.take(i as int)),
    {
        out.push(dash(namespace[i]));
        assert(dashed(namespace@.take(i + 1)) =~= dashed(namespace@.take(i as int)).push(
            dashed_char(namespace@[i as int]),
        ));
    }
    assert(namespace@.take(namespace@.len() as int) =~= namespace@);
    out
}

/// Whether a service is the Anthropic agent.
pub fn is_claude_code(service: &str) -> (r: bool)
    ensures
        r == (service@ == claude_code()),
{
    same_text(service, claude_code_name().as_str())
}

/// The service name has a dash in the sixth place.
pub proof fn lemma_claude_code()
    ensures
        claude_code().len() == 11,
        claude_code()[6] == '-',
{
    reveal_strlit("claude_code");
}

} // verus!
