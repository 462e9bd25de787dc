//! Escaping of free text for the message transport's escaped-literal markup.
use vstd::prelude::*;

verus! {

/// The characters that the transport's markup reserves.
pub open spec fn is_reserved_spec(c: char) -> bool {
    c == '_' || c == '*' || c == '[' || c == ']' || c == '(' || c == ')' || c == '~'
        || c == '`' || c == '>' || c == '<' || c == '#' || c == '+' || c == '-' || c == '='
        || c == '|' || c == '{' || c == '}' || c == '.' || c == '!'
}

/// What one character becomes after escaping.
pub open spec fn escape_char_spec(c: char) -> Seq<char> {
    if is_reserved_spec(c) {
        seq!['\\', c]
    } else {
        seq![c]
    }
}

/// The escaped form of a whole text: each character escaped in turn.
pub open spec fn escaped(s: Seq<char>) -> Seq<char>
    decreases s.len(),
{
    if s.len() == 0 {
        Seq::empty()
    } else {
        escaped(s.drop_last()) + escape_char_spec(s.last())
    }
}

/// Whether `c` is reserved by the transport's markup.
pub fn is_reserved(c: char) -> (r: bool)
    ensures
        r == is_reserved_spec(c),
{
    c == '_' || c == '*' || c == '[' || c == ']' || c == '(' || c == ')' || c == '~'
        || c == '`' || c == '>' || c == '<' || c == '#' || c == '+' || c == '-' || c == '='
        || c == '|' || c == '{' || c == '}' || c == '.' || c == '!'
}

/// Relies on `String::push`: appends one character at the end.
#[verifier::external_body]
pub(crate) fn push_char(s: &mut String, c: char)
    ensures
        final(s)@ == old(s)@.push(c),
{
    s.push(c);
}

/// Prefixes every reserved character of `text` with a backslash and leaves
/// every other character as it is.
pub fn escape_markdown_v2(text: &str) -> (r: String)
    ensures
        r@ == escaped(text@),
{
    let mut out = String::new();
    for c in it: text.chars()
        invariant
            it.seq() == text@,
            out@ == escaped(text@.take(it.index() as int)),
    {
        proof {
            let i = it.index() as int;
            assert(text@.take(i + 1).drop_last() == text@.take(i));
        }
        if is_reserved(c) {
            push_char(&mut out, '\\');
        }
        push_char(&mut out, c);
    }
    proof {
        assert(text@.take(text@.len() as int) == text@);
    }
    out
}

} // verus!
