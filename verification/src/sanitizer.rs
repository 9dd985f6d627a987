//! Turns arbitrary text into a token that is safe to use as an identifier.

use crate::text::{
    is_decimal_digit, to_chars, trim_bounds, trim_start, trimmed, unicode_alphanumeric,
    unicode_numeric, unicode_whitespace,
};
use vstd::prelude::*;

verus! {

/// What one character of the input contributes to the identifier: a word for
/// the punctuation, symbols and digits of the table, the character itself if
/// it is alphanumeric, and nothing otherwise.
pub open spec fn token(c: char) -> Seq<char> {
    match c {
        ',' => "Comma"@,
        ':' => "Colon"@,
        ';' => "Semi"@,
        '.' | '_' | '-' | ' ' => "_"@,
        '+' => "PLUS"@,
        '*' => "STAR"@,
        '/' => "SLASH"@,
        '=' => "EQUALS"@,
        '%' => "PERCENT"@,
        '<' => "LT"@,
        '>' => "GT"@,
        '(' | ')' => Seq::empty(),
        '[' => "OpenBracket"@,
        ']' => "CloseBracket"@,
        '{' => "OpenBrace"@,
        '}' => "CloseBrace"@,
        '@' => "At"@,
        '#' => "Hash"@,
        '$' => "Dollar"@,
        '&' => "And"@,
        '|' => "Pipe"@,
        '!' => "Bang"@,
        '?' => "Question"@,
        '~' => "Tilde"@,
        '"' => "Quote"@,
        '\'' => "Tick"@,
        '`' => "Backtick"@,
        '\\' => "Backslash"@,
        '0' => "Zero"@,
        '1' => "One"@,
        '2' => "Two"@,
        '3' => "Three"@,
        '4' => "Four"@,
        '5' => "Five"@,
        '6' => "Six"@,
        '7' => "Seven"@,
        '8' => "Eight"@,
        '9' => "Nine"@,
        _ => if unicode_alphanumeric(c) {
            seq![c]
        } else {
            Seq::empty()
        },
    }
}

/// The tokens of the characters of `s`, one after the other.
pub open spec fn tokens(s: Seq<char>) -> Seq<char>
    decreases s.len(),
{
    if s.len() == 0 {
        Seq::empty()
    } else {
        tokens(s.drop_last()) + token(s.last())
    }
}

/// The identifier that stands for `raw`.
pub open spec fn sanitized(raw: Seq<char>) -> Seq<char> {
    let body = tokens(trimmed(raw));
    if trimmed(raw).len() == 0 {
        "Empty"@
    } else if body.len() > 0 && unicode_numeric(body[0]) {
        "N"@ + body
    } else {
        body
    }
}

/// Appends the token of `c` to `out`.
fn push_token(out: &mut String, c: char)
    ensures
        final(out)@ == old(out)@ + token(c),
{
    match c {
        ',' => out.append("Comma"),
        ':' => out.append("Colon"),
        ';' => out.append("Semi"),
        '.' | '_' | '-' | ' ' => out.append("_"),
        '+' => out.append("PLUS"),
        '*' => out.append("STAR"),
        '/' => out.append("SLASH"),
        '=' => out.append("EQUALS"),
        '%' => out.append("PERCENT"),
        '<' => out.append("LT"),
        '>' => out.append("GT"),
        '(' | ')' => {},
        '[' => out.append("OpenBracket"),
        ']' => out.append("CloseBracket"),
        '{' => out.append("OpenBrace"),
        '}' => out.append("CloseBrace"),
        '@' => out.append("At"),
        '#' => out.append("Hash"),
        '$' => out.append("Dollar"),
        '&' => out.append("And"),
        '|' => out.append("Pipe"),
        '!' => out.append("Bang"),
        '?' => out.append("Question"),
        '~' => out.append("Tilde"),
        '"' => out.append("Quote"),
        '\'' => out.append("Tick"),
        '`' => out.append("Backtick"),
        '\\' => out.append("Backslash"),
        '0' => out.append("Zero"),
        '1' => out.append("One"),
        '2' => out.append("Two"),
        '3' => out.append("Three"),
        '4' => out.append("Four"),
        '5' => out.append("Five"),
        '6' => out.append("Six"),
        '7' => out.append("Seven"),
        '8' => out.append("Eight"),
        '9' => out.append("Nine"),
        _ => if c.is_alphanumeric() {
            out.push(c);
        },
    }
    assert(final(out)@ =~= old(out)@ + token(c));
}

/// A token never begins with a decimal digit: the digits themselves are
/// spelled out as words.
proof fn lemma_token_head(c: char)
    ensures
        token(c).len() > 0 ==> !is_decimal_digit(token(c)[0]),
{
    reveal_strlit("Comma");
    reveal_strlit("Colon");
    reveal_strlit("Semi");
    reveal_strlit("_");
    reveal_strlit("PLUS");
    reveal_strlit("STAR");
    reveal_strlit("SLASH");
    reveal_strlit("EQUALS");
    reveal_strlit("PERCENT");
    reveal_strlit("LT");
    reveal_strlit("GT");
    reveal_strlit("OpenBracket");
    reveal_strlit("CloseBracket");
    reveal_strlit("OpenBrace");
    reveal_strlit("CloseBrace");
    reveal_strlit("At");
    reveal_strlit("Hash");
    reveal_strlit("Dollar");
    reveal_strlit("And");
    reveal_strlit("Pipe");
    reveal_strlit("Bang");
    reveal_strlit("Question");
    reveal_strlit("Tilde");
    reveal_strlit("Quote");
    reveal_strlit("Tick");
    reveal_strlit("Backtick");
    reveal_strlit("Backslash");
    reveal_strlit("Zero");
    reveal_strlit("One");
    reveal_strlit("Two");
    reveal_strlit("Three");
    reveal_strlit("Four");
    reveal_strlit("Five");
    reveal_strlit("Six");
    reveal_strlit("Seven");
    reveal_strlit("Eight");
    reveal_strlit("Nine");
}

proof fn lemma_tokens_head(s: Seq<char>)
    ensures
        tokens(s).len() > 0 ==> !is_decimal_digit(tokens(s)[0]),
    decreases s.len(),
{
    if s.len() > 0 {
        lemma_tokens_head(s.drop_last());
        lemma_token_head(s.last());
    }
}

/// An identifier never starts with a digit. Where the input is not blank,
/// its first character is the prefix `N` or a character that is not numeric
/// in any script.
pub proof fn lemma_sanitized_head(raw: Seq<char>)
    ensures
        sanitized(raw).len() > 0 ==> !is_decimal_digit(sanitized(raw)[0]),
        sanitized(raw).len() > 0 && trimmed(raw).len() > 0 ==> sanitized(raw)[0] == 'N'
            || !unicode_numeric(sanitized(raw)[0]),
{
    reveal_strlit("Empty");
    reveal_strlit("N");
    lemma_tokens_head(trimmed(raw));
}

/// Text that holds nothing but whitespace, the empty text included, is given
/// the identifier `Empty`.
pub proof fn lemma_blank_is_empty(raw: Seq<char>)
    requires
        forall|i: int| 0 <= i < raw.len() ==> unicode_whitespace(#[trigger] raw[i]),
    ensures
        sanitized(raw) == "Empty"@,
{
    lemma_blank_trims_to_nothing(raw);
}

proof fn lemma_blank_trims_to_nothing(raw: Seq<char>)
    requires
        forall|i: int| 0 <= i < raw.len() ==> unicode_whitespace(#[trigger] raw[i]),
    ensures
        trim_start(raw).len() == 0,
    decreases raw.len(),
{
    if raw.len() > 0 {
        let rest = raw.drop_first();
        assert forall|i: int| 0 <= i < rest.len() implies unicode_whitespace(#[trigger] rest[i]) by {
            assert(rest[i] == raw[i + 1]);
        }
        lemma_blank_trims_to_nothing(rest);
    }
}

/// Sanitize an identifier, thought for enum and struct names.
pub fn sanitize_identifier(raw: &str) -> (out: String)
    ensures
        out@ == sanitized(raw@),
        out@.len() > 0 ==> !is_decimal_digit(out@[0]),
{
    proof {
        lemma_sanitized_head(raw@);
    }
    let chars = to_chars(raw);
    let (start, end) = trim_bounds(&chars);
    if start == end {
        return "Empty".to_string();
    }
    let ghost kept = chars@.subrange(start as int, end as int);
    let mut body = String::new();
    let mut i: usize = start;
    while i < end
        invariant
            start <= i <= end <= chars.len(),
            kept == chars@.subrange(start as int, end as int),
            body@ == tokens(kept.take(i - start)),
        decreases end - i,
    {
        proof {
            assert(kept.take(i + 1 - start).drop_last() == kept.take(i - start));
        }
        push_token(&mut body, chars[i]);
        i += 1;
    }
    proof {
        assert(kept.take(end - start) == kept);
    }
    if !body.as_str().is_empty() && body.as_str().get_char(0).is_numeric() {
        let mut out = "N".to_string();
        out.append(body.as_str());
        out
    } else {
        body
    }
}

} // verus!
