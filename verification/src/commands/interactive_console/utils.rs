//! Errors and small parsers shared by the console commands.

use vstd::prelude::*;

use super::tokenizer::TokenStream;
use crate::text::{concat_str, text_eq};

verus! {

/// The text of the error for a missing token.
pub open spec fn eol_text() -> Seq<char> {
    seq!['E', 'x', 'p', 'e', 'c', 't', 'e', 'd', ' ', 'a', ' ', 'c', 'o', 'm', 'm', 'a', 'n', 'd', ',', ' ', 'f', 'o', 'u', 'n', 'd', ' ', 'E', 'O', 'L']
}

/// The text of the error for an unexpected token `s`.
pub open spec fn unexpected_text(s: Seq<char>) -> Seq<char> {
    seq!['U', 'n', 'e', 'x', 'p', 'e', 'c', 't', 'e', 'd', ' ', 't', 'o', 'k', 'e', 'n', ' '] + s
}

/// The message for a missing token.
pub fn eol_msg() -> (r: String)
    ensures
        r@ == eol_text(),
{
    proof {
        reveal_strlit("Expected a command, found EOL");
    }
    String::from_str("Expected a command, found EOL")
}

/// The error for a missing token.
pub fn err_eol<T>() -> (r: Result<T, String>)
    ensures
        r matches Err(e) && e@ == eol_text(),
{
    Err(eol_msg())
}

/// The error for an unexpected token `s`.
pub fn err_unexpected<T>(s: &str) -> (r: Result<T, String>)
    ensures
        r matches Err(e) && e@ == unexpected_text(s@),
{
    proof {
        reveal_strlit("Unexpected token ");
    }
    Err(concat_str("Unexpected token ", s))
}

/// Reads `on` or `off` from the token stream.
pub fn expect_on_off(token_stream: &mut TokenStream) -> (r: Result<bool, String>)
    ensures
        ({
            let rem = old(token_stream).remaining();
            if rem.len() == 0 {
                (r matches Err(e) && e@ == eol_text())
            } else if rem[0] == seq!['o', 'n'] {
                r == Ok::<bool, String>(true)
            } else if rem[0] == seq!['o', 'f', 'f'] {
                r == Ok::<bool, String>(false)
            } else {
                (r matches Err(e) && e@ == unexpected_text(rem[0]))
            }
        }),
        old(token_stream).remaining().len() > 0 ==> final(token_stream).remaining() == old(token_stream).remaining().drop_first(),
{
    proof {
        reveal_strlit("on");
        reveal_strlit("off");
        assert("on"@ == seq!['o', 'n']);
        assert("off"@ == seq!['o', 'f', 'f']);
    }
    match token_stream.next() {
        Some(t) => {
            if text_eq(t.as_str(), "on") {
                Ok(true)
            } else if text_eq(t.as_str(), "off") {
                Ok(false)
            } else {
                err_unexpected(t.as_str())
            }
        },
        None => err_eol(),
    }
}

} // verus!
