//! The interactive console: a line of input is split into tokens and parsed into a command.

use vstd::prelude::*;

pub mod pwm;
pub mod tokenizer;
pub mod utils;

use self::pwm::{cmd_pwm, pwm_command_spec, PwmCommand};
use self::tokenizer::TokenStream;
use self::utils::{err_eol, err_unexpected, eol_text, unexpected_text};

verus! {

/// A command of the interactive console.
pub enum Command {
    Pwm(PwmCommand),
}

/// Parses a command from the tokens of a line: the only command is `pwm`.
pub fn cmd_entry(token_stream: &mut TokenStream) -> (r: Result<Command, String>)
    ensures
        old(token_stream).remaining().len() == 0 ==> (r matches Err(e) && e@ == eol_text()),
        old(token_stream).remaining().len() > 0 && old(token_stream).remaining()[0] != seq!['p', 'w', 'm']
            ==> (r matches Err(e) && e@ == unexpected_text(old(token_stream).remaining()[0])),
        old(token_stream).remaining().len() > 0 && old(token_stream).remaining()[0] == seq!['p', 'w', 'm']
            ==> match pwm_command_spec(old(token_stream).remaining().drop_first()) {
                Ok(c) => (r matches Ok(Command::Pwm(cmd)) && cmd.view() == c),
                Err(e) => (r matches Err(msg) && msg@ == e),
            },
{
    proof {
        reveal_strlit("pwm");
        assert("pwm"@ == seq!['p', 'w', 'm']);
    }
    match token_stream.next() {
        Some(t) => {
            if crate::text::text_eq(t.as_str(), "pwm") {
                match cmd_pwm(token_stream) {
                    Ok(c) => Ok(Command::Pwm(c)),
                    Err(e) => Err(e),
                }
            } else {
                err_unexpected(t.as_str())
            }
        },
        None => err_eol(),
    }
}

} // verus!
