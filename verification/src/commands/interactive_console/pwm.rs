//! The `pwm` console command: `pwm list [pattern]`, `pwm auto <pattern> on|off`,
//! `pwm set <pattern> min|max|<value>`.

use vstd::prelude::*;

use super::tokenizer::TokenStream;
use super::utils::{eol_msg, eol_text, err_eol, err_unexpected, expect_on_off, unexpected_text};
use crate::pattern::{regex_error, regex_is_match, Pattern};
use crate::text::{concat_str, text_eq};

verus! {

/// The value that `pwm set` asks for.
pub enum PwmValue {
    /// The controller's minimum.
    Min,
    /// The controller's maximum.
    Max,
    /// A number, given as written (it is read as a floating-point number).
    Value(String),
}

/// A parsed `pwm` command.
pub enum PwmCommand {
    /// List the controllers whose key matches the pattern (all, without a pattern).
    List(Option<Pattern>),
    /// Hand the matching controllers to automatic control (`true`) or take them over (`false`).
    Auto(Pattern, bool),
    /// Set the matching controllers to a value.
    SetValue(Pattern, PwmValue),
}

/// What a parsed `pwm set` value stands for.
pub enum PwmValueView {
    Min,
    Max,
    Value(Seq<char>),
}

/// What a parsed `pwm` command stands for: patterns by their text.
pub enum PwmCommandView {
    List(Option<Seq<char>>),
    Auto(Seq<char>, bool),
    SetValue(Seq<char>, PwmValueView),
}

impl PwmValue {
    pub open spec fn view(&self) -> PwmValueView {
        match self {
            PwmValue::Min => PwmValueView::Min,
            PwmValue::Max => PwmValueView::Max,
            PwmValue::Value(s) => PwmValueView::Value(s@),
        }
    }
}

impl PwmCommand {
    pub open spec fn view(&self) -> PwmCommandView {
        match self {
            PwmCommand::List(p) => PwmCommandView::List(
                match p {
                    Some(p) => Some(p.source()),
                    None => None,
                },
            ),
            PwmCommand::Auto(p, on) => PwmCommandView::Auto(p.source(), *on),
            PwmCommand::SetValue(p, v) => PwmCommandView::SetValue(p.source(), v.view()),
        }
    }
}

/// The text of the error for a pattern that does not compile, whose compile error reads `e`.
pub open spec fn invalid_regex_text(e: Seq<char>) -> Seq<char> {
    seq!['p', 'w', 'm', '_', 'n', 'a', 'm', 'e', ' ', 'i', 's', ' ', 'i', 'n', 'v', 'a', 'l', 'i', 'd', ' ', 'r', 'e', 'g', 'e', 'x', ':', ' '] + e
}

/// A pattern token: its text if it compiles, else the error text.
pub open spec fn regex_arg(token: Seq<char>) -> Result<Seq<char>, Seq<char>> {
    match regex_error(token) {
        None => Ok(token),
        Some(e) => Err(invalid_regex_text(e)),
    }
}

/// A value token of `pwm set`.
pub open spec fn value_arg(token: Seq<char>) -> PwmValueView {
    if token == seq!['m', 'i', 'n'] {
        PwmValueView::Min
    } else if token == seq!['m', 'a', 'x'] {
        PwmValueView::Max
    } else {
        PwmValueView::Value(token)
    }
}

/// What the tokens after `pwm` parse to: the command, or the text of the error.
pub open spec fn pwm_command_spec(t: Seq<Seq<char>>) -> Result<PwmCommandView, Seq<char>> {
    if t.len() == 0 {
        Err(eol_text())
    } else if t[0] == seq!['l', 'i', 's', 't'] {
        if t.len() == 1 {
            Ok(PwmCommandView::List(None))
        } else {
            match regex_arg(t[1]) {
                Ok(p) => Ok(PwmCommandView::List(Some(p))),
                Err(e) => Err(e),
            }
        }
    } else if t[0] == seq!['a', 'u', 't', 'o'] || t[0] == seq!['s', 'e', 't'] {
        if t.len() == 1 {
            Err(eol_text())
        } else {
            match regex_arg(t[1]) {
                Err(e) => Err(e),
                Ok(p) => if t.len() == 2 {
                    Err(eol_text())
                } else if t[0] == seq!['s', 'e', 't'] {
                    Ok(PwmCommandView::SetValue(p, value_arg(t[2])))
                } else if t[2] == seq!['o', 'n'] {
                    Ok(PwmCommandView::Auto(p, true))
                } else if t[2] == seq!['o', 'f', 'f'] {
                    Ok(PwmCommandView::Auto(p, false))
                } else {
                    Err(unexpected_text(t[2]))
                },
            }
        }
    } else {
        Err(unexpected_text(t[0]))
    }
}

/// Reads an optional pattern: none if the stream is at its end; an error if the token does
/// not compile as a regular expression.
pub fn try_get_pwm_regex(token_stream: &mut TokenStream) -> (r: Result<Option<Pattern>, String>)
    ensures
        old(token_stream).remaining().len() == 0 ==> r matches Ok(None),
        old(token_stream).remaining().len() == 0 ==> final(token_stream).remaining() == old(token_stream).remaining(),
        old(token_stream).remaining().len() > 0 ==> final(token_stream).remaining() == old(token_stream).remaining().drop_first(),
        old(token_stream).remaining().len() > 0 ==> match regex_arg(old(token_stream).remaining()[0]) {
            Ok(p) => (r matches Ok(Some(pat)) && pat.source() == p),
            Err(e) => (r matches Err(msg) && msg@ == e),
        },
{
    proof {
        reveal_strlit("pwm_name is invalid regex: ");
    }
    match token_stream.next() {
        Some(s) => match Pattern::new(s.as_str()) {
            Ok(p) => Ok(Some(p)),
            Err(e) => Err(concat_str("pwm_name is invalid regex: ", e.as_str())),
        },
        None => Ok(None),
    }
}

/// Reads the pattern that selects the controllers to change: required.
fn find_pwms(token_stream: &mut TokenStream) -> (r: Result<Pattern, String>)
    ensures
        old(token_stream).remaining().len() == 0 ==> (r matches Err(e) && e@ == eol_text()),
        old(token_stream).remaining().len() > 0 ==> final(token_stream).remaining() == old(token_stream).remaining().drop_first(),
        old(token_stream).remaining().len() > 0 ==> match regex_arg(old(token_stream).remaining()[0]) {
            Ok(p) => (r matches Ok(pat) && pat.source() == p),
            Err(e) => (r matches Err(msg) && msg@ == e),
        },
{
    match try_get_pwm_regex(token_stream) {
        Ok(Some(p)) => Ok(p),
        Ok(None) => Err(eol_msg()),
        Err(e) => Err(e),
    }
}

/// Parses the tokens after `pwm`.
pub fn cmd_pwm(token_stream: &mut TokenStream) -> (r: Result<PwmCommand, String>)
    ensures
        match pwm_command_spec(old(token_stream).remaining()) {
            Ok(c) => (r matches Ok(cmd) && cmd.view() == c),
            Err(e) => (r matches Err(msg) && msg@ == e),
        },
{
    let ghost t = token_stream.remaining();
    proof {
        reveal_strlit("list");
        reveal_strlit("auto");
        reveal_strlit("set");
        reveal_strlit("min");
        reveal_strlit("max");
        assert("list"@ == seq!['l', 'i', 's', 't']);
        assert("auto"@ == seq!['a', 'u', 't', 'o']);
        assert("set"@ == seq!['s', 'e', 't']);
        assert("min"@ == seq!['m', 'i', 'n']);
        assert("max"@ == seq!['m', 'a', 'x']);
    }
    match token_stream.next() {
        Some(word) => {
            if text_eq(word.as_str(), "list") {
                match try_get_pwm_regex(token_stream) {
                    Ok(p) => Ok(PwmCommand::List(p)),
                    Err(e) => Err(e),
                }
            } else if text_eq(word.as_str(), "auto") {
                let targets = match find_pwms(token_stream) {
                    Ok(p) => p,
                    Err(e) => {
                        return Err(e);
                    },
                };
                match expect_on_off(token_stream) {
                    Ok(on) => Ok(PwmCommand::Auto(targets, on)),
                    Err(e) => Err(e),
                }
            } else if text_eq(word.as_str(), "set") {
                let targets = match find_pwms(token_stream) {
                    Ok(p) => p,
                    Err(e) => {
                        return Err(e);
                    },
                };
                match token_stream.next() {
                    Some(v) => {
                        let value = if text_eq(v.as_str(), "min") {
                            PwmValue::Min
                        } else if text_eq(v.as_str(), "max") {
                            PwmValue::Max
                        } else {
                            PwmValue::Value(v)
                        };
                        Ok(PwmCommand::SetValue(targets, value))
                    },
                    None => err_eol(),
                }
            } else {
                err_unexpected(word.as_str())
            }
        },
        None => err_eol(),
    }
}

/// The positions of the controllers whose key matches `pattern`, in order.
pub open spec fn matching_positions(keys: Seq<Seq<char>>, pattern: Seq<char>) -> Seq<int>
    decreases keys.len(),
{
    if keys.len() == 0 {
        Seq::empty()
    } else {
        let before = matching_positions(keys.drop_last(), pattern);
        if regex_is_match(pattern, keys.last()) {
            before.push(keys.len() - 1)
        } else {
            before
        }
    }
}

/// Selects the controllers, given by their keys, whose key matches `pattern`.
pub fn select_pwms(keys: &Vec<String>, pattern: &Pattern) -> (r: Vec<usize>)
    ensures
        r@.map_values(|i: usize| i as int) == matching_positions(keys@.map_values(|k: String| k@), pattern.source()),
{
    let ghost ks = keys@.map_values(|k: String| k@);
    let mut out: Vec<usize> = Vec::new();
    let n = keys.len();
    for i in 0..n
        invariant
            n == keys@.len(),
            ks == keys@.map_values(|k: String| k@),
            out@.map_values(|i: usize| i as int) == matching_positions(ks.take(i as int), pattern.source()),
    {
        proof {
            assert(ks.take(i + 1).drop_last() == ks.take(i as int));
            assert(ks.take(i + 1).last() == keys@[i as int]@);
        }
        let ghost before = out@;
        if pattern.is_match(keys[i].as_str()) {
            out.push(i);
            proof {
                assert(out@.map_values(|i: usize| i as int) == before.map_values(|i: usize| i as int).push(i as int));
            }
        }
    }
    proof {
        assert(ks.take(n as int) == ks);
    }
    out
}

} // verus!
