//! Error types shared across the crate, the [`ErrorGroup`] collector,
//! the retrying return of fan controllers to automatic mode, and joining of texts.

use std::collections::VecDeque;
use vstd::prelude::*;

use crate::text::{format_signed, push_char, signed_decimal};


verus! {

/// An error that only carries a message.
#[derive(Debug)]
pub struct SimpleError {
    pub(crate) message: String,
}

impl SimpleError {
    /// The message of this error.
    pub closed spec fn text(&self) -> Seq<char> {
        self.message@
    }

    pub fn new(message: String) -> (r: SimpleError)
        ensures
            r.text() == message@,
    {
        SimpleError { message }
    }

    /// Builds an error from a borrowed message.
    pub fn from_slice(message: &str) -> (r: SimpleError)
        ensures
            r.text() == message@,
    {
        SimpleError { message: String::from_str(message) }
    }

    /// The message of this error.
    pub fn message(&self) -> (r: &str)
        ensures
            r@ == self.text(),
    {
        self.message.as_str()
    }
}

/// What `{:?}` writes for a string: the text in double quotes, with quotes, backslashes and
/// characters that are not printed as they are written as escapes.
pub uninterp spec fn str_debug_text(s: Seq<char>) -> Seq<char>;

/// Printable ASCII (space to `~`) other than the double quote and the backslash: the
/// characters that `{:?}` writes as they are.
pub open spec fn plain_ascii(s: Seq<char>) -> bool {
    forall|i: int| 0 <= i < s.len() ==> ' ' <= #[trigger] s[i] <= '~' && s[i] != '"' && s[i] != '\\'
}

/// Writes `s` as `{:?}` does (calls `<str as Debug>::fmt` through `format!`).
/// Trusted: the result is [`str_debug_text`] of the text, and a text of [`plain_ascii`]
/// characters is written in double quotes as it is.
#[verifier::external_body]
fn debug_str(s: &str) -> (r: String)
    ensures
        r@ == str_debug_text(s@),
        plain_ascii(s@) ==> r@ == seq!['"'] + s@ + seq!['"'],
{
    format!("{:?}", s)
}

/// The start of the description of a [`SimpleError`].
pub const SIMPLE_ERROR_PREFIX: &'static str = "SimpleError { message: ";

impl SimpleError {
    /// How the error is displayed: in its `Debug` form, `SimpleError { message: "<message>" }`
    /// with the message written as `{:?}` writes a string.
    pub fn describe(&self) -> (r: String)
        ensures
            r@ == SIMPLE_ERROR_PREFIX@ + str_debug_text(self.text()) + seq![' ', '}'],
            plain_ascii(self.text()) ==> r@ == SIMPLE_ERROR_PREFIX@ + seq!['"'] + self.text() + seq!['"', ' ', '}'],
    {
        let mut s = String::from_str(SIMPLE_ERROR_PREFIX);
        let quoted = debug_str(self.message.as_str());
        s.append(quoted.as_str());
        push_char(&mut s, ' ');
        push_char(&mut s, '}');
        s
    }
}

/// An external command exited unsuccessfully.
#[derive(Debug)]
pub struct ExitStatusError {
    pub code: Option<i32>,
    pub stderr: Vec<u8>,
}

/// What `String::from_utf8_lossy` makes of `bytes`.
pub uninterp spec fn utf8_lossy_text(bytes: Seq<u8>) -> Seq<char>;

/// Decodes `bytes` as UTF-8, replacing invalid sequences (calls `String::from_utf8_lossy`).
/// Trusted: the result is [`utf8_lossy_text`] of the bytes.
#[verifier::external_body]
fn utf8_lossy(bytes: &[u8]) -> (r: String)
    ensures
        r@ == utf8_lossy_text(bytes@),
{
    String::from_utf8_lossy(bytes).into_owned()
}

/// How `{:?}` writes an optional exit code.
pub open spec fn exit_code_debug(code: Option<i32>) -> Seq<char> {
    match code {
        None => seq!['N', 'o', 'n', 'e'],
        Some(c) => seq!['S', 'o', 'm', 'e', '('] + signed_decimal(c as int) + seq![')'],
    }
}

/// The start of the description of an [`ExitStatusError`].
pub const EXIT_CODE_PREFIX: &'static str = "Exit with code ";

impl ExitStatusError {
    /// The description of the error: the exit code (as `{:?}` writes it) and what the command
    /// wrote to its error output.
    pub fn describe(&self) -> (r: String)
        ensures
            r@ == EXIT_CODE_PREFIX@ + exit_code_debug(self.code) + seq![':', ' '] + utf8_lossy_text(self.stderr@),
    {
        let mut s = String::from_str(EXIT_CODE_PREFIX);
        proof {
            reveal_strlit("None");
            reveal_strlit("Some(");
        }
        match self.code {
            None => s.append("None"),
            Some(c) => {
                s.append("Some(");
                let digits = format_signed(c as i64);
                s.append(digits.as_str());
                push_char(&mut s, ')');
            },
        }
        push_char(&mut s, ':');
        push_char(&mut s, ' ');
        let err = utf8_lossy(self.stderr.as_slice());
        s.append(err.as_str());
        s
    }
}

/// Data received from a source did not have the expected shape.
#[derive(Debug)]
pub struct MalformedDataError {
    value: String,
}

impl MalformedDataError {
    pub fn new(message: &str) -> (r: MalformedDataError)
        ensures
            r.text() == message@,
    {
        MalformedDataError::new_with_string(String::from_str(message))
    }

    pub fn new_with_string(message: String) -> (r: MalformedDataError)
        ensures
            r.text() == message@,
    {
        MalformedDataError { value: message }
    }

    /// The text that describes this error.
    pub fn message(&self) -> (r: &str)
        ensures
            r@ == self.text(),
    {
        self.value.as_str()
    }

    pub closed spec fn text(&self) -> Seq<char> {
        self.value@
    }
}

/// Whether every element of `s` is an `Err`.
pub open spec fn all_err<T, E>(s: Seq<Result<T, E>>) -> bool {
    forall|i: int| 0 <= i < s.len() ==> (#[trigger] s[i]) is Err
}

/// The errors held by the `Err` elements of `s`, in order.
pub open spec fn errs_of<T, E>(s: Seq<Result<T, E>>) -> Seq<E>
    decreases s.len(),
{
    if s.len() == 0 {
        Seq::empty()
    } else {
        match s.last() {
            Ok(_) => errs_of(s.drop_last()),
            Err(e) => errs_of(s.drop_last()).push(e),
        }
    }
}

/// The values held by the `Ok` elements of `s`, in order.
pub open spec fn oks_of<T, E>(s: Seq<Result<T, E>>) -> Seq<T>
    decreases s.len(),
{
    if s.len() == 0 {
        Seq::empty()
    } else {
        match s.last() {
            Ok(t) => oks_of(s.drop_last()).push(t),
            Err(_) => oks_of(s.drop_last()),
        }
    }
}

/// A collection of errors, gathered while an operation carries on past failures.
#[derive(Debug)]
pub struct ErrorGroup<E> {
    errors: Vec<E>,
}

impl<E> View for ErrorGroup<E> {
    type V = Seq<E>;

    closed spec fn view(&self) -> Seq<E> {
        self.errors@
    }
}

/// What `ErrorGroup::push_until_ok` does to a queue of results: it takes results off
/// the front of `before`, leaving `after`, until it has taken an `Ok` (whose value it
/// returns) or the queue is empty (then it returns `None`); every `Err` taken is stored.
pub open spec fn push_until_ok_spec<T, E>(
    before: Seq<Result<T, E>>,
    after: Seq<Result<T, E>>,
    errors_before: Seq<E>,
    errors_after: Seq<E>,
    r: Option<T>,
) -> bool {
    let taken = before.take(before.len() - after.len());
    &&& after.len() <= before.len()
    &&& after == before.skip(before.len() - after.len())
    &&& errors_after == errors_before + errs_of(taken)
    &&& match r {
        Some(t) => {
            &&& taken.len() > 0
            &&& taken.last() == Ok::<T, E>(t)
            &&& all_err(taken.drop_last())
        },
        None => {
            &&& after.len() == 0
            &&& all_err(taken)
        },
    }
}

/// Storing the results of a sequence splits it without loss: every element is either an `Ok`
/// (whose value is yielded) or an `Err` (whose error is stored).
pub proof fn ok_or_store_partitions<T, E>(s: Seq<Result<T, E>>)
    ensures
        oks_of(s).len() + errs_of(s).len() == s.len(),
        all_err(s) ==> oks_of(s).len() == 0,
    decreases s.len(),
{
    if s.len() > 0 {
        ok_or_store_partitions(s.drop_last());
        if all_err(s) {
            assert(all_err(s.drop_last())) by {
                assert forall|i: int| 0 <= i < s.drop_last().len() implies (#[trigger] s.drop_last()[i]) is Err by {
                    assert(s.drop_last()[i] == s[i]);
                }
            }
            assert(s[s.len() - 1] is Err);
        }
    }
}

/// Draining a queue with `push_until_ok` until it returns nothing stores exactly the errors
/// of the queue and yields exactly its `Ok` values: one call takes the results up to and
/// including the first `Ok`, so it yields the first `Ok` value and stores the errors before it.
pub proof fn push_until_ok_takes_first_ok<T, E>(
    before: Seq<Result<T, E>>,
    after: Seq<Result<T, E>>,
    errors_before: Seq<E>,
    errors_after: Seq<E>,
    r: Option<T>,
)
    requires
        push_until_ok_spec(before, after, errors_before, errors_after, r),
    ensures
        r matches Some(t) ==> oks_of(before) == seq![t] + oks_of(after),
        r is None ==> oks_of(before).len() == 0,
        errors_after + errs_of(after) == errors_before + errs_of(before),
{
    let k = before.len() - after.len();
    let taken = before.take(k);
    assert(before == taken + after);
    lemma_split_oks_errs(taken, after);
    if r is Some {
        let t = r->0;
        assert(taken == taken.drop_last().push(Ok::<T, E>(t)));
        assert(oks_of(taken) == oks_of(taken.drop_last()).push(t));
        ok_or_store_partitions(taken.drop_last());
        assert(oks_of(taken.drop_last()).len() == 0);
        assert(oks_of(taken) =~= seq![t]);
    } else {
        ok_or_store_partitions(taken);
        assert(after =~= Seq::<Result<T, E>>::empty());
        assert(oks_of(after) =~= Seq::<T>::empty());
        assert(oks_of(before) == oks_of(taken) + oks_of(after));
    }
}

proof fn lemma_split_oks_errs<T, E>(a: Seq<Result<T, E>>, b: Seq<Result<T, E>>)
    ensures
        oks_of(a + b) == oks_of(a) + oks_of(b),
        errs_of(a + b) == errs_of(a) + errs_of(b),
    decreases b.len(),
{
    if b.len() == 0 {
        assert(a + b =~= a);
        assert(oks_of(a) + oks_of(b) =~= oks_of(a));
        assert(errs_of(a) + errs_of(b) =~= errs_of(a));
    } else {
        lemma_split_oks_errs(a, b.drop_last());
        assert((a + b).drop_last() =~= a + b.drop_last());
        assert((a + b).last() == b.last());
        match b.last() {
            Ok(t) => {
                assert(oks_of(a) + oks_of(b.drop_last()).push(t) =~= (oks_of(a) + oks_of(b.drop_last())).push(t));
            },
            Err(e) => {
                assert(errs_of(a) + errs_of(b.drop_last()).push(e) =~= (errs_of(a) + errs_of(b.drop_last())).push(e));
            },
        }
    }
}

impl<E> ErrorGroup<E> {
    pub fn new() -> (r: Self)
        ensures
            r@ == Seq::<E>::empty(),
    {
        ErrorGroup { errors: Vec::new() }
    }

    pub fn push(&mut self, e: E)
        ensures
            final(self)@ == old(self)@.push(e),
    {
        self.errors.push(e);
    }

    pub fn push_box(&mut self, e: Box<E>)
        ensures
            final(self)@ == old(self)@.push(*e),
    {
        self.errors.push(*e);
    }

    /// Wraps `it` so that iterating it yields the values of its `Ok` results,
    /// while the errors of its `Err` results are stored in this group.
    pub fn ok_or_store<'a, T>(&'a mut self, it: VecDeque<Result<T, E>>) -> (r: ErrorGroupConsumeIterator<'a, T, E>)
        ensures
            *r.target == *old(self),
            r.it@ == it@,
            *final(self) == *final(r.target),
    {
        ErrorGroupConsumeIterator { target: self, it }
    }

    /// Takes results off the front of `it` and stores their errors,
    /// until the queue is empty or an `Ok` was taken, whose value is returned.
    pub fn push_until_ok<T>(&mut self, it: &mut VecDeque<Result<T, E>>) -> (r: Option<T>)
        ensures
            push_until_ok_spec(old(it)@, final(it)@, old(self)@, final(self)@, r),
    {
        let ghost start = it@;
        let ghost errors_start = self@;
        loop
            invariant
                start == old(it)@,
                errors_start == old(self)@,
                it@.len() <= start.len(),
                it@ == start.skip(start.len() - it@.len()),
                self@ == errors_start + errs_of(start.take(start.len() - it@.len())),
                all_err(start.take(start.len() - it@.len())),
            decreases it@.len(),
        {
            let ghost before = it@;
            match it.pop_front() {
                None => {
                    return None;
                },
                Some(Ok(t)) => {
                    proof {
                        let k = start.len() - before.len();
                        assert(start.take(k + 1).drop_last() == start.take(k));
                        assert(start[k] == before[0]);
                        assert(it@ == start.skip(k + 1));
                        assert(errs_of(start.take(k + 1)) == errs_of(start.take(k)));
                    }
                    return Some(t);
                },
                Some(Err(e)) => {
                    proof {
                        let k = start.len() - before.len();
                        assert(start.take(k + 1).drop_last() == start.take(k));
                        assert(start[k] == before[0]);
                        assert(it@ == start.skip(k + 1));
                    }
                    self.errors.push(e);
                },
            }
        }
    }

    pub fn is_empty(&self) -> (r: bool)
        ensures
            r == (self@.len() == 0),
    {
        self.errors.len() == 0
    }

    /// `Ok` if no error was stored, else the group itself as the error.
    pub fn ok(self) -> (r: Result<(), Self>)
        ensures
            self@.len() == 0 ==> r is Ok,
            self@.len() != 0 ==> (r matches Err(g) && g@ == self@),
    {
        if self.is_empty() {
            Ok(())
        } else {
            Err(self)
        }
    }

    /// Stores the errors of the `Err` results of `it` and returns the values of its `Ok`
    /// results, both in order.
    #[verifier::loop_isolation(false)]
    pub fn collect_oks<T>(&mut self, results: VecDeque<Result<T, E>>) -> (r: Vec<T>)
        ensures
            r@ == oks_of(results@),
            final(self)@ == old(self)@ + errs_of(results@),
    {
        let ghost all = results@;
        let mut it = results;
        let mut out: Vec<T> = Vec::new();
        let ghost errors_start = self@;
        loop
            invariant
                errors_start == old(self)@,
                it@.len() <= all.len(),
                it@ == all.skip(all.len() - it@.len()),
                self@ == errors_start + errs_of(all.take(all.len() - it@.len())),
                out@ == oks_of(all.take(all.len() - it@.len())),
            decreases it@.len(),
        {
            let ghost before = it@;
            match it.pop_front() {
                None => {
                    proof {
                        assert(all.take(all.len() as int) == all);
                    }
                    return out;
                },
                Some(res) => {
                    proof {
                        let k = all.len() - before.len();
                        assert(all.take(k + 1).drop_last() == all.take(k));
                        assert(all[k] == before[0]);
                        assert(all.take(k + 1).last() == res);
                        assert(it@ == all.skip(k + 1));
                    }
                    match res {
                        Ok(t) => out.push(t),
                        Err(e) => self.push(e),
                    }
                },
            }
        }
    }

    /// The stored errors, oldest first.
    pub fn into_errors(self) -> (r: Vec<E>)
        ensures
            r@ == self@,
    {
        self.errors
    }
}

impl<E> Default for ErrorGroup<E> {
    fn default() -> (r: Self)
        ensures
            r@ == Seq::<E>::empty(),
    {
        Self::new()
    }
}

/// Iterates over the values of `Ok` results while storing the errors of `Err`
/// results in the borrowed [`ErrorGroup`]. Made by [`ErrorGroup::ok_or_store`].
pub struct ErrorGroupConsumeIterator<'e, T, E> {
    pub target: &'e mut ErrorGroup<E>,
    pub it: VecDeque<Result<T, E>>,
}

impl<'e, T, E> ErrorGroupConsumeIterator<'e, T, E> {
    /// The next `Ok` value; the errors met on the way are stored in the target group.
    pub fn next(&mut self) -> (r: Option<T>)
        ensures
            push_until_ok_spec(old(self).it@, final(self).it@, (*old(self).target)@, (*final(self).target)@, r),
    {
        self.target.push_until_ok(&mut self.it)
    }

    /// Runs the iteration to its end: returns all `Ok` values in order,
    /// and stores all errors in the target group.
    pub fn collect_oks(&mut self) -> (r: Vec<T>)
        ensures
            r@ == oks_of(old(self).it@),
            (*final(self).target)@ == (*old(self).target)@ + errs_of(old(self).it@),
            final(self).it@.len() == 0,
    {
        let mut rest: VecDeque<Result<T, E>> = VecDeque::new();
        std::mem::swap(&mut rest, &mut self.it);
        self.target.collect_oks(rest)
    }
}

/// How many times [`return_to_auto`] tries to hand each controller back to automatic mode.
pub const MAX_AUTO_RETRIES_ON_EXIT: u8 = 5;

/// The part of a fan controller that [`return_to_auto`] needs: switching between
/// automatic operation and control by this program.
pub trait AutoSwitch {
    type Error;

    /// The mode most recently asked of the controller through [`Self::set_auto`], if any.
    /// Each implementation in this crate defines it; the default stands for implementations
    /// written outside Verus, whose `set_auto` contract is trusted and not checked.
    closed spec fn requested_auto(&self) -> Option<bool> {
        None
    }

    /// Whether the most recent [`Self::set_auto`] call succeeded (defined as above).
    closed spec fn last_switch_ok(&self) -> bool {
        true
    }

    /// Set whether the controller runs automatically (`true`) or is controlled by this program.
    fn set_auto(&mut self, auto: bool) -> (r: Result<(), Self::Error>)
        ensures
            final(self).requested_auto() == Some(auto),
            final(self).last_switch_ok() == (r is Ok),
    ;
}

/// Each element of `s` is smaller than every later one.
pub open spec fn strictly_increasing(s: Seq<usize>) -> bool {
    forall|a: int, b: int| 0 <= a < b < s.len() ==> s[a] < s[b]
}

/// The entries of `pending` whose attempt failed, in order: those at positions `i`
/// with `succeeded[i] == false`.
pub open spec fn still_failing(pending: Seq<usize>, succeeded: Seq<bool>) -> Seq<usize>
    decreases pending.len(),
{
    if pending.len() == 0 {
        Seq::empty()
    } else {
        let rest = still_failing(pending.drop_last(), succeeded);
        if succeeded[pending.len() - 1] {
            rest
        } else {
            rest.push(pending.last())
        }
    }
}

proof fn lemma_still_failing_prefix(pending: Seq<usize>, succeeded: Seq<bool>, k: int)
    requires
        0 <= k < pending.len(),
    ensures
        still_failing(pending.take(k + 1), succeeded) == (if succeeded[k] {
            still_failing(pending.take(k), succeeded)
        } else {
            still_failing(pending.take(k), succeeded).push(pending[k])
        }),
{
    assert(pending.take(k + 1).drop_last() == pending.take(k));
}

/// Only the outcomes at the positions of `pending` matter.
proof fn lemma_still_failing_frame(pending: Seq<usize>, s1: Seq<bool>, s2: Seq<bool>)
    requires
        forall|j: int| 0 <= j < pending.len() ==> s1[j] == s2[j],
    ensures
        still_failing(pending, s1) == still_failing(pending, s2),
    decreases pending.len(),
{
    if pending.len() > 0 {
        lemma_still_failing_frame(pending.drop_last(), s1, s2);
    }
}

/// A position is still failing exactly when it is pending at a place whose attempt failed;
/// from strictly increasing positions, the failing ones are strictly increasing too.
proof fn lemma_still_failing_members(pending: Seq<usize>, succeeded: Seq<bool>)
    ensures
        still_failing(pending, succeeded).len() <= pending.len(),
        forall|x: usize| #[trigger] still_failing(pending, succeeded).contains(x) <==> exists|j: int|
            0 <= j < pending.len() && pending[j] == x && !succeeded[j],
        strictly_increasing(pending) ==> strictly_increasing(still_failing(pending, succeeded)),
    decreases pending.len(),
{
    if pending.len() > 0 {
        let p = pending.drop_last();
        lemma_still_failing_members(p, succeeded);
        let rest = still_failing(p, succeeded);
        let last = (pending.len() - 1) as int;
        assert forall|x: usize| #[trigger] still_failing(pending, succeeded).contains(x) <==> exists|j: int|
            0 <= j < pending.len() && pending[j] == x && !succeeded[j] by {
            if still_failing(pending, succeeded).contains(x) {
                if rest.contains(x) {
                    let j = choose|j: int| 0 <= j < p.len() && p[j] == x && !succeeded[j];
                    assert(pending[j] == x);
                } else {
                    assert(pending[last] == x && !succeeded[last]);
                }
            }
            if exists|j: int| 0 <= j < pending.len() && pending[j] == x && !succeeded[j] {
                let j = choose|j: int| 0 <= j < pending.len() && pending[j] == x && !succeeded[j];
                if j < last {
                    assert(p[j] == x);
                    assert(rest.contains(x));
                    if !succeeded[last] {
                        assert(rest.push(pending.last())[rest.len() as int] == pending.last());
                        assert(rest.push(pending.last()).contains(x)) by {
                            let k = choose|k: int| 0 <= k < rest.len() && rest[k] == x;
                            assert(rest.push(pending.last())[k] == x);
                        }
                    }
                } else {
                    assert(rest.push(pending.last())[rest.len() as int] == x);
                }
            }
        }
        if strictly_increasing(pending) {
            assert(strictly_increasing(p));
            if !succeeded[last] {
                let s = rest.push(pending.last());
                assert forall|a: int, b: int| 0 <= a < b < s.len() implies s[a] < s[b] by {
                    if b == rest.len() {
                        assert(rest.contains(s[a]));
                        let j = choose|j: int| 0 <= j < p.len() && p[j] == s[a] && !succeeded[j];
                        assert(pending[j] < pending[last]);
                    }
                }
            }
        }
    }
}

/// The controllers (by position) that still need another attempt after one round of
/// attempts on `pending`, where `succeeded[i]` tells how the attempt on `pending[i]` went.
pub fn retry_round(pending: &Vec<usize>, succeeded: &Vec<bool>) -> (r: Vec<usize>)
    requires
        succeeded@.len() == pending@.len(),
    ensures
        r@ == still_failing(pending@, succeeded@),
{
    let mut out: Vec<usize> = Vec::new();
    let n = pending.len();
    for i in 0..n
        invariant
            n == pending@.len(),
            succeeded@.len() == n,
            out@ == still_failing(pending@.take(i as int), succeeded@),
    {
        proof {
            lemma_still_failing_prefix(pending@, succeeded@, i as int);
        }
        if !succeeded[i] {
            out.push(pending[i]);
        }
    }
    proof {
        assert(pending@.take(n as int) == pending@);
    }
    out
}

/// The positions `0..n`.
pub open spec fn all_positions(n: nat) -> Seq<usize> {
    Seq::new(n, |i: int| i as usize)
}

/// The positions still waiting for a successful switch after `rounds` of attempts,
/// starting from `start`: each round keeps the positions whose attempt failed.
pub open spec fn pending_after(start: Seq<usize>, rounds: Seq<Seq<bool>>) -> Seq<usize>
    decreases rounds.len(),
{
    if rounds.len() == 0 {
        start
    } else {
        still_failing(pending_after(start, rounds.drop_last()), rounds.last())
    }
}

/// `rounds` are the first rounds of [`return_to_auto`] on `n` controllers: each holds one
/// outcome per controller pending before it, and a round is made only while some
/// controller is pending, at most [`MAX_AUTO_RETRIES_ON_EXIT`] of them.
pub open spec fn is_auto_return_prefix(n: nat, rounds: Seq<Seq<bool>>) -> bool {
    &&& rounds.len() <= MAX_AUTO_RETRIES_ON_EXIT
    &&& forall|k: int| 0 <= k < rounds.len() ==> {
        &&& pending_after(all_positions(n), rounds.take(k)).len() > 0
        &&& (#[trigger] rounds[k]).len() == pending_after(all_positions(n), rounds.take(k)).len()
    }
}

/// `rounds` are all the rounds of [`return_to_auto`] on `n` controllers: the retries stop
/// when no controller is pending or after [`MAX_AUTO_RETRIES_ON_EXIT`] rounds.
pub open spec fn is_auto_return_run(n: nat, rounds: Seq<Seq<bool>>) -> bool {
    &&& is_auto_return_prefix(n, rounds)
    &&& (rounds.len() == MAX_AUTO_RETRIES_ON_EXIT || pending_after(all_positions(n), rounds).len() == 0)
}

/// After a round of switches on `pending` (from `before` to `after`), each controller has been
/// asked for automatic mode, and its last switch failed exactly when it is still failing.
proof fn lemma_round_outcome<C: AutoSwitch>(
    before: Seq<C>,
    after: Seq<C>,
    pending: Seq<usize>,
    succeeded: Seq<bool>,
    n: nat,
    first: bool,
)
    requires
        n <= usize::MAX,
        before.len() == n,
        after.len() == n,
        succeeded.len() == pending.len(),
        strictly_increasing(pending),
        forall|j: int| 0 <= j < pending.len() ==> (#[trigger] pending[j]) < n,
        forall|j: int| 0 <= j < pending.len() ==> {
            &&& (#[trigger] after[pending[j] as int]).requested_auto() == Some(true)
            &&& after[pending[j] as int].last_switch_ok() == succeeded[j]
        },
        forall|i: int| 0 <= i < n && !pending.contains(i as usize) ==> #[trigger] after[i] == before[i],
        first ==> pending == all_positions(n),
        !first ==> forall|i: int|
            0 <= i < n ==> (#[trigger] before[i]).requested_auto() == Some(true),
        !first ==> forall|i: int|
            0 <= i < n ==> ((#[trigger] before[i]).last_switch_ok() <==> !pending.contains(i as usize)),
    ensures
        strictly_increasing(still_failing(pending, succeeded)),
        forall|j: int|
            0 <= j < still_failing(pending, succeeded).len() ==> (#[trigger] still_failing(pending, succeeded)[j]) < n,
        forall|i: int| 0 <= i < n ==> (#[trigger] after[i]).requested_auto() == Some(true),
        forall|i: int|
            0 <= i < n ==> ((#[trigger] after[i]).last_switch_ok() <==> !still_failing(pending, succeeded).contains(
                i as usize,
            )),
{
    lemma_still_failing_members(pending, succeeded);
    let next = still_failing(pending, succeeded);
    assert forall|j: int| 0 <= j < next.len() implies (#[trigger] next[j]) < n by {
        assert(next.contains(next[j]));
        let k = choose|k: int| 0 <= k < pending.len() && pending[k] == next[j] && !succeeded[k];
        assert(pending[k] < n);
    }
    assert forall|i: int| 0 <= i < n implies {
        &&& (#[trigger] after[i]).requested_auto() == Some(true)
        &&& (after[i].last_switch_ok() <==> !next.contains(i as usize))
    } by {
        if pending.contains(i as usize) {
            let j = choose|j: int| 0 <= j < pending.len() && pending[j] == i as usize;
            assert(after[pending[j] as int].requested_auto() == Some(true));
            if next.contains(i as usize) {
                let j2 = choose|j2: int| 0 <= j2 < pending.len() && pending[j2] == i as usize && !succeeded[j2];
                if j < j2 {
                    assert(pending[j] < pending[j2]);
                } else if j2 < j {
                    assert(pending[j2] < pending[j]);
                }
            } else if !succeeded[j] {
                assert(exists|j3: int| 0 <= j3 < pending.len() && pending[j3] == i as usize && !succeeded[j3]);
            }
        } else {
            if first {
                assert(pending[i] == i as usize);
                assert(pending.contains(i as usize));
            }
            assert(after[i] == before[i]);
            if next.contains(i as usize) {
                let j2 = choose|j2: int| 0 <= j2 < pending.len() && pending[j2] == i as usize && !succeeded[j2];
                assert(pending.contains(i as usize));
            }
        }
    }
}

/// One more round, with one outcome per pending controller, extends the first rounds.
#[verifier::spinoff_prover]
#[verifier::rlimit(60)]
proof fn lemma_run_prefix_push(n: nat, rounds: Seq<Seq<bool>>, outcomes: Seq<bool>)
    requires
        is_auto_return_prefix(n, rounds),
        rounds.len() < MAX_AUTO_RETRIES_ON_EXIT,
        pending_after(all_positions(n), rounds).len() > 0,
        outcomes.len() == pending_after(all_positions(n), rounds).len(),
    ensures
        is_auto_return_prefix(n, rounds.push(outcomes)),
        pending_after(all_positions(n), rounds.push(outcomes)) == still_failing(
            pending_after(all_positions(n), rounds),
            outcomes,
        ),
{
    let new_rounds = rounds.push(outcomes);
    assert(new_rounds.drop_last() == rounds);
    assert forall|k: int| 0 <= k < new_rounds.len() implies {
        &&& pending_after(all_positions(n), new_rounds.take(k)).len() > 0
        &&& (#[trigger] new_rounds[k]).len() == pending_after(all_positions(n), new_rounds.take(k)).len()
    } by {
        if k < rounds.len() {
            assert(new_rounds.take(k) =~= rounds.take(k));
            assert(new_rounds[k] == rounds[k]);
        } else {
            assert(new_rounds.take(k) =~= rounds);
            assert(new_rounds[k] == outcomes);
        }
    }
}

/// Tries to return every controller to automatic mode: each round asks every pending
/// controller to switch to automatic mode, and a controller whose attempt fails is tried
/// again in the next round, for at most [`MAX_AUTO_RETRIES_ON_EXIT`] rounds. Returns how
/// many controllers could not be returned to automatic mode: those whose last attempt failed.
pub fn return_to_auto<C: AutoSwitch>(controllers: &mut Vec<C>) -> (r: usize)
    ensures
        final(controllers)@.len() == old(controllers)@.len(),
        forall|i: int|
            0 <= i < old(controllers)@.len() ==> (#[trigger] final(controllers)@[i]).requested_auto() == Some(true),
        exists|rounds: Seq<Seq<bool>>| #[trigger]
            is_auto_return_run(old(controllers)@.len(), rounds) && {
                let left = pending_after(all_positions(old(controllers)@.len()), rounds);
                &&& r == left.len()
                &&& forall|i: int|
                    0 <= i < old(controllers)@.len() ==> ((#[trigger] final(controllers)@[i]).last_switch_ok()
                        <==> !left.contains(i as usize))
            },
{
    let n = controllers.len();
    let mut pending: Vec<usize> = Vec::new();
    for i in 0..n
        invariant
            pending@ == all_positions(i as nat),
    {
        pending.push(i);
        assert(pending@ =~= all_positions((i + 1) as nat));
    }
    let ghost all = all_positions(n as nat);
    let ghost mut rounds: Seq<Seq<bool>> = Seq::empty();
    let mut retries: u8 = MAX_AUTO_RETRIES_ON_EXIT;
    while pending.len() > 0 && retries > 0
        invariant
            controllers@.len() == n,
            all == all_positions(n as nat),
            rounds.len() + retries == MAX_AUTO_RETRIES_ON_EXIT,
            is_auto_return_prefix(n as nat, rounds),
            pending@ == pending_after(all, rounds),
            strictly_increasing(pending@),
            forall|j: int| 0 <= j < pending@.len() ==> (#[trigger] pending@[j]) < n,
            rounds.len() > 0 ==> forall|i: int|
                0 <= i < n ==> (#[trigger] controllers@[i]).requested_auto() == Some(true),
            rounds.len() > 0 ==> forall|i: int|
                0 <= i < n ==> ((#[trigger] controllers@[i]).last_switch_ok() <==> !pending@.contains(i as usize)),
        decreases retries,
    {
        let ghost before = controllers@;
        let mut succeeded: Vec<bool> = Vec::new();
        let m = pending.len();
        for k in 0..m
            invariant
                controllers@.len() == n,
                m == pending@.len(),
                succeeded@.len() == k,
                strictly_increasing(pending@),
                forall|j: int| 0 <= j < pending@.len() ==> (#[trigger] pending@[j]) < n,
                forall|j: int| 0 <= j < k ==> {
                    &&& (#[trigger] controllers@[pending@[j] as int]).requested_auto() == Some(true)
                    &&& controllers@[pending@[j] as int].last_switch_ok() == succeeded@[j]
                },
                forall|i: int|
                    0 <= i < n && !pending@.take(k as int).contains(i as usize) ==> #[trigger] controllers@[i] == before[i],
        {
            let idx = pending[k];
            let outcome = controllers[idx].set_auto(true);
            succeeded.push(outcome.is_ok());
            proof {
                assert forall|i: int|
                    0 <= i < n && !pending@.take(k + 1).contains(i as usize) implies #[trigger] controllers@[i] == before[i] by {
                    assert(pending@.take(k + 1)[k as int] == idx);
                    if pending@.take(k as int).contains(i as usize) {
                        let j = choose|j: int| 0 <= j < k && pending@.take(k as int)[j] == i as usize;
                        assert(pending@.take(k + 1)[j] == i as usize);
                    }
                }
                assert forall|j: int| 0 <= j < k + 1 implies {
                    &&& (#[trigger] controllers@[pending@[j] as int]).requested_auto() == Some(true)
                    &&& controllers@[pending@[j] as int].last_switch_ok() == succeeded@[j]
                } by {
                    if j < k {
                        assert(pending@[j] < pending@[k as int]);
                    }
                }
            }
        }
        let next = retry_round(&pending, &succeeded);
        proof {
            assert(pending@.take(m as int) == pending@);
            lemma_round_outcome(before, controllers@, pending@, succeeded@, n as nat, rounds.len() == 0);
            lemma_run_prefix_push(n as nat, rounds, succeeded@);
            rounds = rounds.push(succeeded@);
        }
        pending = next;
        retries = retries - 1;
    }
    proof {
        assert(is_auto_return_run(n as nat, rounds));
    }
    pending.len()
}

/// The positions in `chosen` whose controller's last switch failed, in order.
pub open spec fn failed_switches<C: AutoSwitch>(controllers: Seq<C>, chosen: Seq<usize>) -> Seq<usize> {
    still_failing(chosen, Seq::new(chosen.len(), |j: int| controllers[chosen[j] as int].last_switch_ok()))
}

/// Switches each controller at a position in `chosen` to automatic mode (`auto`) or to
/// control by this program, going on past failures, and leaves the others alone. `Ok` when
/// every switch succeeded; else the errors of the failed switches, one per failure.
pub fn switch_chosen<C: AutoSwitch>(controllers: &mut Vec<C>, chosen: &Vec<usize>, auto: bool) -> (r: Result<(), ErrorGroup<C::Error>>)
    requires
        strictly_increasing(chosen@),
        forall|j: int| 0 <= j < chosen@.len() ==> (#[trigger] chosen@[j]) < old(controllers)@.len(),
    ensures
        final(controllers)@.len() == old(controllers)@.len(),
        forall|i: int|
            0 <= i < old(controllers)@.len() && !chosen@.contains(i as usize) ==> (#[trigger] final(controllers)@[i])
                == old(controllers)@[i],
        forall|j: int|
            0 <= j < chosen@.len() ==> (#[trigger] final(controllers)@[chosen@[j] as int]).requested_auto() == Some(auto),
        r is Ok <==> failed_switches(final(controllers)@, chosen@).len() == 0,
        r matches Err(g) ==> g@.len() == failed_switches(final(controllers)@, chosen@).len(),
{
    let ghost before = controllers@;
    let ghost n = controllers@.len();
    let mut group: ErrorGroup<C::Error> = ErrorGroup::new();
    let mut succeeded: Vec<bool> = Vec::new();
    let m = chosen.len();
    for k in 0..m
        invariant
            controllers@.len() == n,
            n == before.len(),
            m == chosen@.len(),
            succeeded@.len() == k,
            strictly_increasing(chosen@),
            forall|j: int| 0 <= j < chosen@.len() ==> (#[trigger] chosen@[j]) < n,
            forall|j: int| 0 <= j < k ==> {
                &&& (#[trigger] controllers@[chosen@[j] as int]).requested_auto() == Some(auto)
                &&& controllers@[chosen@[j] as int].last_switch_ok() == succeeded@[j]
            },
            forall|i: int|
                0 <= i < n && !chosen@.take(k as int).contains(i as usize) ==> #[trigger] controllers@[i] == before[i],
            group@.len() == still_failing(chosen@.take(k as int), succeeded@).len(),
    {
        let idx = chosen[k];
        let outcome = controllers[idx].set_auto(auto);
        let ok = outcome.is_ok();
        match outcome {
            Ok(()) => {},
            Err(e) => group.push(e),
        }
        let ghost old_succeeded = succeeded@;
        succeeded.push(ok);
        proof {
            lemma_still_failing_frame(chosen@.take(k as int), old_succeeded, succeeded@);
            lemma_still_failing_prefix(chosen@, succeeded@, k as int);
            assert forall|i: int|
                0 <= i < n && !chosen@.take(k + 1).contains(i as usize) implies #[trigger] controllers@[i] == before[i] by {
                assert(chosen@.take(k + 1)[k as int] == idx);
                if chosen@.take(k as int).contains(i as usize) {
                    let j = choose|j: int| 0 <= j < k && chosen@.take(k as int)[j] == i as usize;
                    assert(chosen@.take(k + 1)[j] == i as usize);
                }
            }
            assert forall|j: int| 0 <= j < k + 1 implies {
                &&& (#[trigger] controllers@[chosen@[j] as int]).requested_auto() == Some(auto)
                &&& controllers@[chosen@[j] as int].last_switch_ok() == succeeded@[j]
            } by {
                if j < k {
                    assert(chosen@[j] < chosen@[k as int]);
                }
            }
        }
    }
    proof {
        assert(chosen@.take(m as int) == chosen@);
        assert(succeeded@ =~= Seq::new(chosen@.len(), |j: int| controllers@[chosen@[j] as int].last_switch_ok()));
        assert forall|i: int|
            0 <= i < n && !chosen@.contains(i as usize) implies #[trigger] controllers@[i] == before[i] by {}
    }
    group.ok()
}

/// `list` joined into one text, with `sep` between neighbouring elements.
pub open spec fn seq_join(list: Seq<Seq<char>>, sep: Seq<char>) -> Seq<char>
    decreases list.len(),
{
    if list.len() == 0 {
        Seq::empty()
    } else if list.len() == 1 {
        list[0]
    } else {
        seq_join(list.drop_last(), sep) + sep + list.last()
    }
}

/// A slice of texts, shown joined by a separator.
pub struct SliceJoinDisplay<'a, 'b> {
    slice: &'a [String],
    join: &'b str,
}

impl<'a, 'b> SliceJoinDisplay<'a, 'b> {
    pub closed spec fn items(&self) -> Seq<Seq<char>> {
        self.slice@.map_values(|s: String| s@)
    }

    pub closed spec fn separator(&self) -> Seq<char> {
        self.join@
    }

    /// The joined text.
    pub fn render(&self) -> (r: String)
        ensures
            r@ == seq_join(self.items(), self.separator()),
    {
        let mut out = String::new();
        let ghost items = self.items();
        let n = self.slice.len();
        for i in 0..n
            invariant
                n == self.slice@.len(),
                items == self.items(),
                items.len() == n,
                forall|j: int| 0 <= j < n ==> #[trigger] items[j] == self.slice@[j]@,
                out@ == seq_join(items.take(i as int), self.join@),
        {
            proof {
                assert(items.take(i + 1).drop_last() == items.take(i as int));
            }
            if i > 0 {
                out.append(self.join);
            }
            out.append(self.slice[i].as_str());
        }
        proof {
            assert(items.take(n as int) == items);
        }
        out
    }
}

/// Shows `slice` with `join` between neighbouring elements.
pub fn display_join<'a, 'b>(slice: &'a [String], join: &'b str) -> (r: SliceJoinDisplay<'a, 'b>)
    ensures
        r.items() == slice@.map_values(|s: String| s@),
        r.separator() == join@,
{
    SliceJoinDisplay { slice, join }
}

/// The errors of a group, each as `  - <text>,`, one after the other.
pub open spec fn error_items(texts: Seq<Seq<char>>) -> Seq<char>
    decreases texts.len(),
{
    if texts.len() == 0 {
        Seq::empty()
    } else {
        error_items(texts.drop_last()) + seq![' ', ' ', '-', ' '] + texts.last() + seq![',']
    }
}

/// The start of the description of an [`ErrorGroup`].
pub const ERROR_GROUP_PREFIX: &'static str = "ErrorGroup[\n";

/// How an [`ErrorGroup`] is described, given the description of each of its errors in order:
/// `ErrorGroup[`, a line break, each error as `  - <text>,`, then `]`.
pub fn error_group_text(texts: &Vec<String>) -> (r: String)
    ensures
        r@ == ERROR_GROUP_PREFIX@ + error_items(texts@.map_values(|t: String| t@)) + seq![']'],
{
    let ghost all = texts@.map_values(|t: String| t@);
    let mut s = String::from_str(ERROR_GROUP_PREFIX);
    proof {
        reveal_strlit("  - ");
        assert(all.take(0) =~= Seq::<Seq<char>>::empty());
        assert(s@ =~= ERROR_GROUP_PREFIX@ + error_items(all.take(0)));
    }
    let n = texts.len();
    for i in 0..n
        invariant
            n == texts@.len(),
            all == texts@.map_values(|t: String| t@),
            s@ == ERROR_GROUP_PREFIX@ + error_items(all.take(i as int)),
    {
        proof {
            assert(all.take(i + 1).drop_last() == all.take(i as int));
            assert(all.take(i + 1).last() == texts@[i as int]@);
            reveal_strlit("  - ");
            assert("  - "@ == seq![' ', ' ', '-', ' ']);
        }
        s.append("  - ");
        s.append(texts[i].as_str());
        push_char(&mut s, ',');
        proof {
            assert(s@ =~= ERROR_GROUP_PREFIX@ + error_items(all.take(i + 1)));
        }
    }
    push_char(&mut s, ']');
    proof {
        assert(all.take(n as int) == all);
    }
    s
}

} // verus!
