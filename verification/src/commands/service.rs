//! The decisions of the fan control service: error classification, what to do after the
//! control routine ends, the poll rate, and which controllers the configuration controls.

use vstd::prelude::*;

use crate::fan_discovery::join_each;
use crate::text::{chars_of, concat_str, parse_unsigned, parse_unsigned_spec, push_char, text_eq};

verus! {

/// The poll rate, in seconds, when none is configured.
pub const DEFAULT_POLL_RATE: u64 = 3;

/// Whether the service can restart on its own after an error.
#[derive(Clone, Copy, PartialEq, Eq, Hash, Debug, Structural)]
pub enum ServiceErrorKind {
    Recoverable,
    NeedsIntervention,
}

/// An error that ended the control routine, with an optional context and its kind.
#[derive(Debug)]
pub struct ServiceError<E> {
    pub error: E,
    pub context: Option<&'static str>,
    pub kind: ServiceErrorKind,
}

impl<E> ServiceError<E> {
    fn new(kind: ServiceErrorKind, context: Option<&'static str>, e: E) -> (r: Self)
        ensures
            r.kind == kind,
            r.context == context,
            r.error == e,
    {
        ServiceError { error: e, context, kind }
    }

    pub fn with_context(kind: ServiceErrorKind, context: &'static str, e: E) -> (r: Self)
        ensures
            r.kind == kind,
            r.context == Some(context),
            r.error == e,
    {
        Self::new(kind, Some(context), e)
    }

    pub fn recoverable(e: E) -> (r: Self)
        ensures
            r.kind == ServiceErrorKind::Recoverable,
            r.context is None,
            r.error == e,
    {
        Self::new(ServiceErrorKind::Recoverable, None, e)
    }

    pub fn recoverable_ctx(context: &'static str, e: E) -> (r: Self)
        ensures
            r.kind == ServiceErrorKind::Recoverable,
            r.context == Some(context),
            r.error == e,
    {
        Self::with_context(ServiceErrorKind::Recoverable, context, e)
    }

    pub fn needs_intervention(e: E) -> (r: Self)
        ensures
            r.kind == ServiceErrorKind::NeedsIntervention,
            r.context is None,
            r.error == e,
    {
        Self::new(ServiceErrorKind::NeedsIntervention, None, e)
    }

    pub fn needs_intervention_ctx(context: &'static str, e: E) -> (r: Self)
        ensures
            r.kind == ServiceErrorKind::NeedsIntervention,
            r.context == Some(context),
            r.error == e,
    {
        Self::with_context(ServiceErrorKind::NeedsIntervention, context, e)
    }

    pub fn kind(&self) -> (r: ServiceErrorKind)
        ensures
            r == self.kind,
    {
        self.kind
    }

    /// How the error is displayed, given the displayed text of the wrapped error:
    /// `<context>: <error>`, or just the error without a context.
    pub fn describe(&self, error_text: &str) -> (r: String)
        ensures
            self.context matches Some(c) ==> r@ == c@ + seq![':', ' '] + error_text@,
            self.context is None ==> r@ == error_text@,
    {
        proof {
            reveal_strlit(": ");
        }
        match self.context {
            None => String::from_str(error_text),
            Some(context) => {
                let mut s = concat_str(context, ": ");
                s.append(error_text);
                s
            },
        }
    }
}

/// Why the configuration file could not be opened.
#[derive(Clone, Copy, PartialEq, Eq, Debug, Structural)]
pub enum OpenFailure {
    NotFound,
    PermissionDenied,
    Other,
}

/// A missing or forbidden configuration file needs the user; any other failure to open
/// it is assumed to be a passing I/O problem.
pub fn open_failure_kind(failure: OpenFailure) -> (r: ServiceErrorKind)
    ensures
        failure == OpenFailure::Other <==> r == ServiceErrorKind::Recoverable,
{
    match failure {
        OpenFailure::NotFound => ServiceErrorKind::NeedsIntervention,
        OpenFailure::PermissionDenied => ServiceErrorKind::NeedsIntervention,
        OpenFailure::Other => ServiceErrorKind::Recoverable,
    }
}

/// How a run of the control routine ended.
#[derive(Clone, Copy, PartialEq, Eq, Debug, Structural)]
pub enum RunOutcome {
    /// It returned normally (it was asked to exit).
    Finished,
    /// It returned an error of this kind.
    Failed(ServiceErrorKind),
    /// It panicked.
    Panicked,
}

/// What the service does after a run of the control routine.
#[derive(Clone, Copy, PartialEq, Eq, Debug, Structural)]
pub enum NextStep {
    /// Stop the service.
    Exit,
    /// Wait a little, then run the routine again.
    WaitAndRestart,
    /// Wait for a signal: a reload request restarts the routine, an exit request stops.
    AwaitSignal,
}

/// The service stops after a normal exit, waits for the user after an error that needs
/// intervention, and otherwise restarts after a pause.
pub fn after_run(outcome: RunOutcome) -> (r: NextStep)
    ensures
        outcome == RunOutcome::Finished ==> r == NextStep::Exit,
        outcome == RunOutcome::Failed(ServiceErrorKind::NeedsIntervention) ==> r == NextStep::AwaitSignal,
        outcome == RunOutcome::Failed(ServiceErrorKind::Recoverable) ==> r == NextStep::WaitAndRestart,
        outcome == RunOutcome::Panicked ==> r == NextStep::WaitAndRestart,
{
    match outcome {
        RunOutcome::Finished => NextStep::Exit,
        RunOutcome::Failed(ServiceErrorKind::Recoverable) => NextStep::WaitAndRestart,
        RunOutcome::Failed(ServiceErrorKind::NeedsIntervention) => NextStep::AwaitSignal,
        RunOutcome::Panicked => NextStep::WaitAndRestart,
    }
}

/// A signal received while waiting for the user.
#[derive(Clone, Copy, PartialEq, Eq, Debug, Structural)]
pub enum WaitSignal {
    Hangup,
    Interrupt,
    Terminate,
    Other(i32),
    /// The listener ended without a signal.
    Nothing,
}

/// Whether the service restarts (`true`) or stops (`false`) after the signal it waited for:
/// only an interrupt or a termination request stops it.
pub fn restart_after_signal(signal: WaitSignal) -> (r: bool)
    ensures
        r <==> !(signal == WaitSignal::Interrupt || signal == WaitSignal::Terminate),
{
    match signal {
        WaitSignal::Interrupt | WaitSignal::Terminate => false,
        _ => true,
    }
}

/// The poll rate, in seconds, from the value of the poll-rate environment variable:
/// the value if it is an unsigned 64-bit number, else [`DEFAULT_POLL_RATE`].
pub fn poll_rate(value: Option<&str>) -> (r: u64)
    ensures
        value is None ==> r == DEFAULT_POLL_RATE,
        value matches Some(v) ==> match parse_unsigned_spec(v@, u64::MAX as nat) {
            Some(n) => r == n,
            None => r == DEFAULT_POLL_RATE,
        },
{
    match value {
        None => DEFAULT_POLL_RATE,
        Some(v) => {
            let c = chars_of(v);
            match parse_unsigned(c.as_slice(), u64::MAX) {
                Some(n) => n,
                None => DEFAULT_POLL_RATE,
            }
        },
    }
}

/// Whether `keys` (texts) contains `key`.
pub open spec fn contains_text(keys: Seq<Seq<char>>, key: Seq<char>) -> bool {
    exists|i: int| 0 <= i < keys.len() && keys[i] == key
}

/// The positions of the controllers (by key) that some fan curve controls, in order.
pub open spec fn controlled_positions(keys: Seq<Seq<char>>, curve_keys: Seq<Seq<char>>) -> Seq<int>
    decreases keys.len(),
{
    if keys.len() == 0 {
        Seq::empty()
    } else {
        let before = controlled_positions(keys.drop_last(), curve_keys);
        if contains_text(curve_keys, keys.last()) {
            before.push(keys.len() - 1)
        } else {
            before
        }
    }
}

/// Whether `key` is one of `keys`.
pub fn contains_key(keys: &Vec<String>, key: &str) -> (r: bool)
    ensures
        r == contains_text(keys@.map_values(|k: String| k@), key@),
{
    let ghost ks = keys@.map_values(|k: String| k@);
    let n = keys.len();
    for i in 0..n
        invariant
            n == keys@.len(),
            ks == keys@.map_values(|k: String| k@),
            forall|j: int| 0 <= j < i ==> ks[j] != key@,
    {
        if text_eq(keys[i].as_str(), key) {
            assert(ks[i as int] == key@);
            return true;
        }
    }
    false
}

/// The controllers (given by their keys) that the fan curves (given by their controller keys)
/// control: only these are taken out of automatic mode.
pub fn controlled_controllers(keys: &Vec<String>, curve_keys: &Vec<String>) -> (r: Vec<usize>)
    ensures
        r@.map_values(|i: usize| i as int) == controlled_positions(
            keys@.map_values(|k: String| k@),
            curve_keys@.map_values(|k: String| k@),
        ),
{
    let ghost ks = keys@.map_values(|k: String| k@);
    let ghost cs = curve_keys@.map_values(|k: String| k@);
    let mut out: Vec<usize> = Vec::new();
    let n = keys.len();
    for i in 0..n
        invariant
            n == keys@.len(),
            ks == keys@.map_values(|k: String| k@),
            cs == curve_keys@.map_values(|k: String| k@),
            out@.map_values(|i: usize| i as int) == controlled_positions(ks.take(i as int), cs),
    {
        proof {
            assert(ks.take(i + 1).drop_last() == ks.take(i as int));
            assert(ks.take(i + 1).last() == keys@[i as int]@);
        }
        let ghost before = out@;
        if contains_key(curve_keys, keys[i].as_str()) {
            out.push(i);
            proof {
                assert(out@.map_values(|i: usize| i as int) == before.map_values(|i: usize| i as int).push(i as int));
            }
        }
    }
    proof {
        assert(ks.take(n as int) == ks);
    }
    out
}

/// How a failed round of fan adjustments is reported: each error's text followed by a comma,
/// all in square brackets.
pub fn error_list_text(errors: &Vec<String>) -> (r: String)
    ensures
        r@ == seq!['['] + join_each(errors@.map_values(|e: String| e@), ',') + seq![']'],
{
    let ghost all = errors@.map_values(|e: String| e@);
    let mut out = String::new();
    push_char(&mut out, '[');
    let n = errors.len();
    proof {
        assert(all.take(0) =~= Seq::<Seq<char>>::empty());
        assert(out@ =~= seq!['['] + join_each(all.take(0), ','));
    }
    for i in 0..n
        invariant
            n == errors@.len(),
            all == errors@.map_values(|e: String| e@),
            out@ == seq!['['] + join_each(all.take(i as int), ','),
    {
        proof {
            assert(all.take(i + 1).drop_last() == all.take(i as int));
            assert(all.take(i + 1).last() == errors@[i as int]@);
        }
        out.append(errors[i].as_str());
        push_char(&mut out, ',');
        proof {
            assert(out@ =~= seq!['['] + join_each(all.take(i + 1), ','));
        }
    }
    push_char(&mut out, ']');
    proof {
        assert(all.take(n as int) == all);
    }
    out
}

} // verus!
