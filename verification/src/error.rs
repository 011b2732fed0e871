//! The unified error channel of the compilation pipeline.
//!
//! Every stage failure is carried by one closed taxonomy, `CompilationError`:
//! one variant per failure origin, wrapping each collaborator's native error
//! verbatim, with an opaque `Custom` escape hatch for errors the core cannot
//! enumerate in advance.  Conversions are total and lossless; intermediate
//! layers re-tag, they never re-stringify.
use crate::fragment::spec_err_text;
use crate::fragment::ValidFragmentError;
use vstd::prelude::*;

verus! {

#[verifier::external_type_specification]
#[verifier::external_body]
pub struct ExParseAmountError(bitcoin::util::amount::ParseAmountError);

#[verifier::external_type_specification]
#[verifier::external_body]
pub struct ExCompilerError(miniscript::policy::compiler::CompilerError);

#[verifier::external_type_specification]
#[verifier::external_body]
pub struct ExMiniscriptError(miniscript::Error);

/// A timelock-consistency failure reported by the timelock collaborator,
/// carried as its renderable message.
#[derive(Debug, Clone, PartialEq, Eq)]
pub struct LockTimeError {
    pub message: String,
}

/// A failure to create a compiled object, reported by the object
/// collaborator, carried as its renderable message.
#[derive(Debug, Clone, PartialEq, Eq)]
pub struct ObjectError {
    pub message: String,
}

/// A failure of the effects key-value collaborator, carried as its
/// renderable message.
#[derive(Debug, Clone, PartialEq, Eq)]
pub struct EffectDBError {
    pub message: String,
}

/// An unanticipated collaborator or user error: an owned, opaque value
/// exposing a renderable message and an optional underlying cause.
#[derive(Debug, Clone, PartialEq, Eq)]
pub struct CustomError {
    pub message: String,
    pub cause: Option<String>,
}

/// The single error type returned from every compilation entry point: a
/// closed taxonomy with one variant per failure origin.
#[derive(Debug)]
pub enum CompilationError {
    /// Unspecified abort signal: stop compiling.
    TerminateCompilation,
    /// The fee policy was violated.
    MinFeerateError,
    /// The same canonical path was derived twice within one compilation run.
    ContexPathAlreadyDerived,
    /// A malformed path was encountered during derivation.
    InvalidPathName,
    /// Fragment or path text validation failed.
    PathFragmentError(ValidFragmentError),
    /// A continuation step yielded zero output templates.
    MissingTemplates,
    /// A policy compiled to an empty, unsatisfiable set.
    EmptyPolicy,
    /// A requested spend exceeds the funds provably available at this node.
    OutOfFunds,
    /// A relative timelock conflicts with the sequence already fixed here.
    IncompatibleSequence,
    /// An absolute timelock conflicts with the locktime already fixed here.
    IncompatibleLockTime,
    /// A relative-timelock constraint addressed an input index out of range.
    NoSuchSequence,
    /// The amount collaborator failed to parse an amount.
    ParseAmountError(bitcoin::util::amount::ParseAmountError),
    /// The policy compiler collaborator failed.
    Miniscript(miniscript::policy::compiler::CompilerError),
    /// The script-language collaborator failed.
    MiniscriptE(miniscript::Error),
    /// The timelock collaborator failed.
    TimeLockError(LockTimeError),
    /// The compiled-object collaborator failed.
    CompiledObjectError(ObjectError),
    /// Every candidate branch of a conditional compilation failed; the
    /// per-branch diagnostics are kept in evaluation order.
    ConditionalCompilationFailed(Vec<String>),
    /// The effects-database collaborator failed.
    EffectDBError(EffectDBError),
    /// An unanticipated collaborator or user error.
    Custom(CustomError),
}

impl CompilationError {
    /// Wrap an unanticipated collaborator or user error.
    pub fn custom(e: CustomError) -> (r: Self)
        ensures
            r == CompilationError::Custom(e),
    {
        CompilationError::Custom(e)
    }
}

impl vstd::std_specs::convert::FromSpecImpl<ValidFragmentError> for CompilationError {
    open spec fn obeys_from_spec() -> bool {
        true
    }

    open spec fn from_spec(e: ValidFragmentError) -> Self {
        CompilationError::PathFragmentError(e)
    }
}

impl From<ValidFragmentError> for CompilationError {
    fn from(e: ValidFragmentError) -> Self {
        CompilationError::PathFragmentError(e)
    }
}

impl vstd::std_specs::convert::FromSpecImpl<EffectDBError> for CompilationError {
    open spec fn obeys_from_spec() -> bool {
        true
    }

    open spec fn from_spec(e: EffectDBError) -> Self {
        CompilationError::EffectDBError(e)
    }
}

impl From<EffectDBError> for CompilationError {
    fn from(e: EffectDBError) -> Self {
        CompilationError::EffectDBError(e)
    }
}

impl vstd::std_specs::convert::FromSpecImpl<bitcoin::util::amount::ParseAmountError> for CompilationError {
    open spec fn obeys_from_spec() -> bool {
        true
    }

    open spec fn from_spec(e: bitcoin::util::amount::ParseAmountError) -> Self {
        CompilationError::ParseAmountError(e)
    }
}

impl From<bitcoin::util::amount::ParseAmountError> for CompilationError {
    fn from(e: bitcoin::util::amount::ParseAmountError) -> Self {
        CompilationError::ParseAmountError(e)
    }
}

impl vstd::std_specs::convert::FromSpecImpl<LockTimeError> for CompilationError {
    open spec fn obeys_from_spec() -> bool {
        true
    }

    open spec fn from_spec(e: LockTimeError) -> Self {
        CompilationError::TimeLockError(e)
    }
}

impl From<LockTimeError> for CompilationError {
    fn from(e: LockTimeError) -> Self {
        CompilationError::TimeLockError(e)
    }
}

impl vstd::std_specs::convert::FromSpecImpl<miniscript::policy::compiler::CompilerError> for CompilationError {
    open spec fn obeys_from_spec() -> bool {
        true
    }

    open spec fn from_spec(e: miniscript::policy::compiler::CompilerError) -> Self {
        CompilationError::Miniscript(e)
    }
}

impl From<miniscript::policy::compiler::CompilerError> for CompilationError {
    fn from(e: miniscript::policy::compiler::CompilerError) -> Self {
        CompilationError::Miniscript(e)
    }
}

impl vstd::std_specs::convert::FromSpecImpl<miniscript::Error> for CompilationError {
    open spec fn obeys_from_spec() -> bool {
        true
    }

    open spec fn from_spec(e: miniscript::Error) -> Self {
        CompilationError::MiniscriptE(e)
    }
}

impl From<miniscript::Error> for CompilationError {
    fn from(e: miniscript::Error) -> Self {
        CompilationError::MiniscriptE(e)
    }
}

impl vstd::std_specs::convert::FromSpecImpl<ObjectError> for CompilationError {
    open spec fn obeys_from_spec() -> bool {
        true
    }

    open spec fn from_spec(e: ObjectError) -> Self {
        CompilationError::CompiledObjectError(e)
    }
}

impl From<ObjectError> for CompilationError {
    fn from(e: ObjectError) -> Self {
        CompilationError::CompiledObjectError(e)
    }
}

/// Relies on the `Debug` rendering of bitcoin's `ParseAmountError`, used
/// only to display the wrapped error.
#[verifier::external_body]
fn parse_amount_debug(e: &bitcoin::util::amount::ParseAmountError) -> String {
    format!("{:?}", e)
}

/// Relies on the `Debug` rendering of miniscript's `CompilerError`, used
/// only to display the wrapped error.
#[verifier::external_body]
fn compiler_error_debug(e: &miniscript::policy::compiler::CompilerError) -> String {
    format!("{:?}", e)
}

/// Relies on the `Debug` rendering of miniscript's `Error`, used only to
/// display the wrapped error.
#[verifier::external_body]
fn miniscript_error_debug(e: &miniscript::Error) -> String {
    format!("{:?}", e)
}

/// `p` is the leading text of `s`.
pub open spec fn has_prefix(s: Seq<char>, p: Seq<char>) -> bool {
    s.len() >= p.len() && s.subrange(0, p.len() as int) == p
}

/// The views of a sequence of diagnostic strings.
pub open spec fn str_seq_views(ss: Seq<String>) -> Seq<Seq<char>> {
    ss.map_values(|s: String| s@)
}

/// One line per diagnostic, in order, each on its own line.
pub open spec fn diag_tail(ds: Seq<Seq<char>>) -> Seq<char>
    decreases ds.len(),
{
    if ds.len() == 0 {
        seq![]
    } else {
        seq!['\n'] + ds[0] + diag_tail(ds.drop_first())
    }
}

/// The trailing cause note of a custom error's display, if any.
pub open spec fn cause_tail(c: Option<String>) -> Seq<char> {
    match c {
        None => seq![],
        Some(m) => "; caused by: "@ + m@,
    }
}

/// Appending one more diagnostic appends one more line.
proof fn lemma_diag_push(ds: Seq<Seq<char>>, x: Seq<char>)
    ensures
        diag_tail(ds.push(x)) == diag_tail(ds) + (seq!['\n'] + x),
    decreases ds.len(),
{
    let pushed = ds.push(x);
    if ds.len() == 0 {
        assert(pushed[0] == x);
        assert(pushed.drop_first() =~= Seq::<Seq<char>>::empty());
        assert(diag_tail(Seq::<Seq<char>>::empty()) == Seq::<char>::empty());
        assert(diag_tail(pushed) =~= seq!['\n'] + x);
        assert(diag_tail(ds) + (seq!['\n'] + x) =~= seq!['\n'] + x);
    } else {
        assert(pushed[0] == ds[0]);
        assert(pushed.drop_first() =~= ds.drop_first().push(x));
        lemma_diag_push(ds.drop_first(), x);
        assert(seq!['\n'] + pushed[0] + (diag_tail(ds.drop_first()) + (seq!['\n'] + x)) =~= (
        seq!['\n'] + ds[0] + diag_tail(ds.drop_first())) + (seq!['\n'] + x));
    }
}

impl CompilationError {
    /// Render this error as its stable diagnostic text, always naming the
    /// originating stage or collaborator.  Conditional-compilation failures
    /// list every branch diagnostic, one line each, in evaluation order.
    pub fn message(&self) -> (r: String)
        ensures
            match self {
                CompilationError::TerminateCompilation => r@ == "Compile Error: Unspecified!"@,
                CompilationError::MinFeerateError => r@ == "Compile Error: Minimum Fee Rate!"@,
                CompilationError::ContexPathAlreadyDerived => r@
                    == "Compile Error: ContextPath has already been used!"@,
                CompilationError::InvalidPathName => r@ == "Compile Error: InvalidPathName!"@,
                CompilationError::PathFragmentError(e) => r@
                    == "Compile Error; Path Fragment: "@ + spec_err_text(e@),
                CompilationError::MissingTemplates => r@
                    == "Compile Error: `ThenFunc` returns no Templates!"@,
                CompilationError::EmptyPolicy => r@ == "Compile Error: Policy is empty!"@,
                CompilationError::OutOfFunds => r@
                    == "Compile Error: Contract does not have sufficient funds available!"@,
                CompilationError::IncompatibleSequence => r@
                    == "Compile Error: CheckSequenceVerify clause is incompatible with the sequence already set!"@,
                CompilationError::IncompatibleLockTime => r@
                    == "Compile Error: CheckLockTime clause is incompatible with the locktime already set!"@,
                CompilationError::NoSuchSequence => r@ == "Compile Error: No such sequence!"@,
                CompilationError::ParseAmountError(_) => has_prefix(
                    r@,
                    "Compile Error; Parse Amount: "@,
                ),
                CompilationError::Miniscript(_) => has_prefix(
                    r@,
                    "Compile Error; Miniscript Policy: "@,
                ),
                CompilationError::MiniscriptE(_) => has_prefix(
                    r@,
                    "Compile Error; Miniscript: "@,
                ),
                CompilationError::TimeLockError(e) => r@
                    == "Compile Error; Time Lock: "@ + e.message@,
                CompilationError::CompiledObjectError(e) => r@
                    == "Compile Error; Object: "@ + e.message@,
                CompilationError::ConditionalCompilationFailed(ds) => r@
                    == "Compilation Error: Failure in conditional compilation logic!"@ + diag_tail(
                    str_seq_views(ds@),
                ),
                CompilationError::EffectDBError(e) => r@
                    == "Compile Error; Effect DB: "@ + e.message@,
                CompilationError::Custom(e) => r@
                    == "Compile Error: "@ + e.message@ + cause_tail(e.cause),
            },
    {
        match self {
            CompilationError::TerminateCompilation => "Compile Error: Unspecified!".to_owned(),
            CompilationError::MinFeerateError => "Compile Error: Minimum Fee Rate!".to_owned(),
            CompilationError::ContexPathAlreadyDerived => {
                "Compile Error: ContextPath has already been used!".to_owned()
            },
            CompilationError::InvalidPathName => "Compile Error: InvalidPathName!".to_owned(),
            CompilationError::PathFragmentError(e) => {
                let mut out = "Compile Error; Path Fragment: ".to_owned();
                let m = e.message();
                out.append(m.as_str());
                out
            },
            CompilationError::MissingTemplates => {
                "Compile Error: `ThenFunc` returns no Templates!".to_owned()
            },
            CompilationError::EmptyPolicy => "Compile Error: Policy is empty!".to_owned(),
            CompilationError::OutOfFunds => {
                "Compile Error: Contract does not have sufficient funds available!".to_owned()
            },
            CompilationError::IncompatibleSequence => {
                "Compile Error: CheckSequenceVerify clause is incompatible with the sequence already set!".to_owned()
            },
            CompilationError::IncompatibleLockTime => {
                "Compile Error: CheckLockTime clause is incompatible with the locktime already set!".to_owned()
            },
            CompilationError::NoSuchSequence => "Compile Error: No such sequence!".to_owned(),
            CompilationError::ParseAmountError(e) => {
                let mut out = "Compile Error; Parse Amount: ".to_owned();
                let ghost p = out@;
                let m = parse_amount_debug(e);
                out.append(m.as_str());
                proof {
                    assert(out@.subrange(0, p.len() as int) =~= p);
                }
                out
            },
            CompilationError::Miniscript(e) => {
                let mut out = "Compile Error; Miniscript Policy: ".to_owned();
                let ghost p = out@;
                let m = compiler_error_debug(e);
                out.append(m.as_str());
                proof {
                    assert(out@.subrange(0, p.len() as int) =~= p);
                }
                out
            },
            CompilationError::MiniscriptE(e) => {
                let mut out = "Compile Error; Miniscript: ".to_owned();
                let ghost p = out@;
                let m = miniscript_error_debug(e);
                out.append(m.as_str());
                proof {
                    assert(out@.subrange(0, p.len() as int) =~= p);
                }
                out
            },
            CompilationError::TimeLockError(e) => {
                let mut out = "Compile Error; Time Lock: ".to_owned();
                out.append(e.message.as_str());
                out
            },
            CompilationError::CompiledObjectError(e) => {
                let mut out = "Compile Error; Object: ".to_owned();
                out.append(e.message.as_str());
                out
            },
            CompilationError::ConditionalCompilationFailed(ds) => {
                let mut out =
                    "Compilation Error: Failure in conditional compilation logic!".to_owned();
                let ghost base = out@;
                let mut k: usize = 0;
                proof {
                    assert(str_seq_views(ds@).take(0) =~= Seq::<Seq<char>>::empty());
                    assert(out@ =~= base + diag_tail(str_seq_views(ds@).take(0)));
                }
                while k < ds.len()
                    invariant
                        k <= ds@.len(),
                        base == "Compilation Error: Failure in conditional compilation logic!"@,
                        out@ == base + diag_tail(str_seq_views(ds@).take(k as int)),
                    decreases ds@.len() - k,
                {
                    out.append("\n");
                    out.append(ds[k].as_str());
                    proof {
                        reveal_strlit("\n");
                        let views = str_seq_views(ds@);
                        lemma_diag_push(views.take(k as int), views[k as int]);
                        assert(views.take(k as int).push(views[k as int]) =~= views.take(
                            k as int + 1,
                        ));
                        assert(out@ =~= base + diag_tail(views.take(k as int + 1)));
                    }
                    k += 1;
                }
                proof {
                    assert(str_seq_views(ds@).take(ds@.len() as int) =~= str_seq_views(ds@));
                }
                out
            },
            CompilationError::EffectDBError(e) => {
                let mut out = "Compile Error; Effect DB: ".to_owned();
                out.append(e.message.as_str());
                out
            },
            CompilationError::Custom(e) => {
                let mut out = "Compile Error: ".to_owned();
                out.append(e.message.as_str());
                match &e.cause {
                    None => {
                        proof {
                            assert(out@ =~= "Compile Error: "@ + e.message@ + cause_tail(e.cause));
                        }
                    },
                    Some(c) => {
                        out.append("; caused by: ");
                        out.append(c.as_str());
                        proof {
                            assert(out@ =~= "Compile Error: "@ + e.message@ + cause_tail(e.cause));
                        }
                    },
                }
                out
            },
        }
    }
}

/// Every designated collaborator error converts to exactly one variant, and
/// pattern-matching that variant recovers the original value unchanged.
pub proof fn lemma_wrapping_lossless(
    a: bitcoin::util::amount::ParseAmountError,
    b: miniscript::policy::compiler::CompilerError,
    c: miniscript::Error,
    d: LockTimeError,
    e: ObjectError,
    f: EffectDBError,
    g: ValidFragmentError,
)
    ensures
        <CompilationError as vstd::std_specs::convert::FromSpec<
            bitcoin::util::amount::ParseAmountError,
        >>::from_spec(a) matches CompilationError::ParseAmountError(x) && x == a,
        <CompilationError as vstd::std_specs::convert::FromSpec<
            miniscript::policy::compiler::CompilerError,
        >>::from_spec(b) matches CompilationError::Miniscript(x) && x == b,
        <CompilationError as vstd::std_specs::convert::FromSpec<miniscript::Error>>::from_spec(c)
            matches CompilationError::MiniscriptE(x) && x == c,
        <CompilationError as vstd::std_specs::convert::FromSpec<LockTimeError>>::from_spec(d)
            matches CompilationError::TimeLockError(x) && x == d,
        <CompilationError as vstd::std_specs::convert::FromSpec<ObjectError>>::from_spec(e)
            matches CompilationError::CompiledObjectError(x) && x == e,
        <CompilationError as vstd::std_specs::convert::FromSpec<EffectDBError>>::from_spec(f)
            matches CompilationError::EffectDBError(x) && x == f,
        <CompilationError as vstd::std_specs::convert::FromSpec<ValidFragmentError>>::from_spec(g)
            matches CompilationError::PathFragmentError(x) && x == g,
{
}

} // verus!
