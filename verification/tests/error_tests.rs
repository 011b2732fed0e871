use sapio_core::CompilationError;
use sapio_core::CustomError;
use sapio_core::EffectDBError;
use sapio_core::LockTimeError;
use sapio_core::ObjectError;
use sapio_core::PathFragment;
use sapio_core::ValidFragmentError;

#[test]
fn fragment_errors_wrap_losslessly() {
    let original = match PathFragment::try_from_str("b@d") {
        Err(e) => e,
        Ok(_) => panic!("expected a bad name"),
    };
    match CompilationError::from(original.clone()) {
        CompilationError::PathFragmentError(inner) => assert_eq!(inner, original),
        other => panic!("wrong variant: {:?}", other),
    }
}

#[test]
fn amount_errors_wrap_losslessly() {
    let original = bitcoin::util::amount::ParseAmountError::Negative;
    match CompilationError::from(original.clone()) {
        CompilationError::ParseAmountError(inner) => assert_eq!(inner, original),
        other => panic!("wrong variant: {:?}", other),
    }
}

#[test]
fn policy_compiler_errors_wrap_losslessly() {
    let original = miniscript::policy::compiler::CompilerError::TopLevelNonSafe;
    match CompilationError::from(original) {
        CompilationError::Miniscript(inner) => assert_eq!(inner, original),
        other => panic!("wrong variant: {:?}", other),
    }
}

#[test]
fn miniscript_errors_wrap_losslessly() {
    let original = miniscript::Error::CmsTooManyKeys(21);
    match CompilationError::from(original) {
        CompilationError::MiniscriptE(inner) => {
            assert_eq!(inner, miniscript::Error::CmsTooManyKeys(21))
        },
        other => panic!("wrong variant: {:?}", other),
    }
}

#[test]
fn timelock_errors_wrap_losslessly() {
    let original = LockTimeError {
        message: String::from("height locks cannot mix with time locks"),
    };
    match CompilationError::from(original.clone()) {
        CompilationError::TimeLockError(inner) => assert_eq!(inner, original),
        other => panic!("wrong variant: {:?}", other),
    }
}

#[test]
fn object_errors_wrap_losslessly() {
    let original = ObjectError {
        message: String::from("no address for script"),
    };
    match CompilationError::from(original.clone()) {
        CompilationError::CompiledObjectError(inner) => assert_eq!(inner, original),
        other => panic!("wrong variant: {:?}", other),
    }
}

#[test]
fn effect_db_errors_wrap_losslessly() {
    let original = EffectDBError {
        message: String::from("effect value was not an object"),
    };
    match CompilationError::from(original.clone()) {
        CompilationError::EffectDBError(inner) => assert_eq!(inner, original),
        other => panic!("wrong variant: {:?}", other),
    }
}

#[test]
fn custom_keeps_message_and_cause() {
    let e = CompilationError::custom(CustomError {
        message: String::from("oracle refused"),
        cause: Some(String::from("connection reset")),
    });
    match &e {
        CompilationError::Custom(inner) => {
            assert_eq!(inner.message, "oracle refused");
            assert_eq!(inner.cause.as_deref(), Some("connection reset"));
        },
        other => panic!("wrong variant: {:?}", other),
    }
    assert_eq!(
        e.message(),
        "Compile Error: oracle refused; caused by: connection reset"
    );
    let bare = CompilationError::custom(CustomError {
        message: String::from("oracle refused"),
        cause: None,
    });
    assert_eq!(bare.message(), "Compile Error: oracle refused");
}

#[test]
fn payload_free_messages_are_stable() {
    assert_eq!(
        CompilationError::TerminateCompilation.message(),
        "Compile Error: Unspecified!"
    );
    assert_eq!(
        CompilationError::MinFeerateError.message(),
        "Compile Error: Minimum Fee Rate!"
    );
    assert_eq!(
        CompilationError::ContexPathAlreadyDerived.message(),
        "Compile Error: ContextPath has already been used!"
    );
    assert_eq!(
        CompilationError::InvalidPathName.message(),
        "Compile Error: InvalidPathName!"
    );
    assert_eq!(
        CompilationError::MissingTemplates.message(),
        "Compile Error: `ThenFunc` returns no Templates!"
    );
    assert_eq!(
        CompilationError::EmptyPolicy.message(),
        "Compile Error: Policy is empty!"
    );
    assert_eq!(
        CompilationError::OutOfFunds.message(),
        "Compile Error: Contract does not have sufficient funds available!"
    );
    assert_eq!(
        CompilationError::IncompatibleSequence.message(),
        "Compile Error: CheckSequenceVerify clause is incompatible with the sequence already set!"
    );
    assert_eq!(
        CompilationError::IncompatibleLockTime.message(),
        "Compile Error: CheckLockTime clause is incompatible with the locktime already set!"
    );
    assert_eq!(
        CompilationError::NoSuchSequence.message(),
        "Compile Error: No such sequence!"
    );
}

#[test]
fn wrapped_collaborator_messages_name_the_stage() {
    let amount = CompilationError::from(bitcoin::util::amount::ParseAmountError::InvalidFormat);
    assert!(amount.message().starts_with("Compile Error; Parse Amount: "));
    let policy =
        CompilationError::from(miniscript::policy::compiler::CompilerError::LimitsExceeded);
    assert!(policy
        .message()
        .starts_with("Compile Error; Miniscript Policy: "));
    let script = CompilationError::from(miniscript::Error::CmsTooManyKeys(40));
    assert!(script.message().starts_with("Compile Error; Miniscript: "));
    let timelock = CompilationError::from(LockTimeError {
        message: String::from("unit mismatch"),
    });
    assert_eq!(
        timelock.message(),
        "Compile Error; Time Lock: unit mismatch"
    );
    let object = CompilationError::from(ObjectError {
        message: String::from("bad script"),
    });
    assert_eq!(object.message(), "Compile Error; Object: bad script");
    let effects = CompilationError::from(EffectDBError {
        message: String::from("missing key"),
    });
    assert_eq!(effects.message(), "Compile Error; Effect DB: missing key");
    let fragment = CompilationError::from(ValidFragmentError::BranchParseError);
    assert_eq!(
        fragment.message(),
        "Compile Error; Path Fragment: BranchParseError"
    );
}

#[test]
fn conditional_compilation_diagnostics_keep_their_order() {
    let e = CompilationError::ConditionalCompilationFailed(vec![
        String::from("a failed"),
        String::from("b failed"),
    ]);
    let text = e.message();
    assert_eq!(
        text,
        "Compilation Error: Failure in conditional compilation logic!\na failed\nb failed"
    );
    let first = text.find("a failed").unwrap();
    let second = text.find("b failed").unwrap();
    assert!(first < second);
    assert_eq!(
        CompilationError::ConditionalCompilationFailed(Vec::new()).message(),
        "Compilation Error: Failure in conditional compilation logic!"
    );
}
