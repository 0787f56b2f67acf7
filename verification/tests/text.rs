use jtaskstats::failure::Failure;
use jtaskstats::text::{
    chars_of, parse_i64, parse_u32, push_decimal, push_signed_decimal, read_digits,
};

#[test]
fn parse_u32_agrees_with_std() {
    for text in [
        "0", "7", "42", "+42", "0042", "4294967295", "4294967296", "00000000000000000004294967295",
        "", "+", "-", "-0", "-1", " 1", "1 ", "1a", "a", "++1", "99999999999999999999999999999999",
        "１２",
    ] {
        assert_eq!(parse_u32(text), text.parse::<u32>().ok(), "{:?}", text);
    }
}

#[test]
fn parse_i64_agrees_with_std() {
    for text in [
        "0", "-0", "+0", "1001", "-1001", "+1001", "9223372036854775807", "9223372036854775808",
        "-9223372036854775808", "-9223372036854775809", "", "+", "-", "--1", "+-1", "-+1", "1-",
        "000000000000000000000000000000012", "-000000000000000000000000000000012", "12.0", "1e3",
        "340282366920938463463374607431768211456",
    ] {
        assert_eq!(parse_i64(text), text.parse::<i64>().ok(), "{:?}", text);
    }
}

#[test]
fn read_digits_respects_range_and_limit() {
    let chars = chars_of("ab123cd");
    assert_eq!(chars.len(), 7);
    assert_eq!(read_digits(&chars, 2, 5, 1000), Some(123));
    assert_eq!(read_digits(&chars, 2, 5, 123), Some(123));
    assert_eq!(read_digits(&chars, 2, 5, 122), None);
    assert_eq!(read_digits(&chars, 2, 4, 122), Some(12));
    assert_eq!(read_digits(&chars, 2, 2, 122), None);
    assert_eq!(read_digits(&chars, 1, 5, 1000), None);
    assert_eq!(read_digits(&chars, 2, 6, 1000), None);
}

#[test]
fn decimal_text_of_numbers() {
    for n in [0u64, 1, 9, 10, 11, 99, 100, 101, 4294967295, 18446744073709551615] {
        let mut out = String::from("n=");
        push_decimal(&mut out, n);
        assert_eq!(out, format!("n={}", n));
    }
    for n in [0i64, 1, -1, 10, -10, 1001, i64::MAX, i64::MIN, i64::MIN + 1] {
        let mut out = String::new();
        push_signed_decimal(&mut out, n);
        assert_eq!(out, n.to_string());
        assert_eq!(parse_i64(&out), Some(n));
    }
}

#[test]
fn failure_messages_carry_their_context() {
    assert_eq!(Failure::EnvironmentMissing.message(), "JAVA_HOME is not set");
    assert_eq!(
        Failure::ArtifactMissing("/opt/jdk/lib/sa-jdi.jar".to_string()).message(),
        "required file could not be found: /opt/jdk/lib/sa-jdi.jar"
    );
    assert_eq!(
        Failure::VersionProbeFailed.message(),
        "could not find the version in the output of java"
    );
    assert_eq!(
        Failure::RuntimeAttachFailed("no such method".to_string()).message(),
        "failed to attach to the runtime: no such method"
    );
    assert_eq!(
        Failure::ProtocolViolation("Thread 7 0".to_string()).message(),
        "corrupted line from jthreadinfo: Thread 7 0"
    );
    assert_eq!(
        Failure::HelperProcessFailed(Some(-2)).message(),
        "jthreadinfo exit with failure: status -2"
    );
    assert_eq!(Failure::HelperProcessFailed(None).message(), "jthreadinfo exit with failure");
    assert_eq!(Failure::InvalidInput("abc".to_string()).message(), "Invalid PID: abc");
}

#[test]
fn every_failure_ends_with_status_one() {
    for failure in [
        Failure::EnvironmentMissing,
        Failure::ArtifactMissing(String::new()),
        Failure::VersionProbeFailed,
        Failure::RuntimeAttachFailed(String::new()),
        Failure::ProtocolViolation(String::new()),
        Failure::HelperProcessFailed(Some(3)),
        Failure::HelperProcessFailed(None),
        Failure::InvalidInput(String::new()),
    ] {
        assert_eq!(failure.exit_code(), 1);
    }
}
