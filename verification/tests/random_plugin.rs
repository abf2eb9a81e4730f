use plugin_host::ExternalFunctions;
use plugin_host::Function;
use plugin_host::InvocationError;
use plugin_host::ModuleOpening;
use plugin_host::PluginDeclaration;
use plugin_host::Random;
use plugin_host::RandomModule;
use plugin_host::RequestInfo;
use plugin_host::i64_to_dec;
use plugin_host::parse_args;
use plugin_host::parse_decimal;
use plugin_host::u64_to_dec;
use plugin_host::validate_declaration;

fn host() -> PluginDeclaration {
    PluginDeclaration {
        rustc_version: String::from("rustc-test-1.0"),
        core_version: String::from("core-test-0.1"),
    }
}

#[test]
fn validate_accepts_matching_declaration() {
    let h = host();
    let d = host();
    assert!(validate_declaration(&h, &d).is_ok());
}

#[test]
fn parse_args_defaults() {
    let r = parse_args(&[]).expect("no arguments are fine");
    assert_eq!(r.min, 0);
    assert_eq!(r.max, 100);
}

#[test]
fn parse_args_one_sets_max() {
    let r = parse_args(&[7]).expect("one argument is fine");
    assert_eq!(r.min, 0);
    assert_eq!(r.max, 7);
}

#[test]
fn parse_args_two_set_both() {
    let r = parse_args(&[-3, 9]).expect("two arguments are fine");
    assert_eq!(r.min, -3);
    assert_eq!(r.max, 9);
}

#[test]
fn parse_args_three_refused() {
    match parse_args(&[1, 2, 3]) {
        Err(InvocationError::Other { msg }) => {
            assert_eq!(msg, "0, 1, or 2 arguments are required");
        }
        other => panic!("expected a refusal, got {:?}", other),
    }
}

#[test]
fn format_renders_exact_url() {
    let r = RequestInfo { min: 1, max: 10 };
    assert_eq!(
        r.format(),
        "https://www.random.org/integers/?num=1&min=1&max=10&col=1&base=10&format=plain"
    );
    let r = RequestInfo { min: -5, max: 0 };
    assert_eq!(
        r.format(),
        "https://www.random.org/integers/?num=1&min=-5&max=0&col=1&base=10&format=plain"
    );
}

#[test]
fn decimal_rendering() {
    assert_eq!(u64_to_dec(0), "0");
    assert_eq!(u64_to_dec(100), "100");
    assert_eq!(i64_to_dec(-1), "-1");
    assert_eq!(i64_to_dec(i64::MAX), "9223372036854775807");
    assert_eq!(i64_to_dec(i64::MIN), "-9223372036854775808");
}

#[test]
fn parse_decimal_plain_values() {
    assert_eq!(parse_decimal("42"), Ok(42));
    assert_eq!(parse_decimal("  -17\n"), Ok(-17));
    assert_eq!(parse_decimal("+5"), Ok(5));
    assert_eq!(parse_decimal("0012"), Ok(12));
    assert_eq!(parse_decimal("0"), Ok(0));
}

#[test]
fn parse_decimal_trims_unicode_whitespace() {
    assert_eq!(parse_decimal("\u{a0}42\u{a0}"), Ok(42));
    assert_eq!(parse_decimal("\u{2003}\u{2028}-7\u{3000}"), Ok(-7));
    assert_eq!(parse_decimal("\u{1680}\t 9\r\n"), Ok(9));
}

#[test]
fn parse_decimal_bounds() {
    assert_eq!(parse_decimal("9223372036854775807"), Ok(i64::MAX));
    assert_eq!(parse_decimal("-9223372036854775808"), Ok(i64::MIN));
    match parse_decimal("9223372036854775808") {
        Err(InvocationError::Other { msg }) => {
            assert_eq!(msg, "integer out of range in response");
        }
        other => panic!("expected out of range, got {:?}", other),
    }
    match parse_decimal("-9223372036854775809") {
        Err(InvocationError::Other { msg }) => {
            assert_eq!(msg, "integer out of range in response");
        }
        other => panic!("expected out of range, got {:?}", other),
    }
    assert!(parse_decimal("99999999999999999999999999999999999999999999").is_err());
}

#[test]
fn parse_decimal_rejects_malformed() {
    for bad in ["", "   ", "abc", "12a", "-", "+", "1 2", "--3", "0x10"] {
        match parse_decimal(bad) {
            Err(InvocationError::Other { msg }) => {
                assert_eq!(msg, "invalid integer in response", "input: {:?}", bad);
            }
            other => panic!("expected invalid for {:?}, got {:?}", bad, other),
        }
    }
}

#[test]
fn random_scenario() {
    let h = host();
    let mut ef: ExternalFunctions<Random, u8> = ExternalFunctions::new();
    let r = ef.load(
        &h,
        ModuleOpening::Opened {
            declaration: host(),
            entry: RandomModule,
            handle: 0u8,
        },
    );
    assert!(r.is_ok());
    // the bounds must be well-formed for the callable
    assert!(matches!(
        ef.call("random", &[1, 2, 3]),
        Err(InvocationError::Other { .. })
    ));
    // the external request either yields a number in range or fails with
    // a reported message; the framework does not retry
    match ef.call("random", &[1, 10]) {
        Ok(v) => assert!((1..=10).contains(&v)),
        Err(InvocationError::Other { msg }) => assert!(!msg.is_empty()),
        other => panic!("unexpected outcome {:?}", other),
    }
}

#[test]
fn rendering_and_parsing_round_trip() {
    for v in [0i64, 1, -1, 7, 100, -100, 4096, i64::MAX, i64::MIN] {
        assert_eq!(parse_decimal(&i64_to_dec(v)), Ok(v));
    }
}

#[test]
fn random_help_is_absent() {
    let r = Random;
    assert_eq!(r.help(), None);
}

#[test]
fn random_checks_its_own_arity() {
    let r = Random;
    match r.call(&[1, 2, 3, 4]) {
        Err(InvocationError::Other { msg }) => {
            assert_eq!(msg, "0, 1, or 2 arguments are required");
        }
        other => panic!("expected a refusal, got {:?}", other),
    }
}
