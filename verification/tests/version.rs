use reflector_subscriptions::contract::SubscriptionContract;
use reflector_subscriptions::version::parse_major_version;

#[test]
fn version_is_the_major_number() {
    assert_eq!(SubscriptionContract::version("1.4.2"), Some(1));
    assert_eq!(SubscriptionContract::version("21.7.7"), Some(21));
    assert_eq!(SubscriptionContract::version("0.1.0"), Some(0));
    assert_eq!(SubscriptionContract::version("7"), Some(7));
    assert_eq!(SubscriptionContract::version("3."), Some(3));
    assert_eq!(SubscriptionContract::version("01.2"), Some(1));
    assert_eq!(SubscriptionContract::version("12.x.y"), Some(12));
}

#[test]
fn version_without_a_major_number() {
    assert_eq!(parse_major_version(""), None);
    assert_eq!(parse_major_version("."), None);
    assert_eq!(parse_major_version(".1"), None);
    assert_eq!(parse_major_version("x.1"), None);
    assert_eq!(parse_major_version("1x.1"), None);
    assert_eq!(parse_major_version("+"), None);
    assert_eq!(parse_major_version("+.0"), None);
    assert_eq!(parse_major_version("++1.0"), None);
    assert_eq!(parse_major_version("1+.0"), None);
    assert_eq!(parse_major_version("-1.0"), None);
    assert_eq!(parse_major_version(" 1.0"), None);
    assert_eq!(parse_major_version("1 .0"), None);
}

#[test]
fn version_with_a_sign() {
    assert_eq!(parse_major_version("+1.0"), Some(1));
    assert_eq!(parse_major_version("+21"), Some(21));
    assert_eq!(parse_major_version("+0.5"), Some(0));
    assert_eq!(parse_major_version("+4294967295.1"), Some(4294967295));
    assert_eq!(parse_major_version("+4294967296.1"), None);
}

#[test]
fn version_reads_as_the_language_reads_numbers() {
    for version in ["1.4.2", "21.7.7", "+3.0", "", ".", "+", "-1.0", "x", "007.1", "4294967296", "12a.0"] {
        let major = version.split(".").next().unwrap().parse::<u32>().ok();
        assert_eq!(parse_major_version(version), major, "{}", version);
    }
}

#[test]
fn version_at_the_limit_of_32_bits() {
    assert_eq!(parse_major_version("4294967295.0.0"), Some(4294967295));
    assert_eq!(parse_major_version("4294967296.0.0"), None);
    assert_eq!(parse_major_version("42949672950"), None);
    assert_eq!(parse_major_version("99999999999999999999999999.1"), None);
    assert_eq!(parse_major_version("0000000000000000000000001.1"), Some(1));
    assert_eq!(parse_major_version("4294967296x"), None);
}
