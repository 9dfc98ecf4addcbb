use harbor::parse_secret_pairs;
use harbor::Environment;

#[test]
fn environment_parsing_and_display() {
    let dev: Environment = "DEV".parse().expect("parse dev");
    let staging: Environment = " staging ".parse().expect("parse staging");

    assert_eq!(dev, Environment::Dev);
    assert_eq!(staging, Environment::Staging);
    assert_eq!(Environment::Prod.to_string(), "prod");

    let err = "unknown".parse::<Environment>().unwrap_err();
    assert_eq!(
        err.to_string(),
        "Environment must be one of: dev, prod, staging"
    );
}

#[test]
fn parse_secret_pairs_handles_valid_and_invalid_input() {
    let input = vec![
        " FOO=bar ".to_string(),
        "".to_string(),
        "BAZ=qux".to_string(),
        "A=B=C".to_string(),
    ];

    let parsed = parse_secret_pairs(&input).expect("parse secret pairs");
    assert_eq!(parsed.len(), 3);
    assert_eq!(parsed[0], ("FOO".to_string(), "bar".to_string()));
    assert_eq!(parsed[1], ("BAZ".to_string(), "qux".to_string()));
    assert_eq!(parsed[2], ("A".to_string(), "B=C".to_string()));

    let err = parse_secret_pairs(&["NOPE".to_string()]).unwrap_err();
    assert_eq!(err.to_string(), "Invalid secret format: NOPE");

    let err = parse_secret_pairs(&["=value".to_string()]).unwrap_err();
    assert_eq!(err.to_string(), "Secret key cannot be empty");
}
