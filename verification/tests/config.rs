use honeybadger::honeybadger::parse_u64;
use honeybadger::{ConfigBuilder, EnvData};

fn no_env() -> EnvData {
    EnvData::empty()
}

#[test]
fn test_with_root() {
    let config = ConfigBuilder::new("dummy-api-key", no_env()).build();

    assert_ne!("/tmp/build", config.root);

    let config = ConfigBuilder::new("dummy-api-key", no_env())
        .with_root("/tmp/build")
        .build();

    assert_eq!("/tmp/build", config.root);
}

#[test]
fn test_with_env() {
    let config = ConfigBuilder::new("dummy-api-key", no_env()).build();

    assert_eq!("", config.env);

    let config = ConfigBuilder::new("dummy-api-key", no_env())
        .with_env("test")
        .build();

    assert_eq!("test", config.env);
}

#[test]
fn test_with_hostname() {
    let config = ConfigBuilder::new("dummy-api-key", no_env()).build();

    assert_ne!("hickyblue", config.hostname);

    let config = ConfigBuilder::new("dummy-api-key", no_env())
        .with_hostname("hickyblue")
        .build();

    assert_eq!("hickyblue", config.hostname);
}

#[test]
fn test_with_endpoint() {
    let config = ConfigBuilder::new("dummy-api-key", no_env()).build();

    assert_eq!("https://api.honeybadger.io/v1/notices", config.endpoint);

    let config = ConfigBuilder::new("dummy-api-key", no_env())
        .with_endpoint("http://example.com/")
        .build();

    assert_eq!("http://example.com/", config.endpoint);
}

#[test]
fn test_with_timeout() {
    let config = ConfigBuilder::new("dummy-api-key", no_env()).build();

    assert_eq!(5, config.timeout);

    let config = ConfigBuilder::new("dummy-api-key", no_env())
        .with_timeout(20)
        .build();

    assert_eq!(20, config.timeout);
}

#[test]
fn test_with_threads() {
    let config = ConfigBuilder::new("dummy-api-key", no_env()).build();

    assert_eq!(4, config.threads);

    let config = ConfigBuilder::new("dummy-api-key", no_env())
        .with_threads(128)
        .build();

    assert_eq!(128, config.threads);
}

#[test]
fn timeout_env_wins_over_default() {
    let env = EnvData {
        timeout: Some("20".to_owned()),
        ..EnvData::empty()
    };
    let config = ConfigBuilder::new("dummy-api-key", env).build();

    assert_eq!(20, config.timeout);
}

#[test]
fn timeout_explicit_wins_over_env() {
    let env = EnvData {
        timeout: Some("20".to_owned()),
        ..EnvData::empty()
    };
    let config = ConfigBuilder::new("dummy-api-key", env)
        .with_timeout(5)
        .build();

    assert_eq!(5, config.timeout);
}

#[test]
fn timeout_env_accepts_a_leading_plus() {
    let env = EnvData {
        timeout: Some("+20".to_owned()),
        ..EnvData::empty()
    };
    let config = ConfigBuilder::new("dummy-api-key", env).build();

    assert_eq!(20, config.timeout);

    for malformed in ["+", "++20", "+2x", "2+0"] {
        let env = EnvData {
            timeout: Some(malformed.to_owned()),
            ..EnvData::empty()
        };
        let config = ConfigBuilder::new("dummy-api-key", env).build();
        assert_eq!(5, config.timeout);
    }
}

#[test]
fn timeout_malformed_env_is_ignored() {
    let env = EnvData {
        timeout: Some("20s".to_owned()),
        ..EnvData::empty()
    };
    let config = ConfigBuilder::new("dummy-api-key", env).build();

    assert_eq!(5, config.timeout);
}

#[test]
fn root_precedence_layers() {
    let env = EnvData {
        root: Some("/from/env".to_owned()),
        current_dir: Some("/from/cwd".to_owned()),
        ..EnvData::empty()
    };
    let config = ConfigBuilder::new("dummy-api-key", env).build();
    assert_eq!("/from/env", config.root);

    let env = EnvData {
        root: Some("/from/env".to_owned()),
        current_dir: Some("/from/cwd".to_owned()),
        ..EnvData::empty()
    };
    let config = ConfigBuilder::new("dummy-api-key", env)
        .with_root("/explicit")
        .build();
    assert_eq!("/explicit", config.root);

    let env = EnvData {
        current_dir: Some("/from/cwd".to_owned()),
        ..EnvData::empty()
    };
    let config = ConfigBuilder::new("dummy-api-key", env).build();
    assert_eq!("/from/cwd", config.root);
}

#[test]
fn hostname_falls_back_to_os_hostname() {
    let env = EnvData {
        os_hostname: Some("machine-a".to_owned()),
        ..EnvData::empty()
    };
    let config = ConfigBuilder::new("dummy-api-key", env).build();
    assert_eq!("machine-a", config.hostname);
}

#[test]
fn endpoint_env_wins_over_default() {
    let env = EnvData {
        endpoint: Some("http://proxy.example.com:5050/".to_owned()),
        ..EnvData::empty()
    };
    let config = ConfigBuilder::new("dummy-api-key", env).build();
    assert_eq!("http://proxy.example.com:5050/", config.endpoint);
}

#[test]
fn api_key_is_kept() {
    let config = ConfigBuilder::new("dummy-api-key", no_env()).build();
    assert_eq!("dummy-api-key", config.api_key);
}

#[test]
fn parse_u64_accepts_digits() {
    assert_eq!(Some(20), parse_u64("20"));
    assert_eq!(Some(0), parse_u64("0"));
    assert_eq!(Some(18446744073709551615), parse_u64("18446744073709551615"));
}

#[test]
fn parse_u64_rejects_malformed() {
    assert_eq!(None, parse_u64(""));
    assert_eq!(None, parse_u64("20s"));
    assert_eq!(None, parse_u64("-1"));
    assert_eq!(None, parse_u64("+20"));
    assert_eq!(None, parse_u64("2 0"));
    assert_eq!(None, parse_u64("18446744073709551616"));
    assert_eq!(None, parse_u64("99999999999999999999999"));
}
