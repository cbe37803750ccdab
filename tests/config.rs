use dudo::table::{parse_config, AliasTable, ConfigError};

fn os_of(t: &AliasTable, key: &str) -> Option<Vec<String>> {
    t.os.iter().find(|r| r.0 == key).map(|r| r.1.clone())
}

fn arch_of(t: &AliasTable, key: &str) -> Option<Vec<String>> {
    t.arch.iter().find(|r| r.0 == key).map(|r| r.1.clone())
}

#[test]
fn parse_config_default() {
    let config = parse_config(None).ok().unwrap();
    assert_eq!(os_of(&config, "linux").unwrap(), vec!["linux".to_string()]);
    assert_eq!(os_of(&config, "windows").unwrap(), vec!["windows".to_string()]);
    assert_eq!(
        os_of(&config, "macos").unwrap(),
        vec![
            "macos".to_string(),
            "darwin".to_string(),
            "mac".to_string(),
            "apple".to_string(),
        ]
    );
    assert_eq!(
        arch_of(&config, "x86_64").unwrap(),
        vec![
            "x86_64".to_string(),
            "amd64".to_string(),
            "amd".to_string(),
            "intel".to_string(),
        ]
    );
    assert_eq!(
        arch_of(&config, "aarch64").unwrap(),
        vec!["aarch64".to_string(), "arm64".to_string(), "m1".to_string(),]
    )
}

#[test]
fn parse_config_custom() {
    let config = "
---
os:
  macos:
    - macos
  linux:
    - linux
  windows:
    - windows
  freebsd:
    - freebsd
arch:
  x86_64:
    - x86_64
  aarch64:
    - aarch64
        ";
    let text = format!("{}\n", config);
    let config = parse_config(Some(&text)).ok().unwrap();
    assert_eq!(os_of(&config, "linux").unwrap(), vec!["linux".to_string()]);
    assert_eq!(os_of(&config, "windows").unwrap(), vec!["windows".to_string()]);
    assert_eq!(os_of(&config, "macos").unwrap(), vec!["macos".to_string()]);
    assert_eq!(arch_of(&config, "x86_64").unwrap(), vec!["x86_64".to_string()]);
    assert_eq!(arch_of(&config, "aarch64").unwrap(), vec!["aarch64".to_string()])
}

#[test]
fn default_table_has_freebsd_and_no_others() {
    let config = parse_config(None).ok().unwrap();
    assert_eq!(os_of(&config, "freebsd").unwrap(), vec!["freebsd".to_string()]);
    assert_eq!(config.os.len(), 4);
    assert_eq!(config.arch.len(), 2);
}

#[test]
fn custom_table_does_not_fall_back_to_defaults() {
    let text = "os:\n  linux:\n    - gnu\narch:\n  riscv64:\n    - rv64\n";
    let config = parse_config(Some(text)).ok().unwrap();
    assert_eq!(os_of(&config, "linux").unwrap(), vec!["gnu".to_string()]);
    assert!(os_of(&config, "macos").is_none());
    assert!(arch_of(&config, "x86_64").is_none());
    assert_eq!(arch_of(&config, "riscv64").unwrap(), vec!["rv64".to_string()]);
}

#[test]
fn malformed_table_is_refused() {
    let r = parse_config(Some("os: [unclosed"));
    assert!(matches!(r, Err(ConfigError::Malformed(_))));
}

#[test]
fn table_without_arch_section_is_refused() {
    let r = parse_config(Some("os:\n  linux:\n    - linux\n"));
    match r {
        Err(ConfigError::MissingSection(name)) => assert_eq!(name, "arch"),
        _ => panic!("expected a missing section"),
    }
}

#[test]
fn table_without_os_section_is_refused() {
    let r = parse_config(Some("arch:\n  x86_64:\n    - amd64\n"));
    match r {
        Err(ConfigError::MissingSection(name)) => assert_eq!(name, "os"),
        _ => panic!("expected a missing section"),
    }
}
