use lumos_core::cargo_args::{build_lumos_args, ArgsError, LumosCommand, LumosConfig};

#[test]
fn test_build_args_generate() {
    let command = Some(LumosCommand::Generate {
        schema: Some("test.lumos".to_string()),
        output: None,
        watch: false,
        dry_run: false,
        backup: false,
    });

    let config = LumosConfig::default();
    let result = build_lumos_args(&command, &config).unwrap();

    assert_eq!(result, vec!["generate", "test.lumos"]);
}

#[test]
fn test_build_args_with_config() {
    let command = Some(LumosCommand::Generate {
        schema: None,
        output: None,
        watch: false,
        dry_run: false,
        backup: false,
    });

    let config = LumosConfig {
        schema: Some("configured.lumos".to_string()),
        output_rust: None,
        output_ts: None,
        watch: Some(true),
    };

    let result = build_lumos_args(&command, &config).unwrap();

    assert_eq!(result, vec!["generate", "configured.lumos", "--watch"]);
}

#[test]
fn test_build_args_validate() {
    let command = Some(LumosCommand::Validate {
        schema: Some("test.lumos".to_string()),
    });

    let config = LumosConfig::default();
    let result = build_lumos_args(&command, &config).unwrap();

    assert_eq!(result, vec!["validate", "test.lumos"]);
}

#[test]
fn test_build_args_external() {
    let command = Some(LumosCommand::External(vec![
        "diff".to_string(),
        "v1.lumos".to_string(),
        "v2.lumos".to_string(),
    ]));

    let config = LumosConfig::default();
    let result = build_lumos_args(&command, &config).unwrap();

    assert_eq!(result, vec!["diff", "v1.lumos", "v2.lumos"]);
}

#[test]
fn build_args_all_flags_and_errors() {
    let command = Some(LumosCommand::Generate {
        schema: Some("a.lumos".to_string()),
        output: Some("out".to_string()),
        watch: false,
        dry_run: true,
        backup: true,
    });
    let config = LumosConfig {
        schema: Some("ignored.lumos".to_string()),
        output_rust: None,
        output_ts: None,
        watch: Some(false),
    };
    assert_eq!(
        build_lumos_args(&command, &config).unwrap(),
        vec!["generate", "a.lumos", "--output", "out", "--dry-run", "--backup"]
    );
    let none = Some(LumosCommand::Generate {
        schema: None,
        output: None,
        watch: true,
        dry_run: false,
        backup: false,
    });
    assert_eq!(
        build_lumos_args(&none, &LumosConfig::default()).unwrap_err(),
        ArgsError::NoSchemaForGenerate
    );
    let check = Some(LumosCommand::Check { schema: None, output: None });
    assert_eq!(
        build_lumos_args(&check, &LumosConfig::default()).unwrap_err(),
        ArgsError::NoSchema
    );
    let init = Some(LumosCommand::Init { name: Some("demo".to_string()) });
    assert_eq!(build_lumos_args(&init, &LumosConfig::default()).unwrap(), vec!["init", "demo"]);
    assert_eq!(build_lumos_args(&None, &LumosConfig::default()).unwrap(), vec!["--help"]);
}
