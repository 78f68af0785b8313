use dap::config::{
    ConfigError, ConnectPlan, CustomArgs, DebugAdapterConfig, DebugAdapterKind,
    DebugConnectionType, DebugRequestType, DebugTaskDefinition, DebugTaskFile, HostAddress,
    Rejection, TCPHost, TaskTemplates, TaskType,
};

fn custom(command: &str) -> DebugAdapterKind {
    DebugAdapterKind::Custom(CustomArgs {
        connection: DebugConnectionType::STDIO,
        start_command: command.to_string(),
    })
}

fn definition(label: &str, program: &str, adapter: DebugAdapterKind) -> DebugTaskDefinition {
    DebugTaskDefinition::new(
        label.to_string(),
        program.to_string(),
        DebugRequestType::Launch,
        adapter,
        None,
    )
}

#[test]
fn connection_type_defaults_to_tcp_with_nothing_set() {
    assert_eq!(
        DebugConnectionType::default(),
        DebugConnectionType::TCP(TCPHost { port: None, host: None, delay: None })
    );
}

#[test]
fn adapter_kind_defaults_to_custom_stdio_without_command() {
    assert_eq!(
        DebugAdapterKind::default(),
        DebugAdapterKind::Custom(CustomArgs {
            connection: DebugConnectionType::STDIO,
            start_command: String::new(),
        })
    );
}

#[test]
fn request_type_defaults_to_launch() {
    assert_eq!(DebugRequestType::default(), DebugRequestType::Launch);
}

#[test]
fn valid_definition_becomes_debug_template() {
    let def = DebugTaskDefinition::new(
        "run tests".to_string(),
        "target/debug/app".to_string(),
        DebugRequestType::Attach,
        DebugAdapterKind::Lldb,
        Some(vec!["--verbose".to_string()]),
    );
    let template = def.to_zed_format().unwrap();
    assert_eq!(template.label, "run tests");
    assert_eq!(template.command, "");
    assert!(template.args.is_empty());
    assert_eq!(
        template.task_type,
        TaskType::Debug(DebugAdapterConfig {
            kind: DebugAdapterKind::Lldb,
            request: DebugRequestType::Attach,
            program: "target/debug/app".to_string(),
            adapter_path: None,
            initialize_args: Some(vec!["--verbose".to_string()]),
        })
    );
}

#[test]
fn into_config_keeps_every_field() {
    let def = DebugTaskDefinition::new(
        "php".to_string(),
        "index.php".to_string(),
        DebugRequestType::Launch,
        DebugAdapterKind::PHP,
        None,
    );
    assert_eq!(
        def.into_config(),
        Ok(DebugAdapterConfig {
            kind: DebugAdapterKind::PHP,
            request: DebugRequestType::Launch,
            program: "index.php".to_string(),
            adapter_path: None,
            initialize_args: None,
        })
    );
}

#[test]
fn empty_label_is_invalid() {
    let def = definition("", "main.py", DebugAdapterKind::Python);
    assert_eq!(def.check(), Some(ConfigError::InvalidTaskDefinition));
    assert_eq!(def.to_zed_format(), Err(ConfigError::InvalidTaskDefinition));
}

#[test]
fn empty_program_is_invalid() {
    let def = definition("debug", "", DebugAdapterKind::Python);
    assert_eq!(def.into_config(), Err(ConfigError::InvalidTaskDefinition));
}

#[test]
fn custom_adapter_without_command_is_unsupported() {
    let def = definition("debug", "main", custom(""));
    assert_eq!(def.check(), Some(ConfigError::UnsupportedAdapterKind));
    assert_eq!(def.to_zed_format(), Err(ConfigError::UnsupportedAdapterKind));
    assert!(!custom("").is_supported());
    assert!(custom("gdb --interpreter=dap").is_supported());
    assert!(DebugAdapterKind::Python.is_supported());
}

#[test]
fn invalid_definition_wins_over_unsupported_adapter() {
    let def = definition("", "main", custom(""));
    assert_eq!(def.check(), Some(ConfigError::InvalidTaskDefinition));
}

#[test]
fn batch_of_five_with_two_invalid_yields_three() {
    let file = DebugTaskFile(vec![
        definition("one", "a.py", DebugAdapterKind::Python),
        definition("", "b.py", DebugAdapterKind::Python),
        definition("three", "c", DebugAdapterKind::Lldb),
        definition("four", "d", custom("")),
        definition("five", "e.php", DebugAdapterKind::PHP),
    ]);
    let resolution = file.resolve();
    let labels: Vec<&str> = resolution.templates.0.iter().map(|t| t.label.as_str()).collect();
    assert_eq!(labels, vec!["one", "three", "five"]);
    assert_eq!(
        resolution.rejected,
        vec![
            Rejection { index: 1, error: ConfigError::InvalidTaskDefinition },
            Rejection { index: 3, error: ConfigError::UnsupportedAdapterKind },
        ]
    );
    let programs: Vec<String> = resolution
        .templates
        .0
        .iter()
        .map(|t| match &t.task_type {
            TaskType::Debug(config) => config.program.clone(),
            TaskType::Script => String::new(),
        })
        .collect();
    assert_eq!(programs, vec!["a.py", "c", "e.php"]);
}

#[test]
fn try_from_drops_invalid_definitions_without_failing() {
    let file = DebugTaskFile(vec![
        definition("", "", DebugAdapterKind::Python),
        definition("ok", "main.py", DebugAdapterKind::Python),
    ]);
    let resolution = TaskTemplates::try_from(file).unwrap();
    assert_eq!(resolution.templates.0.len(), 1);
    assert_eq!(resolution.templates.0[0].label, "ok");
    assert_eq!(
        resolution.rejected,
        vec![Rejection { index: 0, error: ConfigError::InvalidTaskDefinition }]
    );
}

#[test]
fn empty_file_resolves_to_nothing() {
    let resolution = DebugTaskFile(Vec::new()).resolve();
    assert!(resolution.templates.0.is_empty());
    assert!(resolution.rejected.is_empty());
}

#[test]
fn invalid_definition_does_not_affect_the_others() {
    let with_bad = DebugTaskFile(vec![
        definition("one", "a", DebugAdapterKind::Lldb),
        definition("bad", "", DebugAdapterKind::Lldb),
        definition("two", "b", DebugAdapterKind::Lldb),
    ]);
    let without = DebugTaskFile(vec![
        definition("one", "a", DebugAdapterKind::Lldb),
        definition("two", "b", DebugAdapterKind::Lldb),
    ]);
    assert_eq!(with_bad.resolve().templates, without.resolve().templates);
}

#[test]
fn builtin_adapters_have_fixed_connections() {
    let tcp = DebugConnectionType::TCP(TCPHost { port: None, host: None, delay: None });
    assert_eq!(DebugAdapterKind::Python.connection(), tcp);
    assert_eq!(DebugAdapterKind::PHP.connection(), tcp);
    assert_eq!(DebugAdapterKind::Lldb.connection(), DebugConnectionType::STDIO);
}

#[test]
fn custom_adapter_passes_its_connection_through() {
    let host = TCPHost { port: Some(4711), host: Some(HostAddress(10, 0, 0, 7)), delay: Some(5) };
    let kind = DebugAdapterKind::Custom(CustomArgs {
        connection: DebugConnectionType::TCP(host.clone()),
        start_command: "adapter --port 4711".to_string(),
    });
    assert_eq!(kind.connection(), DebugConnectionType::TCP(host));
    assert_eq!(custom("x").connection(), DebugConnectionType::STDIO);
}

#[test]
fn plan_fills_in_loopback_and_no_delay() {
    let plan = TCPHost::default().plan();
    assert_eq!(plan, ConnectPlan { host: HostAddress(127, 0, 0, 1), port: None, delay_ms: 0 });
    assert!(plan.may_connect(0));
}

#[test]
fn plan_keeps_what_is_set() {
    let host = TCPHost { port: Some(9000), host: Some(HostAddress(192, 168, 1, 2)), delay: Some(200) };
    assert_eq!(
        host.plan(),
        ConnectPlan { host: HostAddress(192, 168, 1, 2), port: Some(9000), delay_ms: 200 }
    );
}

#[test]
fn delay_of_200ms_holds_the_connect_back() {
    let plan = TCPHost { port: Some(1), host: None, delay: Some(200) }.plan();
    assert!(!plan.may_connect(0));
    assert!(!plan.may_connect(199));
    assert!(plan.may_connect(200));
    assert!(plan.may_connect(201));
    assert_eq!(plan.remaining_delay(0), 200);
    assert_eq!(plan.remaining_delay(150), 50);
    assert_eq!(plan.remaining_delay(200), 0);
    assert_eq!(plan.remaining_delay(u64::MAX), 0);
}

#[test]
fn try_from_reports_each_dropped_definition_by_itself() {
    let file = DebugTaskFile(vec![
        definition("one", "a.py", DebugAdapterKind::Python),
        definition("two", "", DebugAdapterKind::Python),
        definition("three", "c", custom("")),
        definition("four", "d", DebugAdapterKind::Lldb),
        definition("five", "e.php", DebugAdapterKind::PHP),
    ]);
    let resolution = TaskTemplates::try_from(file).unwrap();
    let labels: Vec<&str> = resolution.templates.0.iter().map(|t| t.label.as_str()).collect();
    assert_eq!(labels, vec!["one", "four", "five"]);
    assert_eq!(
        resolution.rejected,
        vec![
            Rejection { index: 1, error: ConfigError::InvalidTaskDefinition },
            Rejection { index: 2, error: ConfigError::UnsupportedAdapterKind },
        ]
    );
}

#[test]
fn custom_tcp_adapter_with_delay_is_carried_through() {
    let kind = DebugAdapterKind::Custom(CustomArgs {
        connection: DebugConnectionType::TCP(TCPHost { port: Some(5678), host: None, delay: Some(200) }),
        start_command: "adapter".to_string(),
    });
    let def = definition("tcp", "main", kind.clone());
    let config = def.into_config().unwrap();
    assert_eq!(config.kind, kind);
    assert_eq!(
        config.kind.connection(),
        DebugConnectionType::TCP(TCPHost { port: Some(5678), host: None, delay: Some(200) })
    );
    let empty = definition("", "main", kind);
    assert_eq!(empty.into_config(), Err(ConfigError::InvalidTaskDefinition));
}
