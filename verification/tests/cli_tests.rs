use parallax::cli::{CliAction, CliConfig};

fn args(list: &[&str]) -> Vec<String> {
    list.iter().map(|s| s.to_string()).collect()
}

#[test]
fn no_options_run_with_the_defaults() {
    match CliConfig::parse_args(&[]).unwrap() {
        CliAction::Run(c) => {
            assert_eq!(c.display, ":0");
            assert_eq!(c.bind_addr, "0.0.0.0:5000");
            assert_eq!(c.target_addr, "127.0.0.1:5000");
            assert_eq!(c.control_bind, "0.0.0.0:0");
            assert_eq!(c.pairing_token, "auto");
            assert!(c.prefer_vaapi);
        }
        other => panic!("expected a run, got {other:?}"),
    }
}

#[test]
fn run_options_set_the_config() {
    let a = args(&[
        "--software",
        "--display",
        ":1",
        "--bind",
        "0.0.0.0:6000",
        "--target",
        "10.0.0.2:6000",
        "--control-bind",
        "0.0.0.0:7000",
        "--pairing-token",
        "secret",
    ]);
    match CliConfig::parse_args(&a).unwrap() {
        CliAction::Run(c) => {
            assert_eq!(c.display, ":1");
            assert_eq!(c.bind_addr, "0.0.0.0:6000");
            assert_eq!(c.target_addr, "10.0.0.2:6000");
            assert_eq!(c.control_bind, "0.0.0.0:7000");
            assert_eq!(c.pairing_token, "secret");
            assert!(!c.prefer_vaapi);
        }
        other => panic!("expected a run, got {other:?}"),
    }
    match CliConfig::parse_args(&args(&["--software", "--prefer-vaapi"])).unwrap() {
        CliAction::Run(c) => assert!(c.prefer_vaapi),
        other => panic!("expected a run, got {other:?}"),
    }
}

#[test]
fn missing_values_are_reported() {
    assert_eq!(CliConfig::parse_args(&args(&["--display"])).unwrap_err(), "--display requires a value");
    assert_eq!(
        CliConfig::parse_args(&args(&["--enable-virtual-display"])).unwrap_err(),
        "--enable-virtual-display requires an id"
    );
    assert_eq!(
        CliConfig::parse_args(&args(&["--virtual-x"])).unwrap_err(),
        "--virtual-x requires a value"
    );
}

#[test]
fn numbers_must_read() {
    assert_eq!(
        CliConfig::parse_args(&args(&["--virtual-width", "abc"])).unwrap_err(),
        "--virtual-width expects an integer"
    );
    assert_eq!(
        CliConfig::parse_args(&args(&["--virtual-height", "-1"])).unwrap_err(),
        "--virtual-height expects an integer"
    );
    assert_eq!(
        CliConfig::parse_args(&args(&["--virtual-y", "2147483648"])).unwrap_err(),
        "--virtual-y expects an integer"
    );
}

#[test]
fn enabling_needs_a_size() {
    assert_eq!(
        CliConfig::parse_args(&args(&["--enable-virtual-display", "v1"])).unwrap_err(),
        "--virtual-width is required"
    );
    assert_eq!(
        CliConfig::parse_args(&args(&["--enable-virtual-display", "v1", "--virtual-width", "1920"]))
            .unwrap_err(),
        "--virtual-height is required"
    );
    let a = args(&[
        "--virtual-x",
        "-100",
        "--enable-virtual-display",
        "prlx-v1",
        "--virtual-width",
        "1920",
        "--virtual-height",
        "1080",
    ]);
    match CliConfig::parse_args(&a).unwrap() {
        CliAction::EnableVirtualDisplay(v) => {
            assert_eq!(v.id, "prlx-v1");
            assert_eq!((v.width, v.height, v.x, v.y), (1920, 1080, -100, 0));
        }
        other => panic!("expected an enable, got {other:?}"),
    }
}

#[test]
fn actions_are_chosen_in_order() {
    match CliConfig::parse_args(&args(&["--list-displays", "--disable-virtual-display", "v1"])).unwrap() {
        CliAction::DisableVirtualDisplay { id } => assert_eq!(id, "v1"),
        other => panic!("expected a disable, got {other:?}"),
    }
    assert!(matches!(
        CliConfig::parse_args(&args(&["--list-displays", "--list-virtual-displays"])).unwrap(),
        CliAction::ListVirtualDisplays
    ));
    assert!(matches!(
        CliConfig::parse_args(&args(&["--list-displays", "--virtual-backend-status"])).unwrap(),
        CliAction::VirtualBackendStatus
    ));
    assert!(matches!(
        CliConfig::parse_args(&args(&["--list-displays"])).unwrap(),
        CliAction::ListDisplays
    ));
}

#[test]
fn help_and_unknown_options() {
    let help = CliConfig::help();
    assert!(help.starts_with("Usage: prlx-hostd [options]\n\nRun options:\n"));
    assert!(help.ends_with("  -h, --help            Print this help text"));
    assert_eq!(help.lines().count(), 24);
    assert_eq!(CliConfig::parse_args(&args(&["-h"])).unwrap_err(), help);
    assert_eq!(CliConfig::parse_args(&args(&["--help", "--bogus"])).unwrap_err(), help);
    assert_eq!(
        CliConfig::parse_args(&args(&["--bogus"])).unwrap_err(),
        format!("Unknown argument: --bogus\n\n{help}")
    );
}
