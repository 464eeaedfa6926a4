use rm_pad::config::{expand_tilde, Auth, Cli, Config, DeviceProfile, FileConfig, Orientation, SshHostParams};

fn empty_cli() -> Cli {
    Cli {
        command: None,
        host: None,
        key_path: None,
        password: None,
        pen_device: None,
        touch_device: None,
        touch_only: false,
        pen_only: false,
        grab_input: false,
        no_grab_input: false,
        ssh_config: false,
        no_ssh_config: false,
        no_palm_rejection: false,
        palm_grace_ms: None,
        orientation: None,
        config: None,
    }
}

fn device() -> DeviceProfile {
    DeviceProfile { pen_device: "/dev/input/event1".to_string(), touch_device: "/dev/input/event2".to_string() }
}

#[test]
fn load_without_file_uses_defaults() {
    let c = Config::load(&empty_cli(), None, &device());
    assert_eq!(c.host, "");
    assert_eq!(c.pen_device, "/dev/input/event1");
    assert_eq!(c.touch_device, "/dev/input/event2");
    assert_eq!(c.palm_grace_ms, 500);
    // Input is grabbed exclusively unless turned off.
    assert!(c.grab_input);
    assert!(!c.ssh_config && !c.touch_only && !c.pen_only);
    assert_eq!(c.orientation, Orientation::Portrait);
    let mut cli = empty_cli();
    cli.no_grab_input = true;
    assert!(!Config::load(&cli, None, &device()).grab_input);
}

#[test]
fn orientation_cli_over_file() {
    let mut f = FileConfig::default();
    f.orientation = Orientation::Inverted;
    let c = Config::load(&empty_cli(), Some(f), &device());
    assert_eq!(c.orientation, Orientation::Inverted);
    let mut cli = empty_cli();
    cli.orientation = Some(Orientation::LandscapeLeft);
    let mut f = FileConfig::default();
    f.orientation = Orientation::Inverted;
    let c = Config::load(&cli, Some(f), &device());
    assert_eq!(c.orientation, Orientation::LandscapeLeft);
    let mut f = FileConfig::default();
    f.grab_input = false;
    assert!(!Config::load(&empty_cli(), Some(f), &device()).grab_input);
}

#[test]
fn cli_overrides_file() {
    let mut cli = empty_cli();
    cli.host = Some("10.11.99.1".to_string());
    cli.palm_grace_ms = Some(42);
    cli.no_grab_input = true;
    let mut f = FileConfig::default();
    f.host = "remarkable".to_string();
    f.grab_input = true;
    f.ssh_config = true;
    f.pen_device = Some("/dev/pen".to_string());
    f.key_path = Some("~/k".to_string());
    f.palm_grace_ms = Some(7);
    let c = Config::load(&cli, Some(f), &device());
    assert_eq!(c.host, "10.11.99.1");
    assert_eq!(c.palm_grace_ms, 42);
    assert!(!c.grab_input);
    assert!(c.ssh_config);
    assert_eq!(c.pen_device, "/dev/pen");
    assert_eq!(c.key_path.as_deref(), Some("~/k"));
}

#[test]
fn validate_rejects_both_only_flags() {
    let mut cli = empty_cli();
    cli.touch_only = true;
    let c = Config::load(&cli, None, &device());
    assert!(c.validate().is_ok());
    assert!(!c.run_pen() && c.run_touch());
    cli.pen_only = true;
    let c = Config::load(&cli, None, &device());
    assert_eq!(c.validate(), Err("Cannot use both --touch-only and --pen-only"));
}

#[test]
fn tilde_expansion() {
    let home = Some("/home/u".to_string());
    assert_eq!(expand_tilde("~", home.clone()), "/home/u");
    assert_eq!(expand_tilde("~/.ssh/id", home.clone()), "/home/u/.ssh/id");
    assert_eq!(expand_tilde("~/.ssh/id", Some("/home/u/".to_string())), "/home/u/.ssh/id");
    assert_eq!(expand_tilde("~//abs", home.clone()), "/abs");
    assert_eq!(expand_tilde("~/", home.clone()), "/home/u/");
    assert_eq!(expand_tilde("~other/x", home.clone()), "~other/x");
    assert_eq!(expand_tilde("~/x", None), "~/x");
    assert_eq!(expand_tilde("rm-key", home), "rm-key");
}

fn key_of(a: &Auth) -> Option<String> {
    match a {
        Auth::Key(k) => Some(k.clone()),
        Auth::Password(_) => None,
    }
}

#[test]
fn ssh_target_defaults_and_overrides() {
    let mut cli = empty_cli();
    cli.host = Some("tablet".to_string());
    let c = Config::load(&cli, None, &device());
    let params = SshHostParams {
        host_name: Some("10.0.0.5".to_string()),
        port: Some(2222),
        user: Some("me".to_string()),
        identity_file: Some(vec!["/keys/a".to_string(), "/keys/b".to_string()]),
    };
    // ssh config disabled: params ignored.
    let t = c.ssh_target(Some(params), Some("/h".to_string()));
    assert_eq!((t.host.as_str(), t.port, t.user.as_str()), ("tablet", 22, "root"));
    assert_eq!(key_of(&t.auth).as_deref(), Some("rm-key"));

    cli.ssh_config = true;
    let c = Config::load(&cli, None, &device());
    let params = SshHostParams {
        host_name: Some("10.0.0.5".to_string()),
        port: Some(2222),
        user: Some("me".to_string()),
        identity_file: Some(vec!["/keys/a".to_string(), "/keys/b".to_string()]),
    };
    let t = c.ssh_target(Some(params), Some("/h".to_string()));
    assert_eq!((t.host.as_str(), t.port, t.user.as_str()), ("10.0.0.5", 2222, "me"));
    assert_eq!(key_of(&t.auth).as_deref(), Some("/keys/a"));
}

#[test]
fn explicit_credentials_win() {
    let mut cli = empty_cli();
    cli.ssh_config = true;
    cli.key_path = Some("~/my-key".to_string());
    let c = Config::load(&cli, None, &device());
    let params = SshHostParams { host_name: None, port: None, user: None, identity_file: Some(vec!["/keys/a".to_string()]) };
    let t = c.ssh_target(Some(params), Some("/home/u".to_string()));
    assert_eq!(key_of(&t.auth).as_deref(), Some("/home/u/my-key"));

    cli.password = Some("secret".to_string());
    let c = Config::load(&cli, None, &device());
    match c.resolve_auth(Some("/keys/a".to_string()), None) {
        Auth::Password(p) => assert_eq!(p, "secret"),
        Auth::Key(_) => panic!("password must win"),
    }
}
