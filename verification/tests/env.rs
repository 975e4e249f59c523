use hermit_kernel::env::{init, Cli, CliError};

fn strings(v: &[String]) -> Vec<&str> {
    v.iter().map(|s| s.as_str()).collect()
}

#[test]
fn empty_command_line() {
    let cli = init("").unwrap();
    assert_eq!(cli.freq(), None);
    assert!(cli.args().is_empty());
    assert!(cli.mmio().is_empty());
    assert!(cli.vars().is_empty());
    assert!(cli.image_path().is_none());
}

#[test]
fn options_and_arguments() {
    let cli = init("-freq 3000 -ip 10.0.5.3 -mask 255.255.255.0 -gateway 10.0.5.1 -- a b").unwrap();
    assert_eq!(cli.freq(), Some(3000));
    assert_eq!(cli.var("HERMIT_IP").map(|s| s.as_str()), Some("10.0.5.3"));
    assert_eq!(cli.var("HERMIT_MASK").map(|s| s.as_str()), Some("255.255.255.0"));
    assert_eq!(cli.var("HERMIT_GATEWAY").map(|s| s.as_str()), Some("10.0.5.1"));
    assert_eq!(cli.var("UHYVE_MOUNT"), None);
    assert_eq!(strings(cli.args()), vec!["a", "b"]);
    let mut vars = cli.vars();
    vars.sort();
    assert_eq!(vars.len(), 3);
    assert_eq!(vars[0], ("HERMIT_GATEWAY".to_string(), "10.0.5.1".to_string()));
}

#[test]
fn image_path_mmio_and_mount() {
    let cli = init("/hermit/app virtio_mmio.device=4K@0x10000:5 -mount /tmp other").unwrap();
    assert_eq!(cli.image_path().map(|s| s.as_str()), Some("/hermit/app"));
    assert_eq!(strings(cli.mmio()), vec!["4K@0x10000:5"]);
    assert_eq!(cli.var("UHYVE_MOUNT").map(|s| s.as_str()), Some("/tmp"));
    assert!(cli.args().is_empty());
}

#[test]
fn mmio_value_ends_at_next_equals_sign() {
    let cli = init("virtio_mmio.device=a=b").unwrap();
    assert_eq!(strings(cli.mmio()), vec!["a"]);
}

#[test]
fn words_are_split_as_a_shell_would() {
    let cli = init("-- 'a b' \"c d\" e\\ f").unwrap();
    assert_eq!(strings(cli.args()), vec!["a b", "c d", "e f"]);
}

#[test]
fn later_option_value_replaces_earlier() {
    let cli = init("-ip 1.1.1.1 -ip 2.2.2.2").unwrap();
    assert_eq!(cli.var("HERMIT_IP").map(|s| s.as_str()), Some("2.2.2.2"));
}

#[test]
fn options_after_double_dash_are_arguments() {
    let cli = init("-- -freq 10").unwrap();
    assert_eq!(cli.freq(), None);
    assert_eq!(strings(cli.args()), vec!["-freq", "10"]);
}

#[test]
fn unclosed_quote_is_refused() {
    assert!(matches!(init("-- 'abc"), Err(CliError::Unparsable)));
}

#[test]
fn option_without_value_is_refused() {
    match init("-ip") {
        Err(CliError::MissingValue(name)) => assert_eq!(name, "-ip"),
        _ => panic!("expected a missing value"),
    }
    match init("-freq") {
        Err(CliError::MissingValue(name)) => assert_eq!(name, "-freq"),
        _ => panic!("expected a missing value"),
    }
}

#[test]
fn invalid_frequency_is_refused() {
    match init("-freq fast") {
        Err(CliError::InvalidFreq(v)) => assert_eq!(v, "fast"),
        _ => panic!("expected an invalid frequency"),
    }
    match init("-freq 70000") {
        Err(CliError::InvalidFreq(v)) => assert_eq!(v, "70000"),
        _ => panic!("expected an invalid frequency"),
    }
    assert_eq!(init("-freq +65535").unwrap().freq(), Some(65535));
}

#[test]
fn from_words_reads_words() {
    let words: Vec<String> = ["img", "-mount", "/data"].iter().map(|s| s.to_string()).collect();
    let cli = Cli::from_words(&words).unwrap();
    assert_eq!(cli.image_path().map(|s| s.as_str()), Some("img"));
    assert_eq!(cli.var("UHYVE_MOUNT").map(|s| s.as_str()), Some("/data"));
}
