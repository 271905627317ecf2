use check_mate::server::config::Config;

fn server_args(string_slices: &[&str]) -> Vec<String> {
    string_slices
        .iter()
        .map(|string_slice| string_slice.to_string())
        .collect()
}

#[test]
fn no_args_returns_default_config() {
    let args = [];
    let config = Config::parse(server_args(&args));
    let config = config.expect("Parsing should succeed");

    let expected = Config::default();
    assert_eq!(config, expected);
}

#[test]
fn server_port_is_parsed() {
    let args = ["-p", "123"];
    let config = Config::parse(server_args(&args));
    let config = config.expect("Parsing should succeed");

    let mut expected = Config::default();
    expected.server_port = 123;
    assert_eq!(config, expected);
}

#[test]
fn log_every_status_is_parsed() {
    let args = ["-e", "1"];
    let config = Config::parse(server_args(&args));
    let config = config.expect("Parsing should succeed");

    let mut expected = Config::default();
    expected.log_every_status = true;
    assert_eq!(config, expected);
}
