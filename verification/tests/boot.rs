//! Kernel command line parsing, environment resolution, flags, and the
//! decimal parser they lean on.

use zui::cmdline;
use zui::environment::{get_env, get_env_from_params, EnvOverrides, RunMode};
use zui::flag::{flag_path, Flags};
use zui::kernel::parse_params;
use zui::text::parse_i32;

fn no_overrides() -> EnvOverrides {
    EnvOverrides { runmode: None, substrate_url: None, flist_url: None, bin_repo: None }
}

#[test]
fn params_collect_repeated_keys_in_order() {
    let p = parse_params("key=1 key=2");
    let v = p.values("key").expect("key has values");
    assert_eq!(v, &vec!["1".to_string(), "2".to_string()]);
    assert_eq!(p.value("key"), Some("2"));
}

#[test]
fn params_bare_flag_exists_without_values() {
    let p = parse_params("quiet key=1");
    assert!(p.contains("quiet"));
    assert!(p.values("quiet").is_none());
    assert!(p.value("quiet").is_none());
    assert!(!p.contains("missing"));
}

#[test]
fn params_first_bare_key_stays_bare() {
    let p = parse_params("k k=1");
    assert!(p.contains("k"));
    assert!(p.values("k").is_none());
}

#[test]
fn params_value_cut_at_first_equals() {
    let p = parse_params("root=UUID=abc");
    assert_eq!(p.value("root"), Some("UUID=abc"));
}

#[test]
fn params_trim_whitespace_around_line() {
    let p = parse_params("  a=1 b=2\n");
    assert_eq!(p.value("a"), Some("1"));
    assert_eq!(p.value("b"), Some("2"));
}

#[test]
fn cmdline_keeps_only_two_part_tokens() {
    let a = cmdline::parse_params("a=1 b b=2 c=x=y");
    assert_eq!(a.get("a"), Some(&vec!["1".to_string()]));
    // A bare key starts an empty list here, unlike the bare flag above.
    assert_eq!(a.get("b"), Some(&vec!["2".to_string()]));
    // Three parts: the key is kept, the value is not.
    assert_eq!(a.get("c"), Some(&Vec::<String>::new()));
    assert_eq!(a.get("d"), None);
}

#[test]
fn parse_i32_accepts_what_the_type_holds() {
    assert_eq!(parse_i32("0"), Some(0));
    assert_eq!(parse_i32("42"), Some(42));
    assert_eq!(parse_i32("+7"), Some(7));
    assert_eq!(parse_i32("-13"), Some(-13));
    assert_eq!(parse_i32("2147483647"), Some(i32::MAX));
    assert_eq!(parse_i32("-2147483648"), Some(i32::MIN));
}

#[test]
fn parse_i32_rejects_the_rest() {
    assert_eq!(parse_i32(""), None);
    assert_eq!(parse_i32("-"), None);
    assert_eq!(parse_i32("+"), None);
    assert_eq!(parse_i32("12x"), None);
    assert_eq!(parse_i32(" 1"), None);
    assert_eq!(parse_i32("2147483648"), None);
    assert_eq!(parse_i32("-2147483649"), None);
}

#[test]
fn default_environment_per_mode() {
    let e = get_env(RunMode::Dev);
    assert_eq!(e.bin_repo, "tf-zos-v3-bins.dev");
    assert_eq!(e.activation_url, "https://activation.dev.grid.tf/activation/activate");
    assert_eq!(e.substrate_url, vec!["wss://tfchain.dev.grid.tf/".to_string()]);
    assert_eq!(e.flist_url, "redis://hub.grid.tf:9900");
    assert!(e.orphan);
    assert_eq!(e.farmer_id, 0);

    let e = get_env(RunMode::Main);
    assert_eq!(e.bin_repo, "tf-zos-v3-bins");
    assert_eq!(e.substrate_url.len(), 4);
    assert_eq!(e.substrate_url[0], "wss://tfchain.grid.tf/");
}

#[test]
fn environment_resolves_from_kernel_parameters() {
    let p = parse_params("runmode=dev farmer_id=37 secret=farmwords");
    let e = get_env_from_params(&p, &no_overrides()).expect("resolves");
    assert_eq!(e.run_mode, RunMode::Dev);
    assert!(!e.orphan);
    assert_eq!(e.farmer_id, 37);
    assert_eq!(e.farmer_secret, "farmwords");
}

#[test]
fn environment_last_value_wins_for_activation() {
    let p = parse_params("runmode=qa activation=https://a.example activation=https://b.example");
    let e = get_env_from_params(&p, &no_overrides()).expect("resolves");
    assert_eq!(e.run_mode, RunMode::Qa);
    assert_eq!(e.activation_url, "https://b.example");
}

#[test]
fn environment_variables_override_parameters() {
    let p = parse_params("runmode=main substrate=wss://one.example/");
    let overrides = EnvOverrides {
        runmode: None,
        substrate_url: Some("wss://two.example/".to_string()),
        flist_url: Some("redis://cache.example:9900".to_string()),
        bin_repo: Some("local-bins".to_string()),
    };
    let e = get_env_from_params(&p, &overrides).expect("resolves");
    assert_eq!(e.substrate_url, vec!["wss://two.example/".to_string()]);
    assert_eq!(e.flist_url, "redis://cache.example:9900");
    assert_eq!(e.bin_repo, "local-bins");
}

#[test]
fn environment_mode_from_variable_when_parameter_missing() {
    let p = parse_params("console=tty0");
    let overrides = EnvOverrides {
        runmode: Some("test".to_string()),
        substrate_url: None,
        flist_url: None,
        bin_repo: None,
    };
    let e = get_env_from_params(&p, &overrides).expect("resolves");
    assert_eq!(e.run_mode, RunMode::Test);
}

#[test]
fn environment_rejects_unreadable_farmer_id() {
    let p = parse_params("runmode=main farmer_id=abc");
    assert!(get_env_from_params(&p, &no_overrides()).is_err());
}

#[test]
fn run_mode_words() {
    assert_eq!(RunMode::from_str("dev"), Ok(RunMode::Dev));
    assert_eq!(RunMode::from_str("development"), Ok(RunMode::Dev));
    assert_eq!(RunMode::from_str("qa"), Ok(RunMode::Qa));
    assert_eq!(RunMode::from_str("test"), Ok(RunMode::Test));
    assert_eq!(RunMode::from_str("main"), Ok(RunMode::Main));
    assert_eq!(RunMode::from_str("production"), Ok(RunMode::Main));
    assert_eq!(RunMode::from_str("staging"), Err("Invalid Running mode"));
    assert_eq!(RunMode::Main.as_str(), "production");
    assert_eq!(RunMode::Dev.as_str(), "development");
}

#[test]
fn flag_names_and_paths() {
    assert_eq!(Flags::LimitedCache.as_str(), "limited-cache");
    assert_eq!(flag_path(Flags::LimitedCache.as_str()), "/tmp/flags/limited-cache");
}
