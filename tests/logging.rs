use device_agent::logging::{include_name, parse_control, parse_include, text_eq, Control, Include, Logging, LoggingConfig, ShipperConfig};

fn doc(includes: Vec<Include>, flush: Option<u64>) -> ShipperConfig {
    ShipperConfig { includes, flush }
}

fn is_remote(i: &Include) -> bool {
    matches!(i, Include::Remote)
}

#[test]
fn on_switches_local_output_to_remote() {
    let mut d = doc(vec![Include::Other("filter.yaml".to_string()), Include::Stdout], Some(10));
    let r = Logging::default().update_configuration(Some(LoggingConfig { control: Control::On, interval: 10 }), &mut d);
    assert!(r.write_and_reload);
    assert!(r.control_supported);
    assert!(is_remote(&d.includes[1]));
    assert!(matches!(&d.includes[0], Include::Other(s) if s == "filter.yaml"));
    assert_eq!(d.flush, Some(10));
}

#[test]
fn repeated_on_needs_no_write() {
    let mut d = doc(vec![Include::Remote], Some(10));
    let cfg = LoggingConfig { control: Control::On, interval: 10 };
    let r = Logging::default().update_configuration(Some(cfg), &mut d);
    assert!(!r.write_and_reload);
    assert!(is_remote(&d.includes[0]));
    assert_eq!(d.flush, Some(10));
}

#[test]
fn applying_twice_is_idempotent() {
    let mut d = doc(vec![Include::Stdout, Include::Other("x.yaml".to_string())], Some(3));
    let cfg = LoggingConfig { control: Control::On, interval: 7 };
    let first = Logging::default().update_configuration(Some(cfg), &mut d);
    let second = Logging::default().update_configuration(Some(cfg), &mut d);
    assert!(first.write_and_reload);
    assert!(!second.write_and_reload);
    assert!(is_remote(&d.includes[0]));
    assert_eq!(d.flush, Some(7));
}

#[test]
fn unsupported_control_only_updates_flush() {
    let mut d = doc(vec![Include::Stdout], Some(10));
    let r = Logging::default().update_configuration(Some(LoggingConfig { control: Control::Unsupported, interval: 5 }), &mut d);
    assert!(r.write_and_reload);
    assert!(!r.control_supported);
    assert!(matches!(d.includes[0], Include::Stdout));
    assert_eq!(d.flush, Some(5));
}

#[test]
fn off_switches_remote_to_local() {
    let mut d = doc(vec![Include::Remote], None);
    let r = Logging::default().update_configuration(Some(LoggingConfig { control: Control::Off, interval: 1 }), &mut d);
    assert!(r.write_and_reload);
    assert!(matches!(d.includes[0], Include::Stdout));
    assert_eq!(d.flush, Some(1));
}

#[test]
fn absent_configuration_is_a_no_op() {
    let mut d = doc(vec![Include::Stdout], Some(2));
    let r = Logging::default().update_configuration(None, &mut d);
    assert!(!r.write_and_reload);
    assert!(matches!(d.includes[0], Include::Stdout));
    assert_eq!(d.flush, Some(2));
}

#[test]
fn name_and_version() {
    assert_eq!(Logging::default().name(), "logging");
    assert_eq!(Logging::default().version(), 1);
}

#[test]
fn zero_interval_is_a_no_op() {
    let mut d = doc(vec![Include::Stdout], Some(10));
    let r = Logging::default().update_configuration(Some(LoggingConfig { control: Control::On, interval: 0 }), &mut d);
    assert!(!r.write_and_reload);
    assert!(!r.interval_valid);
    assert!(matches!(d.includes[0], Include::Stdout));
    assert_eq!(d.flush, Some(10));
}

#[test]
fn control_values_are_parsed() {
    assert_eq!(parse_control("on"), Control::On);
    assert_eq!(parse_control("off"), Control::Off);
    assert_eq!(parse_control("bogus"), Control::Unsupported);
    assert_eq!(parse_control("On"), Control::Unsupported);
}

#[test]
fn include_names_map_both_ways() {
    assert!(matches!(parse_include("output-stdout.yaml"), Include::Stdout));
    assert!(matches!(parse_include("output-loki.yaml"), Include::Remote));
    assert!(matches!(parse_include("filter.yaml"), Include::Other(s) if s == "filter.yaml"));
    assert_eq!(include_name(&Include::Stdout), "output-stdout.yaml");
    assert_eq!(include_name(&Include::Remote), "output-loki.yaml");
    assert_eq!(include_name(&Include::Other("a.yaml".to_string())), "a.yaml");
}

#[test]
fn suppression_flag_disables_logging() {
    let l = Logging::default();
    assert!(l.is_enabled(None));
    assert!(l.is_enabled(Some("false")));
    assert!(!l.is_enabled(Some("true")));
    assert!(text_eq("abc", "abc"));
    assert!(!text_eq("abc", "abd"));
}
