use esp_examples::cli::{
    find_argument, greeting, greeting_reply, hello_name, ArgumentError, ParamKind, ParamSpec,
};
use esp_examples::number::Seconds;
use esp_examples::ping::{
    accepts_family, argument_value, ping_arguments, ping_options, AddressFamily, PingOptionError,
    PingOptions, PingTally, DEFAULT_ATTEMPTS,
};

#[test]
fn greeting_text() {
    assert_eq!(greeting("Ada"), "Hello, Ada!");
    assert_eq!(greeting(""), "Hello, !");
}

#[test]
fn hello_name_greets_the_name_argument() {
    assert_eq!(hello_name(&["Alice"]), Ok(String::from("Hello, Alice!")));
    assert_eq!(hello_name(&["World"]), Ok(String::from("Hello, World!")));
}

#[test]
fn hello_name_greets_the_first_positional_argument() {
    assert_eq!(hello_name(&["--loud", "Bob", "Carol"]), Ok(String::from("Hello, Bob!")));
}

#[test]
fn hello_name_without_positional_argument_fails() {
    let none: [&str; 0] = [];
    assert_eq!(hello_name(&none), Err(ArgumentError::NotGiven));
    assert_eq!(hello_name(&["--name=x", "--v"]), Err(ArgumentError::NotGiven));
}

#[test]
fn greeting_reply_for_each_lookup_outcome() {
    assert_eq!(greeting_reply(Ok(Some(String::from("Bo")))), Ok(String::from("Hello, Bo!")));
    assert_eq!(greeting_reply(Ok(None)), Err(ArgumentError::NotGiven));
    assert_eq!(greeting_reply(Err(menu::Error::NotFound)), Err(ArgumentError::NotDeclared));
    assert_eq!(greeting_reply(Err(menu::Error::NotACallbackItem)), Err(ArgumentError::NotDeclared));
}

#[test]
fn find_argument_follows_each_parameter_kind() {
    let params = [
        ParamSpec { kind: ParamKind::Mandatory, name: "a" },
        ParamSpec { kind: ParamKind::Optional, name: "b" },
        ParamSpec { kind: ParamKind::Named, name: "verbose" },
        ParamSpec { kind: ParamKind::NamedValue, name: "level" },
    ];
    let args = ["x", "--level=3", "--verbose", "y", "--level=4"];
    assert_eq!(find_argument(&params, &args, "a"), Ok(Some(String::from("x"))));
    assert_eq!(find_argument(&params, &args, "b"), Ok(Some(String::from("y"))));
    assert_eq!(find_argument(&params, &args, "verbose"), Ok(Some(String::new())));
    assert_eq!(find_argument(&params, &args, "level"), Ok(Some(String::from("3"))));
    assert_eq!(find_argument(&params, &args, "missing"), Err(menu::Error::NotFound));
    assert_eq!(find_argument(&params, &["x"], "b"), Ok(None));
    assert_eq!(find_argument(&params, &["x"], "verbose"), Ok(None));
    assert_eq!(find_argument(&params, &["--levelx=1"], "level"), Ok(None));
}

#[test]
fn ping_arguments_finds_host_and_options() {
    let args = ["--count=10", "example.com", "--size=100"];
    let a = ping_arguments(&args);
    assert_eq!(a.host.as_deref(), Some("example.com"));
    assert_eq!(a.count.as_deref(), Some("10"));
    assert_eq!(a.interval, None);
    assert_eq!(a.timeout, None);
    assert_eq!(a.size.as_deref(), Some("100"));
}

#[test]
fn ping_arguments_each_option_gets_its_own_value() {
    let args = ["--size=1", "--timeout=2", "--interval=3", "--count=4", "h"];
    let a = ping_arguments(&args);
    assert_eq!(a.count.as_deref(), Some("4"));
    assert_eq!(a.interval.as_deref(), Some("3"));
    assert_eq!(a.timeout.as_deref(), Some("2"));
    assert_eq!(a.size.as_deref(), Some("1"));
    assert_eq!(a.host.as_deref(), Some("h"));
}

#[test]
fn ping_arguments_value_is_argument_tail() {
    let args = ["--timeout=", "10.0.0.1", "--interval=3"];
    let a = ping_arguments(&args);
    assert_eq!(a.host.as_deref(), Some("10.0.0.1"));
    assert_eq!(a.timeout.as_deref(), Some(""));
    assert_eq!(a.interval.as_deref(), Some("3"));
    assert_eq!(
        ping_options(a.count.as_deref(), a.interval.as_deref(), a.timeout.as_deref(), a.size.as_deref()),
        Err(PingOptionError::Timeout)
    );
}

#[test]
fn argument_value_for_each_lookup_outcome() {
    assert_eq!(argument_value(Ok(Some(String::from("5")))), Some(String::from("5")));
    assert_eq!(argument_value(Ok(None)), None);
    assert_eq!(argument_value(Err(menu::Error::NotFound)), None);
}

#[test]
fn ping_options_defaults() {
    assert_eq!(
        ping_options(None, None, None, None),
        Ok(PingOptions {
            attempts: DEFAULT_ATTEMPTS,
            interval: None,
            timeout_secs: None,
            data_size: None,
        })
    );
}

#[test]
fn ping_options_reads_every_option() {
    assert_eq!(
        ping_options(Some("10"), Some("2"), Some("3"), Some("100")),
        Ok(PingOptions {
            attempts: 10,
            interval: Some(Seconds { secs: 2, millis: 0 }),
            timeout_secs: Some(3),
            data_size: Some(100),
        })
    );
}

#[test]
fn ping_options_reads_fractional_interval() {
    let o = ping_options(None, Some("0.5"), None, Some("100")).unwrap();
    assert_eq!(o.interval, Some(Seconds { secs: 0, millis: 500 }));
    assert_eq!(o.data_size, Some(100));
    assert_eq!(o.attempts, 4);
    assert_eq!(
        ping_options(None, Some("1.25"), None, None).unwrap().interval,
        Some(Seconds { secs: 1, millis: 250 })
    );
    assert_eq!(
        ping_options(None, Some("+0.0019"), None, None).unwrap().interval,
        Some(Seconds { secs: 0, millis: 1 })
    );
}

#[test]
fn ping_options_accepts_any_whole_second_interval() {
    assert_eq!(
        ping_options(None, Some("18446744073709551615"), None, None).unwrap().interval,
        Some(Seconds { secs: u64::MAX, millis: 0 })
    );
    assert_eq!(
        ping_options(None, Some("18446744073709552000"), None, None),
        Err(PingOptionError::Interval)
    );
}

#[test]
fn ping_options_reports_first_bad_option() {
    assert_eq!(ping_options(Some("x"), Some("y"), None, None), Err(PingOptionError::Count));
    assert_eq!(ping_options(Some("1"), Some("0."), None, None), Err(PingOptionError::Interval));
    assert_eq!(ping_options(Some("1"), Some(".5"), None, None), Err(PingOptionError::Interval));
    assert_eq!(ping_options(None, None, Some("-1"), Some("z")), Err(PingOptionError::Timeout));
    assert_eq!(ping_options(None, None, None, Some("4294967296")), Err(PingOptionError::Size));
}

#[test]
fn ping_report_statistics() {
    let mut t = PingTally::new(4);
    t.record(1, 1, 10);
    t.record(1, 0, 30);
    t.record(1, 1, 20);
    t.record(1, 1, 25);
    assert_eq!(t.recorded(), 4);
    let r = t.report();
    assert_eq!(r.sent, 4);
    assert_eq!(r.received, 3);
    assert_eq!(r.lost, 1);
    assert_eq!(r.loss_percent, 25);
    assert_eq!(r.min_ms, 10);
    assert_eq!(r.max_ms, 30);
    assert_eq!(r.avg_ms, 21);
    assert!(r.min_ms <= r.avg_ms && r.avg_ms <= r.max_ms);
    assert_eq!(r.received + r.lost, r.sent);
}

#[test]
fn ping_report_half_lost_is_fifty_percent() {
    let mut t = PingTally::new(4);
    t.record(1, 1, 10);
    t.record(1, 0, 0);
    t.record(1, 1, 30);
    t.record(1, 0, 0);
    let r = t.report();
    assert_eq!((r.sent, r.received, r.lost, r.loss_percent), (4, 2, 2, 50));
}

#[test]
fn ping_report_all_lost_is_hundred_percent() {
    let mut t = PingTally::new(2);
    t.record(1, 0, 1000);
    t.record(1, 0, 1000);
    let r = t.report();
    assert_eq!(r.received, 0);
    assert_eq!(r.lost, 2);
    assert_eq!(r.loss_percent, 100);
    assert_eq!(r.avg_ms, 1000);
}

#[test]
fn ping_report_single_attempt() {
    let mut t = PingTally::new(1);
    t.record(1, 1, 7);
    let r = t.report();
    assert_eq!((r.min_ms, r.max_ms, r.avg_ms), (7, 7, 7));
    assert_eq!(r.loss_percent, 0);
}

#[test]
fn ping_report_loss_rounds_down() {
    let mut t = PingTally::new(3);
    t.record(1, 0, 5);
    t.record(1, 1, 5);
    t.record(1, 1, 5);
    assert_eq!(t.report().loss_percent, 33);
}

#[test]
fn only_ipv4_addresses_are_pinged() {
    assert!(accepts_family(AddressFamily::V4));
    assert!(!accepts_family(AddressFamily::V6));
}

#[test]
fn tally_wants_as_many_attempts_as_the_count() {
    let mut t = PingTally::new(3);
    let mut made = 0;
    while t.wants_more() {
        t.record(1, 1, 1);
        made += 1;
    }
    assert_eq!(made, 3);
    assert!(!PingTally::new(0).wants_more());
    assert!(!PingTally::new(-5).wants_more());
}
