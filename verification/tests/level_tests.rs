use bunyan_view::level::LogLevel;

fn assert_log_levels_parse(levels: Vec<LogLevel>) {
    for test_level in levels {
        let level_string = test_level.as_string();
        let lower_case_level_string = level_string.to_ascii_lowercase();

        println!(
            "Attempting to parse string [{}] as log level literal",
            level_string
        );

        // test parsing uppercase
        match LogLevel::parse(&level_string) {
            Ok(level) => assert_eq!(level, test_level, "Unable to parse input to log level"),
            Err(err) => panic!("{}", err),
        }

        // test parsing lowercase
        match LogLevel::parse(&lower_case_level_string) {
            Ok(level) => assert_eq!(level, test_level, "Unable to parse input to log level"),
            Err(err) => panic!("{}", err),
        }
    }
}

#[test]
fn can_parse_to_known_log_level() {
    let levels = vec![
        LogLevel::TRACE,
        LogLevel::DEBUG,
        LogLevel::INFO,
        LogLevel::ERROR,
        LogLevel::FATAL,
    ];
    assert_log_levels_parse(levels);
}

#[test]
fn can_parse_custom_level_log_level() {
    let levels = vec![
        LogLevel::OTHER(0),
        LogLevel::OTHER(100),
        LogLevel::OTHER(1001),
    ];
    assert_log_levels_parse(levels);
}

#[test]
fn level_names_pad_to_five_columns() {
    assert_eq!(LogLevel::INFO.padded_name(), " INFO");
    assert_eq!(LogLevel::ERROR.padded_name(), "ERROR");
    assert_eq!(LogLevel::WARN.padded_name(), " WARN");
    assert_eq!(LogLevel::OTHER(100).padded_name(), "LVL100");
}

#[test]
fn level_codes_round_trip() {
    assert_eq!(LogLevel::from_u16(10), LogLevel::TRACE);
    assert_eq!(LogLevel::from_u16(60), LogLevel::FATAL);
    assert_eq!(LogLevel::from_u16(42), LogLevel::OTHER(42));
    assert_eq!(LogLevel::WARN.as_u16(), 40);
}

#[test]
fn unparseable_level_is_an_error() {
    let r = LogLevel::parse("warning");
    assert_eq!(r, Err(String::from("warning")));
    assert_eq!(LogLevel::parse("LVL70000"), Err(String::from("LVL70000")));
}
