use dachterasse::cli::chosen_degree;
use dachterasse::cli::command_args;
use dachterasse::cli::command_header;
use dachterasse::cli::commands;
use dachterasse::cli::config_from_args;
use dachterasse::cli::degree_menu;
use dachterasse::cli::details_lines;
use dachterasse::cli::find_command;
use dachterasse::cli::overview_lines;
use dachterasse::cli::Action;
use dachterasse::cli::Command;
use dachterasse::datasource::ErrorKind;
use dachterasse::datasource::SourceError;
use dachterasse::entities::Categories;
use dachterasse::entities::Degrees;
use dachterasse::entities::Lecture;
use dachterasse::service::refusal_of;
use dachterasse::service::requested_degree;
use dachterasse::text::decimal;
use dachterasse::text::parse_index;
use dachterasse::text::same_ignoring_case;

fn args(words: &[&str]) -> Vec<String> {
    words.iter().map(|word| word.to_string()).collect()
}

#[test]
fn commands_are_help_overview_and_all() {
    let commands = commands();
    let names: Vec<&str> = commands.iter().map(|command| command.name.as_str()).collect();
    assert_eq!(names, vec!["help", "overview", "all"]);
    assert_eq!(commands[0].action, Action::Help);
    assert_eq!(commands[1].action, Action::Overview);
    assert_eq!(commands[2].action, Action::Details);
    assert_eq!(commands[0].help, "Prints out this help page");
    assert!(commands[0].arguments.is_empty());
    assert_eq!(commands[2].arguments.len(), 1);
    assert_eq!(commands[2].arguments[0].name, "--config");
    assert_eq!(
        commands[1].arguments[0].description,
        "Custom path to config. Default is cache/lecture_cache.json"
    );
}

#[test]
fn a_command_is_found_by_its_name_in_any_case() {
    let commands = commands();
    assert_eq!(find_command(&commands, "help"), Some(0));
    assert_eq!(find_command(&commands, "OverView"), Some(1));
    assert_eq!(find_command(&commands, "ALL"), Some(2));
    assert_eq!(find_command(&commands, "al"), None);
    assert_eq!(find_command(&commands, "all "), None);
    assert_eq!(find_command(&commands, ""), None);
    assert!(same_ignoring_case("Straße", "sTRAßE"));
    assert!(!same_ignoring_case("ä", "Ä"));
    assert!(!same_ignoring_case("a[", "a{"));
    assert!(same_ignoring_case("az", "AZ"));
    for (a, b) in [("help", "HELP"), ("@", "`"), ("Z", "z"), ("[", "{"), ("é", "É")] {
        assert_eq!(same_ignoring_case(a, b), a.eq_ignore_ascii_case(b));
    }
}

#[test]
fn the_cache_lies_where_the_config_flag_says() {
    let chosen = config_from_args(&args(&["all", "--config", "/tmp/c"]));
    assert_eq!(chosen.get_cache_path().as_deref(), Some("/tmp/c"));
    let default = config_from_args(&args(&["all"]));
    assert_eq!(default.get_cache_path().as_deref(), Some("cache/lecture_cache.json"));
    let without_value = config_from_args(&args(&["all", "--config"]));
    assert_eq!(without_value.get_cache_path().as_deref(), Some("cache/lecture_cache.json"));
    let other_flag = config_from_args(&args(&["all", "--cache", "/tmp/c"]));
    assert_eq!(other_flag.get_cache_path().as_deref(), Some("cache/lecture_cache.json"));
    let nothing = config_from_args(&Vec::new());
    assert_eq!(nothing.get_cache_path().as_deref(), Some("cache/lecture_cache.json"));
}

#[test]
fn the_help_has_a_column_of_twelve_characters() {
    let commands = commands();
    assert_eq!(command_header(&commands[0]), "help         Prints out this help page");
    assert_eq!(
        command_header(&commands[1]),
        "overview     Displays titles for all cached lectures. Please call dachterasse init before."
    );
    let long = Command::new("averyveryverylongname", "does", Action::Help);
    assert_eq!(command_header(&long), "averyveryver does");
    let exact = Command::new("twelve_chars", "fits", Action::Help);
    assert_eq!(command_header(&exact), "twelve_chars fits");
}

#[test]
fn the_help_lists_the_arguments() {
    let commands = commands();
    assert_eq!(command_args(&commands[0]), vec![""]);
    assert_eq!(
        command_args(&commands[2]),
        vec![
            "             ARGS: --config\tCustom path to config. Default is cache/lecture_cache.json",
            "",
        ]
    );
    let two = Command::new_with_args("x", "y", &[("-a", "first"), ("-b", "second")], Action::Help);
    assert_eq!(
        command_args(&two),
        vec![
            "             ARGS: -a\tfirst",
            "                   -b\tsecond",
            "",
        ]
    );
}

fn lecture(title: &str, url: &str, modules: Option<Vec<(&str, Vec<&str>)>>) -> Lecture {
    Lecture {
        title: title.to_string(),
        url: url.to_string(),
        categories: modules.map(|modules| {
            let mut categories = Categories::new();
            for (name, labels) in modules {
                categories.append(name.to_string(), labels.iter().map(|l| l.to_string()).collect());
            }
            categories
        }),
    }
}

#[test]
fn an_overview_is_the_titles() {
    let lectures = vec![lecture("A", "u", None), lecture("B", "v", None)];
    assert_eq!(overview_lines(&lectures), vec!["A", "B"]);
    assert_eq!(
        overview_lines(&[]),
        vec!["", "No lectures found. Try to run 'dachterasse init'."]
    );
}

#[test]
fn the_details_are_title_address_and_categories() {
    let lectures = vec![
        lecture("A", "https://hpi.de/a.html", Some(vec![("M1", vec!["c1", "c2"]), ("M2", vec![])])),
        lecture("B", "https://hpi.de/b.html", None),
        lecture("C", "https://hpi.de/c.html", Some(vec![])),
    ];
    assert_eq!(
        details_lines(&lectures),
        vec![
            "A",
            "https://hpi.de/a.html",
            "> M1",
            "\t c1",
            "\t c2",
            "> M2",
            "--------------",
            "B",
            "https://hpi.de/b.html",
            "--------------",
            "C",
            "https://hpi.de/c.html",
            "--------------",
        ]
    );
    assert_eq!(
        details_lines(&[]),
        vec!["", "No lectures found. Try to run 'dachterasse init'."]
    );
}

#[test]
fn the_menu_lists_the_catalogue() {
    assert_eq!(
        degree_menu(),
        vec![
            "Degrees",
            "",
            "IT-Systems Engineering BA (0)",
            "IT-Systems Engineering MA (1)",
            "Data Engineering MA (2)",
            "Digital Health MA (3)",
            "Cybersecurity MA (4)",
            "",
            "Please choose your degree (0 - 4):",
        ]
    );
}

#[test]
fn an_answer_chooses_a_degree_by_its_place() {
    assert_eq!(chosen_degree("0\n").unwrap().id, "itse-ba");
    assert_eq!(chosen_degree(" 4 ").unwrap().id, "cs-ma");
    assert_eq!(chosen_degree("+2").unwrap().id, "de-ma");
    assert_eq!(chosen_degree("003").unwrap().id, "dh-ma");
    assert!(chosen_degree("5").is_none());
    assert!(chosen_degree("-1").is_none());
    assert!(chosen_degree("").is_none());
    assert!(chosen_degree("one").is_none());
    assert!(chosen_degree("1 2").is_none());
    assert!(chosen_degree("99999999999999999999999999").is_none());
}

#[test]
fn numbers_are_read_and_written_in_decimal() {
    for text in ["0", "7", "10", "+42", " 18446744073709551615 ", "18446744073709551616", "+", "++1",
        "1+", "", " ", "0x10", "1_000", "٣", "12a", "00", "340282366920938463463374607431768211456"] {
        assert_eq!(parse_index(text), text.trim().parse::<usize>().ok(), "{:?}", text);
    }
    for n in [0usize, 1, 9, 10, 11, 99, 100, 101, 1234567890, usize::MAX] {
        assert_eq!(decimal(n), n.to_string());
        assert_eq!(parse_index(&decimal(n)), Some(n));
    }
}

#[test]
fn a_request_for_an_unknown_degree_is_not_found() {
    assert_eq!(requested_degree("dh-ma").unwrap().name, "Digital Health MA");
    let refusal = requested_degree("nope").unwrap_err();
    assert_eq!(refusal.status, 404);
    assert_eq!(refusal.message, "No degree program with this ID found: nope");
    assert_eq!(requested_degree("tbd").unwrap_err().status, 404);
}

#[test]
fn a_failed_load_is_refused_as_a_server_error() {
    let degree = Degrees::itse_ma();
    let no_source = SourceError::new(ErrorKind::NoSource, &degree, "nothing ", "anywhere");
    let refusal = refusal_of(&no_source);
    assert_eq!(refusal.status, 502);
    assert_eq!(refusal.message, "nothing anywhere");
    for kind in [ErrorKind::Network, ErrorKind::Parse, ErrorKind::Shape, ErrorKind::Format,
        ErrorKind::Io, ErrorKind::Db, ErrorKind::Missing, ErrorKind::Upstream] {
        assert_eq!(refusal_of(&SourceError::new(kind, &degree, "", "")).status, 500);
    }
    assert_eq!(no_source.report(), "no-source error for degree itse-ma: nothing anywhere");
    assert_eq!(ErrorKind::Db.name(), "db");
    let copy = no_source.clone();
    assert_eq!(copy.kind, ErrorKind::NoSource);
    assert_eq!(copy.degree_id, "itse-ma");
}
