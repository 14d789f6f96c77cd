use devconsole::actuator::{is_reserved, resolve, Actuator};
use devconsole::dispatch::{classify, Batch, Step, Verdict};
use devconsole::event::{Execute, Feedback};
use devconsole::record::Level;

fn line(text: &str, level: Level) -> (String, Level) {
    (text.to_string(), level)
}

fn fps() -> clap::Command {
    clap::Command::new("fps")
        .about("to display on the screen top-right corner")
        .disable_help_flag(true)
        .disable_help_subcommand(true)
        .arg(
            clap::Arg::new("value")
                .required(false)
                .value_parser(clap::builder::RangedI64ValueParser::<u8>::new()),
        )
}

fn say() -> clap::Command {
    clap::Command::new("say")
        .about("repeat the words")
        .disable_help_flag(true)
        .disable_help_subcommand(true)
        .arg(clap::Arg::new("words").required(false).num_args(0..))
}

fn console() -> Actuator<u32> {
    let mut actuator: Actuator<u32> = Actuator::default();
    actuator.register(7, fps());
    actuator.register(9, say());
    actuator
}

fn log(actuator: &Actuator<u32>) -> Vec<(String, Level)> {
    actuator.get_record(&None, &usize::MAX)
}

fn submit(actuator: &mut Actuator<u32>, text: &str) -> Step<u32> {
    actuator.submit(&Execute::new(text.to_string()))
}

#[test]
fn empty_input_is_logged_and_nothing_else() {
    let mut actuator = console();
    let step = submit(&mut actuator, "");
    assert_eq!(step, Step::Logged);
    assert_eq!(log(&actuator), vec![line("", Level::Info)]);
    assert_eq!(actuator.roll_back_history(), None);
    assert!(actuator.read("fps").is_empty());
}

#[test]
fn blank_input_is_logged_empty() {
    let mut actuator = console();
    assert_eq!(submit(&mut actuator, "   \t "), Step::Logged);
    assert_eq!(log(&actuator), vec![line("", Level::Info)]);
    assert_eq!(actuator.roll_back_history(), None);
}

#[test]
fn unknown_command_logs_one_error_line() {
    let mut actuator: Actuator<u32> = Actuator::default();
    let step = submit(&mut actuator, "frobnicate");
    assert_eq!(step, Step::Rejected);
    assert_eq!(
        log(&actuator),
        vec![line("frobnicate", Level::Info), line("command does not exist", Level::Error)]
    );
    assert_eq!(actuator.roll_back_history().cloned(), Some("frobnicate".to_string()));
}

#[test]
fn bad_argument_is_rejected() {
    let mut actuator = console();
    assert_eq!(submit(&mut actuator, "fps many"), Step::Rejected);
    assert_eq!(submit(&mut actuator, "fps 300"), Step::Rejected);
    assert!(actuator.read("fps").is_empty());
}

#[test]
fn duplicate_registration_is_detectable() {
    let mut actuator: Actuator<u32> = Actuator::default();
    assert!(!actuator.is_registered("fps"));
    actuator.register(7, fps());
    assert!(actuator.is_registered("fps"));
    assert!(!actuator.is_registered("say"));
}

#[test]
fn try_register_turns_taken_names_away() {
    let mut actuator: Actuator<u32> = Actuator::default();
    assert!(actuator.try_register(7, fps()));
    assert!(!actuator.try_register(8, fps()));
    assert!(!actuator.try_register(8, clap::Command::new("help")));
    assert!(!actuator.try_register(8, clap::Command::new("quit")));
    assert!(!actuator.try_register(8, clap::Command::new("clean")));
    assert!(actuator.try_register(9, say()));
    assert_eq!(submit(&mut actuator, "fps"), Step::Routed("fps".to_string(), 7));
    assert_eq!(submit(&mut actuator, "say"), Step::Routed("say".to_string(), 9));
}

#[test]
fn registered_command_gets_a_nested_help() {
    let mut actuator: Actuator<u32> = Actuator::default();
    actuator.register(3, clap::Command::new("bare").about("nothing to it"));
    let text = match submit(&mut actuator, "bare help") {
        Step::Helped(text) => text,
        other => panic!("{other:?}"),
    };
    assert!(text.contains("nothing to it"));
    assert!(!text.contains("--help"));
    assert_eq!(submit(&mut actuator, "bare"), Step::Routed("bare".to_string(), 3));
    assert_eq!(submit(&mut actuator, "bare --help"), Step::Rejected);
}

#[test]
fn aliases_select_a_registered_command() {
    let mut actuator: Actuator<u32> = Actuator::default();
    assert!(actuator.try_register(4, clap::Command::new("rate").alias("r").alias("speed")));
    assert_eq!(submit(&mut actuator, "r"), Step::Routed("rate".to_string(), 4));
    assert_eq!(submit(&mut actuator, "speed"), Step::Routed("rate".to_string(), 4));
    assert!(actuator.is_taken("rate"));
    assert!(actuator.is_taken("r"));
    assert!(actuator.is_taken("speed"));
    assert!(actuator.is_registered("rate"));
    assert!(!actuator.is_registered("r"));
}

#[test]
fn try_register_turns_taken_aliases_away() {
    let mut actuator: Actuator<u32> = Actuator::default();
    assert!(actuator.try_register(4, clap::Command::new("rate").alias("r")));
    assert!(!actuator.try_register(5, clap::Command::new("other").alias("quit")));
    assert!(!actuator.try_register(5, clap::Command::new("other").alias("rate")));
    assert!(!actuator.try_register(5, clap::Command::new("other").alias("r")));
    assert!(!actuator.try_register(5, clap::Command::new("r")));
    assert!(!actuator.try_register(5, clap::Command::new("twice").alias("twice")));
    assert!(!actuator.try_register(5, clap::Command::new("twin").alias("t").alias("t")));
    assert!(!actuator.is_taken("other"));
    assert!(!actuator.is_taken("twice"));
    assert!(actuator.try_register(5, clap::Command::new("other").alias("o")));
    assert_eq!(submit(&mut actuator, "o"), Step::Routed("other".to_string(), 5));
    assert_eq!(submit(&mut actuator, "quit"), Step::Exit);
}

#[test]
fn built_in_labels_are_taken() {
    let actuator: Actuator<u32> = Actuator::default();
    for label in ["help", "exit", "quit", "clear", "clean"] {
        assert!(actuator.is_taken(label));
    }
    assert!(!actuator.is_taken("fps"));
    assert!(!actuator.is_taken(""));
}

#[test]
fn built_in_names_are_reserved() {
    for name in ["help", "exit", "quit", "clear", "clean"] {
        assert!(is_reserved(name));
    }
    assert!(!is_reserved("fps"));
    assert!(!is_reserved(""));
    assert!(!is_reserved("Help"));
}

#[test]
fn exit_and_its_alias_leave() {
    let mut actuator = console();
    assert_eq!(submit(&mut actuator, "exit"), Step::Exit);
    assert_eq!(submit(&mut actuator, "quit"), Step::Exit);
    assert_eq!(log(&actuator), vec![line("exit", Level::Info), line("quit", Level::Info)]);
}

#[test]
fn clear_and_its_alias_empty_the_log() {
    let mut actuator = console();
    submit(&mut actuator, "nope");
    assert_eq!(submit(&mut actuator, "clear"), Step::Cleared);
    assert_eq!(log(&actuator), vec![]);
    submit(&mut actuator, "nope");
    assert_eq!(submit(&mut actuator, "clean"), Step::Cleared);
    assert_eq!(actuator.record_len(), 0);
    assert_eq!(actuator.roll_back_history().cloned(), Some("clean".to_string()));
}

#[test]
fn help_is_framed_by_empty_lines() {
    let mut actuator = console();
    let step = submit(&mut actuator, "help");
    let text = match step {
        Step::Helped(text) => text,
        other => panic!("{other:?}"),
    };
    assert_eq!(text, actuator.help());
    for word in ["help", "exit", "clear", "fps", "say", "show the commands"] {
        assert!(text.contains(word), "{word}");
    }
    let mut expected = vec![line("help", Level::Info), line("", Level::Display)];
    for part in text.split('\n') {
        expected.push(line(part, Level::Success));
    }
    expected.push(line("", Level::Display));
    assert_eq!(log(&actuator), expected);
}

#[test]
fn nested_help_shows_the_command() {
    let mut actuator = console();
    let step = submit(&mut actuator, "fps help");
    let text = match step {
        Step::Helped(text) => text,
        other => panic!("{other:?}"),
    };
    assert_eq!(text, actuator.subcommand_help("fps"));
    assert!(text.contains("to display on the screen top-right corner"));
    assert!(!text.contains("repeat the words"));
    let shown = log(&actuator);
    assert_eq!(shown[0], line("fps help", Level::Info));
    assert_eq!(shown[1], line("", Level::Display));
    assert_eq!(shown[shown.len() - 1], line("", Level::Display));
    assert!(actuator.read("fps").is_empty());
}

#[test]
fn subcommand_help_of_unknown_command_is_empty() {
    let actuator = console();
    assert_eq!(actuator.subcommand_help("frobnicate"), "");
}

#[test]
fn subcommand_help_finds_aliases() {
    let actuator = console();
    assert_eq!(actuator.subcommand_help("quit"), actuator.subcommand_help("exit"));
    assert!(actuator.subcommand_help("quit").contains("exit game"));
}

#[test]
fn arguments_wait_for_the_handler() {
    let mut actuator = console();
    assert_eq!(submit(&mut actuator, "fps 1"), Step::Routed("fps".to_string(), 7));
    assert_eq!(submit(&mut actuator, "fps"), Step::Routed("fps".to_string(), 7));
    assert_eq!(submit(&mut actuator, "say hi"), Step::Routed("say".to_string(), 9));
    let waiting = actuator.read("fps");
    assert_eq!(waiting.len(), 2);
    assert_eq!(waiting[0].get_one::<u8>("value"), Some(&1));
    assert_eq!(waiting[1].get_one::<u8>("value"), None);
    assert!(actuator.read("fps").is_empty());
    assert_eq!(actuator.read("say").len(), 1);
}

#[test]
fn words_are_split_as_a_shell_does() {
    let mut actuator = console();
    submit(&mut actuator, "say \"hello world\" it\\'s 'a b'");
    let waiting = actuator.read("say");
    let words: Vec<String> = waiting[0].get_many::<String>("words").unwrap().cloned().collect();
    assert_eq!(words, vec!["hello world", "it's", "a b"]);
}

#[test]
fn matcher_resolves_name_and_arguments() {
    let actuator = console();
    let (bin, args) = actuator.matcher("fps 0").unwrap();
    assert_eq!(bin, "fps");
    assert_eq!(args.get_one::<u8>("value"), Some(&0));
    let (bin, _) = actuator.matcher("quit").unwrap();
    assert_eq!(bin, "exit");
    assert!(actuator.matcher("").is_none());
    assert!(actuator.matcher("frobnicate").is_none());
    assert!(actuator.matcher("--help").is_none());
}

#[test]
fn push_and_read_of_unknown_command() {
    let mut actuator = console();
    let (_, args) = actuator.matcher("fps 1").unwrap();
    assert_eq!(actuator.push("nope", args.clone()), Err(()));
    assert_eq!(actuator.push("help", args.clone()), Err(()));
    assert!(actuator.read("nope").is_empty());
    assert_eq!(actuator.push("fps", args), Ok(&7));
    assert_eq!(actuator.read("fps").len(), 1);
}

#[test]
fn resolve_of_failed_parse_is_none() {
    assert!(resolve(None).is_none());
}

#[test]
fn resolve_gives_the_selected_command() {
    let root = clap::Command::new("").no_binary_name(true).subcommand(fps());
    let outcome = root.clone().try_get_matches_from(["fps", "1"]).ok();
    let (bin, args) = resolve(outcome).unwrap();
    assert_eq!(bin, "fps");
    assert_eq!(args.get_one::<u8>("value"), Some(&1));
    let outcome = root.try_get_matches_from(Vec::<String>::new()).ok();
    assert!(resolve(outcome).is_none());
}

#[test]
fn classify_tells_requests_apart() {
    let root = clap::Command::new("")
        .no_binary_name(true)
        .subcommand(fps().subcommand(clap::Command::new("help")));
    let plain = root.clone().try_get_matches_from(["fps", "1"]).unwrap();
    let (_, below) = plain.subcommand().unwrap();
    assert_eq!(classify("fps", below), Verdict::Route);
    assert_eq!(classify("exit", below), Verdict::Exit);
    assert_eq!(classify("clear", below), Verdict::Clear);
    assert_eq!(classify("help", below), Verdict::Help);
    let nested = root.try_get_matches_from(["fps", "help"]).unwrap();
    let (_, below) = nested.subcommand().unwrap();
    assert_eq!(classify("fps", below), Verdict::HelpOf);
    assert_eq!(classify("exit", below), Verdict::Exit);
}

#[test]
fn exit_ends_the_batch() {
    let mut actuator = console();
    let batch: Vec<Execute> = ["fps 1", "", "nope", "exit", "fps 0"]
        .iter()
        .map(|text| Execute::new(text.to_string()))
        .collect();
    let done = actuator.execute(&batch);
    assert_eq!(
        done,
        Batch {
            steps: vec![
                Step::Routed("fps".to_string(), 7),
                Step::Logged,
                Step::Rejected,
                Step::Exit
            ],
            refresh: false
        }
    );
    assert_eq!(
        log(&actuator),
        vec![
            line("fps 1", Level::Info),
            line("", Level::Info),
            line("nope", Level::Info),
            line("command does not exist", Level::Error),
            line("exit", Level::Info)
        ]
    );
    assert_eq!(actuator.read("fps").len(), 1);
    assert_eq!(actuator.roll_back_history().cloned(), Some("exit".to_string()));
}

#[test]
fn batch_without_exit_takes_every_line() {
    let mut actuator = console();
    let batch = vec![Execute::new("fps".to_string()), Execute::new("say a".to_string())];
    let done = actuator.execute(&batch);
    assert_eq!(done.steps.len(), 2);
    assert!(done.refresh);
    assert_eq!(actuator.execute(&Vec::new()), Batch { steps: vec![], refresh: true });
}

#[test]
fn grammar_has_no_help_flag() {
    let actuator = console();
    assert!(!actuator.help().contains("--help"));
    assert!(!actuator.help().contains("-h,"));
}

#[test]
fn feedback_appends_and_replaces() {
    let mut actuator = console();
    let events = vec![
        Feedback::Append("fps ?".to_string(), Level::Info),
        Feedback::Replace("fps 1".to_string(), Level::Success),
        Feedback::Append("a\nb".to_string(), Level::Warn),
    ];
    assert_eq!(actuator.feedback(&events), 3);
    assert_eq!(
        log(&actuator),
        vec![line("fps 1", Level::Success), line("a", Level::Warn), line("b", Level::Warn)]
    );
    assert_eq!(actuator.feedback(&Vec::new()), 0);
}

#[test]
fn show_help_frames_any_text() {
    let mut actuator: Actuator<u32> = Actuator::new(3);
    actuator.show_help("one\ntwo");
    assert_eq!(
        log(&actuator),
        vec![line("one", Level::Success), line("two", Level::Success), line("", Level::Display)]
    );
}

#[test]
fn new_console_has_the_given_capacity() {
    let mut actuator: Actuator<u32> = Actuator::new(2);
    actuator.push_record("a\nb\nc", Level::Info);
    assert_eq!(actuator.record_len(), 2);
    assert_eq!(actuator.record_last_index(), 1);
    assert_eq!(actuator.record().len(), 2);
    actuator.push_empty_record(1);
    actuator.replace_last_record("d", Level::Error);
    assert_eq!(log(&actuator), vec![line("c", Level::Info), line("d", Level::Error)]);
    actuator.clear();
    assert_eq!(actuator.record_len(), 0);
}

#[test]
fn default_console_holds_1024_lines() {
    let mut actuator: Actuator<u32> = Actuator::default();
    for _ in 0..1100 {
        actuator.push_record("x", Level::Info);
    }
    assert_eq!(actuator.record_len(), 1024);
}

#[test]
fn history_through_the_console() {
    let mut actuator = console();
    actuator.push_history(" a ");
    actuator.push_history("b");
    assert_eq!(actuator.roll_back_history().cloned(), Some("b".to_string()));
    assert_eq!(actuator.roll_back_history().cloned(), Some("a".to_string()));
    assert_eq!(actuator.roll_forward_history().cloned(), Some("b".to_string()));
    assert_eq!(actuator.roll_forward_history(), None);
}

#[test]
fn execute_strips_leading_backquotes() {
    assert_eq!(Execute::new("``fps 1 ".to_string()).0, "fps 1");
    assert_eq!(Execute::new("`".to_string()).0, "");
    assert_eq!(Execute::new("  ` fps".to_string()).0, "` fps");
    assert_eq!(Execute::new("say `x`".to_string()).0, "say `x`");
}

#[test]
fn execute_trim_drops_surrounding_whitespace() {
    assert_eq!(Execute(" fps 1\n".to_string()).trim(), "fps 1");
    assert_eq!(Execute(String::new()).trim(), "");
}
