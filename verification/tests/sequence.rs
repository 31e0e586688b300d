use auto_jumpking::command::{Action, Command, Direction};
use auto_jumpking::keyboard::KeyBoard;
use auto_jumpking::sequence::{Notice, Sequence};

fn numbered(script: &[&str]) -> Vec<(usize, String)> {
    script.iter().map(|line| line.to_string()).enumerate().collect()
}

fn load(script: &[&str]) -> Vec<Command> {
    Sequence::from_file(numbered(script)).0.commands().clone()
}

fn keyboard() -> KeyBoard {
    let lines = vec![
        "left=a".to_string(),
        "right=d".to_string(),
        "jump=space".to_string(),
    ];
    match KeyBoard::new(&lines) {
        Ok(keyboard) => keyboard,
        Err(error) => panic!("{}", error.to_string()),
    }
}

fn rejected(notices: &[Notice]) -> Vec<(usize, String)> {
    let mut found = Vec::new();
    for notice in notices {
        if let Notice::Rejected(number, text) = notice {
            found.push((*number, text.clone()));
        }
    }
    found
}

#[test]
fn test_sequence_from_file_success() {
    let script = [
        "# a level",
        "",
        "  jr100, ml400",
        "mr50",
        "# the way back",
        "jl20,mr1",
    ];
    let s = Sequence::from_file(numbered(&script)).0;
    assert_eq!(5usize, s.len());
}

#[test]
fn test_sequence_is_no_comment() {
    vec![
        ((0usize, "# im a comment".to_string()), false),
        ((0usize, "  # me too".to_string()), false),
        ((0usize, "me not".to_string()), true),
        ((0usize, "".to_string()), true),
    ]
    .iter()
    .for_each(|(sample, expected)| assert_eq!(*expected, Sequence::is_no_comment(sample)));
}

#[test]
fn test_sequence_is_not_empty() {
    vec![
        ((0usize, "".to_string()), false),
        ((0usize, "  ".to_string()), false),
        ((0usize, "\t".to_string()), false),
        ((0usize, "\n".to_string()), false),
        ((0usize, "abc\n".to_string()), true),
    ]
    .iter()
    .for_each(|(sample, expected)| assert_eq!(*expected, Sequence::is_not_empty(sample)));
}

#[test]
fn test_sequence_parse_line() {
    vec![
        ("", 0),
        (",", 0),
        ("jr100", 1),
        ("jr100,", 1),
        ("jr100,ml400", 2),
        (" jr100, ml400\n", 2),
    ]
    .iter()
    .for_each(|(sample, expected)| {
        assert_eq!(
            *expected,
            Sequence::parse_line((0usize, sample.to_string())).0.len()
        )
    });
}

#[test]
fn parse_line_skips_a_malformed_token() {
    let (commands, notices) = Sequence::parse_line((3usize, "jr100,xx,ml50".to_string()));
    assert_eq!(
        commands,
        vec![
            Command::new(Direction::Right, 100, true),
            Command::new(Direction::Left, 50, false),
        ]
    );
    assert_eq!(
        rejected(&notices),
        vec![(
            3usize,
            "xx cannot be parsed into a move command. It must match ^[jm][rl][0-9]{1,4}$"
                .to_string()
        )]
    );
    assert_eq!(notices.len(), 1);
}

#[test]
fn parse_line_trims_each_token() {
    let (commands, notices) =
        Sequence::parse_line((0usize, "\t jr1 ,ml2\u{a0},\u{2003}mr3\r\n".to_string()));
    assert_eq!(
        commands,
        vec![
            Command::new(Direction::Right, 1, true),
            Command::new(Direction::Left, 2, false),
            Command::new(Direction::Right, 3, false),
        ]
    );
    assert!(notices.is_empty());
}

#[test]
fn parse_line_reports_each_token_that_is_no_command() {
    let (commands, notices) = Sequence::parse_line((7usize, ", jr 100,,mr10000 ,;".to_string()));
    assert!(commands.is_empty());
    let texts: Vec<String> = rejected(&notices).into_iter().map(|found| found.1).collect();
    let tail = " cannot be parsed into a move command. It must match ^[jm][rl][0-9]{1,4}$";
    assert_eq!(
        texts,
        vec![
            format!("{}", tail),
            format!("jr 100{}", tail),
            format!("{}", tail),
            format!("mr10000{}", tail),
            format!(";{}", tail),
        ]
    );
    assert!(rejected(&notices).iter().all(|found| found.0 == 7));
}

#[test]
fn parse_line_of_punctuation_gives_nothing() {
    for line in [",", ",,,", ";", "-,-", "!?", "=,="] {
        assert!(Sequence::parse_line((0usize, line.to_string())).0.is_empty());
    }
}

#[test]
fn from_file_end_to_end() {
    let commands = load(&["# intro", "jr100,ml400", "", "mr50"]);
    assert_eq!(
        commands,
        vec![
            Command::new(Direction::Right, 100, true),
            Command::new(Direction::Left, 400, false),
            Command::new(Direction::Right, 50, false),
        ]
    );
}

#[test]
fn from_file_of_nothing_is_empty() {
    let (sequence, notices) = Sequence::from_file(Vec::new());
    assert_eq!(sequence.len(), 0);
    assert!(sequence.commands().is_empty());
    assert!(notices.is_empty());
}

#[test]
fn from_file_passes_over_a_comment_that_holds_tokens() {
    assert!(load(&["#jr100,ml400", "  # mr5"]).is_empty());
    assert_eq!(load(&["jr100 # no comment here"]), vec![]);
    assert_eq!(
        load(&["jr100,# ml400 ,mr5"]),
        vec![
            Command::new(Direction::Right, 100, true),
            Command::new(Direction::Right, 5, false),
        ]
    );
}

#[test]
fn from_file_takes_lines_that_end_in_a_carriage_return() {
    assert_eq!(
        load(&["jr100,ml400\r", "\r", "mr50\r"]),
        load(&["jr100,ml400", "", "mr50"])
    );
}

#[test]
fn from_file_ignores_inserted_comments_and_empty_lines() {
    let script = ["jr100,ml400", "mr50,zz", "jl7"];
    let expected = load(&script);
    assert_eq!(expected.len(), 4);
    for skipped in ["", "   ", "\t", "#", "# note", "  #jr1", "\u{2003}"] {
        for at in 0..=script.len() {
            let mut longer: Vec<&str> = script.to_vec();
            longer.insert(at, skipped);
            assert_eq!(load(&longer), expected);
        }
    }
}

#[test]
fn from_file_reports_what_it_passed_over() {
    let lines = vec![
        (1usize, "# intro".to_string()),
        (2usize, "jr100,xx,ml50".to_string()),
        (4usize, "  ".to_string()),
        (5usize, "mr5,".to_string()),
    ];
    let (sequence, notices) = Sequence::from_file(lines);
    assert_eq!(sequence.len(), 3);
    let tail = " cannot be parsed into a move command. It must match ^[jm][rl][0-9]{1,4}$";
    assert_eq!(notices.len(), 4);
    assert!(matches!(notices[0], Notice::Comment(1)));
    assert!(matches!(&notices[1], Notice::Rejected(2, text) if *text == format!("xx{}", tail)));
    assert!(matches!(notices[2], Notice::Empty(4)));
    assert!(matches!(&notices[3], Notice::Rejected(5, text) if *text == tail));
}

#[test]
fn len_counts_the_commands() {
    assert_eq!(Sequence::from_file(numbered(&["jr1"])).0.len(), 1);
    assert_eq!(Sequence::from_file(numbered(&["jr1,jr2,jr3", "ml4"])).0.len(), 4);
    assert_eq!(Sequence::from_file(numbered(&["# jr1"])).0.len(), 0);
}

#[test]
fn run_replays_the_commands_in_order() {
    let keyboard = keyboard();
    let sequence = Sequence::from_file(numbered(&["# intro", "jr100,ml400", "", "mr50"])).0;
    let mut expected: Vec<Action> = Vec::new();
    for command in sequence.commands() {
        expected.extend(command.trigger(&keyboard));
    }
    let actions = sequence.run(&keyboard);
    assert_eq!(actions, expected);
    assert_eq!(actions.len(), 8 + 4 + 4);
    assert_eq!(actions[3], Action::Sleep(100));
    assert_eq!(actions[9], Action::Sleep(400));
    assert_eq!(actions[13], Action::Sleep(50));
    assert_eq!(actions[15], Action::Sleep(25));
}

#[test]
fn run_of_no_commands_does_nothing() {
    let sequence = Sequence::from_file(numbered(&["# nothing", ""])).0;
    assert!(sequence.run(&keyboard()).is_empty());
}

#[test]
fn parse_line_accounts_for_every_token() {
    for line in ["", ",", "jr100,xx,ml50", " jr1 , , mr2,", "a,b,c", "jr1,jr2,jr3,jr4"] {
        let (commands, notices) = Sequence::parse_line((0usize, line.to_string()));
        assert_eq!(commands.len() + notices.len(), line.split(',').count(), "{:?}", line);
    }
}

#[test]
fn from_file_gives_ranges_of_at_most_four_digits() {
    let script = ["jr9999,ml10000,mr0009", "jl99999", "mr12345,mr1234"];
    let commands = load(&script);
    assert_eq!(commands.len(), 3);
    assert!(commands.iter().all(|command| command.range <= 9999));
}
