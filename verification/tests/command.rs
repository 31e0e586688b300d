use auto_jumpking::command::{Action, Command, Direction, LATENCY, MAX_RANGE, WAITTIME};
use auto_jumpking::keyboard::KeyBoard;
use auto_jumpking::win::KeyInput;

fn keyboard() -> KeyBoard {
    let lines = vec![
        "left=a".to_string(),
        "right=d".to_string(),
        "jump=space".to_string(),
    ];
    match KeyBoard::new(&lines) {
        Ok(keyboard) => keyboard,
        Err(error) => panic!("{}", error.to_string()),
    }
}

fn down(vk: u16) -> Action {
    Action::Send(KeyInput { vk, scan: 0, flags: 0, time: 0, extra_info: 0 })
}

fn up(vk: u16) -> Action {
    Action::Send(KeyInput { vk, scan: 0, flags: 2, time: 0, extra_info: 0 })
}

#[test]
fn test_command_pattern() {
    vec![
        ("mr100", true),
        ("ml9999", true),
        ("5", false),
        ("", false),
        ("mr", false),
    ]
    .iter()
    .for_each(|(sample, expected)| assert_eq!(*expected, Command::matches(sample)));
}

#[test]
fn test_command_parse_success() {
    vec![
        ("ml42", Command::new(Direction::Left, 42, false)),
        ("mr666", Command::new(Direction::Right, 666, false)),
        ("jr666", Command::new(Direction::Right, 666, true)),
        ("jl100", Command::new(Direction::Left, 100, true)),
    ]
    .iter()
    .for_each(|(sample, expected)| assert_eq!(*expected, sample.parse::<Command>().unwrap()));
}

#[test]
fn test_command_parse_failure() {
    vec!["ml42000", "mx666"]
        .iter()
        .for_each(|sample| assert!(sample.parse::<Command>().is_err()));
}

#[test]
fn new_keeps_its_arguments() {
    let command = Command::new(Direction::Right, 1234, true);
    assert_eq!(command.direction, Direction::Right);
    assert_eq!(command.range, 1234);
    assert!(command.jump);
}

#[test]
fn parse_reads_the_range_as_a_decimal_number() {
    assert_eq!("mr0".parse::<Command>(), Ok(Command::new(Direction::Right, 0, false)));
    assert_eq!("mr7".parse::<Command>(), Ok(Command::new(Direction::Right, 7, false)));
    assert_eq!("jl0100".parse::<Command>(), Ok(Command::new(Direction::Left, 100, true)));
    assert_eq!("jl0000".parse::<Command>(), Ok(Command::new(Direction::Left, 0, true)));
    assert_eq!("ml9999".parse::<Command>(), Ok(Command::new(Direction::Left, 9999, false)));
    assert_eq!("jr1203".parse::<Command>(), Ok(Command::new(Direction::Right, 1203, true)));
}

#[test]
fn parse_is_the_same_on_every_call() {
    for sample in ["jr100", "ml5", "xx", "", "mr10000"] {
        assert_eq!(sample.parse::<Command>(), sample.parse::<Command>());
    }
}

#[test]
fn parse_rejects_what_is_no_token() {
    for sample in [
        "", "m", "mr", "j", "jl", "5", "100", "mr10000", "ml42000", "mx666", "xr100", "rm100",
        "MR100", "Jr100", "mR100", "mr-1", "mr+1", "mr1 ", " mr1", "mr1\n", "mr 1", "mr1,",
        "mr1.5", "mr1a", "mrr1", "jjr1", "mr\u{661}", "mr\u{ff11}", "m\u{e4}1", "jr100jr100",
    ] {
        assert!(sample.parse::<Command>().is_err(), "{:?}", sample);
        assert!(!Command::matches(sample), "{:?}", sample);
    }
}

#[test]
fn parse_names_the_token_and_the_grammar_when_it_rejects() {
    assert_eq!(
        "xx".parse::<Command>(),
        Err("xx cannot be parsed into a move command. It must match ^[jm][rl][0-9]{1,4}$"
            .to_string())
    );
    assert_eq!(
        "".parse::<Command>(),
        Err(" cannot be parsed into a move command. It must match ^[jm][rl][0-9]{1,4}$"
            .to_string())
    );
    assert_eq!(
        "mr10000".parse::<Command>(),
        Err("mr10000 cannot be parsed into a move command. It must match ^[jm][rl][0-9]{1,4}$"
            .to_string())
    );
}

#[test]
fn grammar_ends_at_four_digits() {
    for kind in ["j", "m"] {
        for side in ["r", "l"] {
            let mut digits = String::new();
            assert!(format!("{}{}{}", kind, side, digits).parse::<Command>().is_err());
            for count in 1..=8 {
                digits.push('7');
                let token = format!("{}{}{}", kind, side, digits);
                assert_eq!(token.parse::<Command>().is_ok(), count <= 4, "{}", token);
                assert_eq!(Command::matches(&token), count <= 4, "{}", token);
            }
        }
    }
}

#[test]
fn token_round_trip() {
    for direction in [Direction::Left, Direction::Right] {
        for jump in [false, true] {
            for range in 0..=MAX_RANGE {
                let command = Command::new(direction, range, jump);
                assert_eq!(command.token().parse::<Command>(), Ok(command));
            }
        }
    }
}

#[test]
fn token_is_the_shortest_that_writes_the_command() {
    assert_eq!(Command::new(Direction::Right, 100, true).token(), "jr100");
    assert_eq!(Command::new(Direction::Left, 0, false).token(), "ml0");
    assert_eq!(Command::new(Direction::Left, 9999, true).token(), "jl9999");
    assert_eq!(Command::new(Direction::Right, 50, false).token(), "mr50");
    let far = Command { direction: Direction::Right, range: 120_000, jump: false };
    assert_eq!(far.token(), "mr120000");
    assert!(far.token().parse::<Command>().is_err());
}

#[test]
fn to_string_shows_kind_direction_and_range() {
    assert_eq!(Command::new(Direction::Right, 100, true).to_string(), "Jump-Right-100");
    assert_eq!(Command::new(Direction::Left, 400, false).to_string(), "Move-Left-400");
    assert_eq!(Command::new(Direction::Right, 0, false).to_string(), "Move-Right-0");
    let far = Command { direction: Direction::Left, range: u64::MAX, jump: true };
    assert_eq!(far.to_string(), "Jump-Left-18446744073709551615");
}

#[test]
fn matches_agrees_with_the_regular_expression() {
    let regex = regex::Regex::new("^[jm][rl][0-9]{1,4}$").unwrap();
    let alphabet = ['j', 'm', 'r', 'l', '0', '9', '5', 'x', ' ', '\n', '\u{661}', 'J'];
    let mut samples: Vec<String> = vec![String::new()];
    let mut from = 0;
    for _ in 0..4 {
        let upto = samples.len();
        for index in from..upto {
            for c in alphabet {
                let mut longer = samples[index].clone();
                longer.push(c);
                samples.push(longer);
            }
        }
        from = upto;
    }
    for digits in ["12345", "1234", "123", "00000", "0000", "99999", "1234\n", "12 3"] {
        for prefix in ["jr", "jl", "mr", "ml", "rj", "mm"] {
            samples.push(format!("{}{}", prefix, digits));
        }
    }
    for sample in samples {
        assert_eq!(Command::matches(&sample), regex.is_match(&sample), "{:?}", sample);
        assert_eq!(sample.parse::<Command>().is_ok(), regex.is_match(&sample), "{:?}", sample);
    }
}

#[test]
fn parse_agrees_with_the_standard_number_parser() {
    for range in 0..=MAX_RANGE {
        for width in 1..=4 {
            let digits = format!("{:0width$}", range, width = width);
            if digits.len() <= 4 {
                let token = format!("mr{}", digits);
                let expected = digits.parse::<u64>().unwrap();
                assert_eq!(token.parse::<Command>().unwrap().range, expected);
            }
        }
    }
}

#[test]
fn trigger_jump_presses_and_releases_in_order() {
    let command: Command = "jr100".parse().unwrap();
    assert_eq!(
        command.trigger(&keyboard()),
        vec![
            down(0x20),
            Action::Sleep(5),
            down(0x44),
            Action::Sleep(100),
            up(0x20),
            Action::Sleep(5),
            up(0x44),
            Action::Sleep(100),
        ]
    );
}

#[test]
fn trigger_move_presses_holds_releases_and_waits() {
    let command: Command = "mr50".parse().unwrap();
    assert_eq!(
        command.trigger(&keyboard()),
        vec![down(0x44), Action::Sleep(50), up(0x44), Action::Sleep(25)]
    );
    let command: Command = "ml400".parse().unwrap();
    assert_eq!(
        command.trigger(&keyboard()),
        vec![down(0x41), Action::Sleep(400), up(0x41), Action::Sleep(25)]
    );
}

#[test]
fn trigger_uses_the_timing_constants() {
    assert_eq!(LATENCY, 5);
    assert_eq!(WAITTIME, 25);
    let jump = Command::new(Direction::Left, 7, true).trigger(&keyboard());
    assert_eq!(jump[1], Action::Sleep(LATENCY));
    assert_eq!(jump[5], Action::Sleep(LATENCY));
    let walk = Command::new(Direction::Left, 7, false).trigger(&keyboard());
    assert_eq!(walk[3], Action::Sleep(WAITTIME));
}

#[test]
fn trigger_releases_every_key_that_it_pressed() {
    let keyboard = keyboard();
    for direction in [Direction::Left, Direction::Right] {
        for jump in [false, true] {
            let mut held: Vec<u16> = Vec::new();
            for action in Command::new(direction, 30, jump).trigger(&keyboard) {
                match action {
                    Action::Send(input) if input.flags == 0 => held.push(input.vk),
                    Action::Send(input) => {
                        let at = held.iter().position(|vk| *vk == input.vk);
                        held.remove(at.expect("released a key that was not pressed"));
                    }
                    Action::Sleep(_) => {}
                }
            }
            assert!(held.is_empty());
        }
    }
}
