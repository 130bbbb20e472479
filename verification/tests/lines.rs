use owlengine::chess::{RawBoard, UciMove};
use owlengine::msg::{Command, Go, Info, Message, OptBody, Register};
use owlengine::parse::command;
use owlengine::parse::command::CommandParseError;
use owlengine::parse::go::GoParseError;
use owlengine::parse::info::InfoParseError;
use owlengine::parse::message;
use owlengine::parse::message::MessageParseError;
use owlengine::score::{Bound, BoundedRelScore, RelScore};
use owlengine::str::{OptComboVar, OptName, UciString};
use owlengine::types::{Permille, TriStatus};
use owlengine::warn::All;

fn cmd(line: &str) -> (Option<Command>, Vec<CommandParseError>) {
    let mut sink: All<CommandParseError> = All::new();
    let r = command::parse_line(line, &mut sink);
    (r, sink.log)
}

fn msg(line: &str) -> (Option<Message>, Vec<MessageParseError>) {
    let mut sink: All<MessageParseError> = All::new();
    let r = message::parse_line(line, &mut sink);
    (r, sink.log)
}

fn mv(s: &str) -> UciMove {
    UciMove::new(s).unwrap()
}

#[test]
fn position_round_trip() {
    let (r, warnings) = cmd("position startpos moves e2e4 e7e5");
    let c = r.unwrap();
    assert_eq!(
        c,
        Command::Position { startpos: RawBoard::initial(), moves: vec![mv("e2e4"), mv("e7e5")] }
    );
    assert_eq!(command::fmt_line(&c), "position startpos moves e2e4 e7e5");
    assert!(warnings.is_empty());
}

#[test]
fn go_clock_round_trip() {
    let (r, warnings) = cmd("go wtime 300000 btime 300000 winc 0 binc 0 movestogo 40");
    let c = r.unwrap();
    assert_eq!(
        c,
        Command::Go(Go {
            wtime: Some(300000),
            btime: Some(300000),
            winc: Some(0),
            binc: Some(0),
            movestogo: Some(40),
            ..Go::default()
        })
    );
    // the record keeps every field that was given, zeros included
    assert_eq!(
        command::fmt_line(&c),
        "go wtime 300000 btime 300000 winc 0 binc 0 movestogo 40"
    );
    assert!(warnings.is_empty());
}

#[test]
fn go_duplicate_infinite() {
    let (r, warnings) = cmd("go infinite infinite");
    let c = r.unwrap();
    assert_eq!(c, Command::Go(Go { infinite: Some(()), ..Go::default() }));
    assert_eq!(command::fmt_line(&c), "go infinite");
    assert_eq!(
        warnings,
        vec![CommandParseError::InvalidGo(GoParseError::Duplicate("infinite".to_owned()))]
    );
}

#[test]
fn info_round_trip() {
    let line = "info depth 12 score cp -37 lowerbound nodes 1500000 pv e2e4 e7e5";
    let (r, warnings) = msg(line);
    let m = r.unwrap();
    assert_eq!(
        m,
        Message::Info {
            info: vec![
                Info::Depth(12),
                Info::Score(BoundedRelScore { score: RelScore::Cp(-37), bound: Bound::Lower }),
                Info::Nodes(1500000),
                Info::Pv(vec![mv("e2e4"), mv("e7e5")]),
            ],
            string: None,
        }
    );
    assert_eq!(message::fmt_line(&m), line);
    assert!(warnings.is_empty());
}

#[test]
fn bestmove_null_ponder() {
    // `0000` is accepted as the explicit null move, so no warning is raised
    let (r, warnings) = msg("bestmove 0000 ponder e2e4");
    let m = r.unwrap();
    assert_eq!(m, Message::BestMove { bestmove: UciMove::null(), ponder: Some(mv("e2e4")) });
    assert_eq!(message::fmt_line(&m), "bestmove 0000 ponder e2e4");
    assert!(warnings.is_empty());
}

#[test]
fn option_spin_round_trip() {
    let line = "option name Hash type spin default 16 min 1 max 1024";
    let (r, warnings) = msg(line);
    let m = r.unwrap();
    assert_eq!(
        m,
        Message::Option {
            name: OptName::from_str("Hash").unwrap(),
            body: OptBody::Spin { default: 16, min: 1, max: 1024 },
        }
    );
    assert_eq!(message::fmt_line(&m), line);
    assert!(warnings.is_empty());
}

#[test]
fn setoption_multiword_round_trip() {
    let line = "setoption name Multi PV value 3";
    let (r, warnings) = cmd(line);
    let c = r.unwrap();
    assert_eq!(
        c,
        Command::SetOption {
            name: OptName::from_str("Multi PV").unwrap(),
            value: Some(UciString::from_str("3")),
        }
    );
    assert_eq!(command::fmt_line(&c), line);
    assert!(warnings.is_empty());
}

#[test]
fn hashfull_truncated() {
    let (r, warnings) = msg("info hashfull 1500");
    let m = r.unwrap();
    assert_eq!(
        m,
        Message::Info { info: vec![Info::HashFull(Permille::new(1000))], string: None }
    );
    assert_eq!(message::fmt_line(&m), "info hashfull 1000");
    assert_eq!(
        warnings,
        vec![MessageParseError::BadInfo {
            pos: 0,
            error: InfoParseError::PermilleTruncated { src_value: 1500 },
        }]
    );
}

#[test]
fn simple_commands() {
    assert_eq!(cmd("uci").0.unwrap(), Command::Uci);
    assert_eq!(cmd("isready").0.unwrap(), Command::IsReady);
    assert_eq!(cmd("ucinewgame").0.unwrap(), Command::UciNewGame);
    assert_eq!(cmd("stop").0.unwrap(), Command::Stop);
    assert_eq!(cmd("ponderhit").0.unwrap(), Command::PonderHit);
    assert_eq!(cmd("quit").0.unwrap(), Command::Quit);
    assert_eq!(cmd("debug on").0.unwrap(), Command::Debug(true));
    assert_eq!(cmd("debug off").0.unwrap(), Command::Debug(false));
    assert_eq!(cmd("").0, None);
    assert_eq!(cmd("   \t ").0, None);
}

#[test]
fn simple_messages() {
    assert_eq!(msg("uciok").0.unwrap(), Message::UciOk);
    assert_eq!(msg("readyok").0.unwrap(), Message::ReadyOk);
    assert_eq!(
        msg("copyprotection checking").0.unwrap(),
        Message::CopyProtection(TriStatus::Checking)
    );
    assert_eq!(msg("registration error").0.unwrap(), Message::Registration(TriStatus::Error));
    assert_eq!(msg("registration ok").0.unwrap(), Message::Registration(TriStatus::Okay));
}

#[test]
fn register_round_trip() {
    assert_eq!(cmd("register later").0.unwrap(), Command::Register(Register::Later));
    let line = "register name Jane Doe code 123-ABC-456";
    let (r, warnings) = cmd(line);
    let c = r.unwrap();
    assert_eq!(command::fmt_line(&c), line);
    assert!(warnings.is_empty());
}

#[test]
fn register_missing_code() {
    let (r, warnings) = cmd("register name Jane");
    assert!(r.is_some());
    assert_eq!(warnings, vec![CommandParseError::RegisterNoCode]);
}

#[test]
fn position_fen_round_trip() {
    let line = "position fen 8/8/8/8/8/8/8/8 w - - 0 1 moves";
    let (r, warnings) = cmd(line);
    let c = r.unwrap();
    assert_eq!(command::fmt_line(&c), line);
    assert!(warnings.is_empty());
}

#[test]
fn position_fen_is_canonicalized() {
    // the move counters are optional on input and written back canonically
    let (r, _) = cmd("position fen 8/8/8/8/8/8/8/8 w - - moves");
    let c = r.unwrap();
    assert_eq!(command::fmt_line(&c), "position fen 8/8/8/8/8/8/8/8 w - - 0 1 moves");
}

#[test]
fn position_errors() {
    let (r, warnings) = cmd("position startpos");
    assert!(r.is_some());
    assert_eq!(warnings, vec![CommandParseError::PositionNoMoves]);

    let (r, warnings) = cmd("position moves e2e4");
    assert!(r.is_some());
    assert_eq!(warnings, vec![CommandParseError::NoPosition]);

    let (r, warnings) = cmd("position fen not a fen at all moves");
    assert_eq!(r, None);
    assert_eq!(warnings, vec![CommandParseError::InvalidFen]);

    let (r, warnings) = cmd("position startpos moves e2e4 xyzzy");
    assert_eq!(r, None);
    assert_eq!(
        warnings,
        vec![CommandParseError::InvalidMove { pos: 1, token: "xyzzy".to_owned() }]
    );
}

#[test]
fn unknown_and_extra_tokens() {
    let (r, warnings) = cmd("bogus uci");
    assert_eq!(r.unwrap(), Command::Uci);
    assert_eq!(warnings, vec![CommandParseError::UnexpectedToken("bogus".to_owned())]);

    let (r, warnings) = cmd("uci trailing");
    assert_eq!(r.unwrap(), Command::Uci);
    assert_eq!(warnings, vec![CommandParseError::ExtraToken("trailing".to_owned())]);

    let (r, warnings) = cmd("debug maybe");
    assert_eq!(r, None);
    assert_eq!(warnings, vec![CommandParseError::UnexpectedToken("maybe".to_owned())]);
}

#[test]
fn setoption_errors() {
    let (r, warnings) = cmd("setoption Hash");
    assert_eq!(r, None);
    assert_eq!(warnings, vec![CommandParseError::SetOptionNoName]);

    let (r, _) = cmd("setoption name type value x");
    assert_eq!(r, None);
}

#[test]
fn setoption_empty_value() {
    // a `value` keyword with nothing after it yields an empty string value
    let (r, _) = cmd("setoption name Ponder value");
    assert_eq!(
        r.unwrap(),
        Command::SetOption {
            name: OptName::from_str("Ponder").unwrap(),
            value: Some(UciString::new()),
        }
    );
}

#[test]
fn go_errors() {
    let (r, warnings) = cmd("go wtime soon");
    assert_eq!(r.unwrap(), Command::Go(Go::default()));
    assert_eq!(
        warnings,
        vec![CommandParseError::InvalidGo(GoParseError::InvalidIntSub {
            name: "wtime".to_owned(),
            token: "soon".to_owned(),
        })]
    );

    let (r, warnings) = cmd("go movestogo 0");
    assert_eq!(r.unwrap(), Command::Go(Go::default()));
    assert_eq!(
        warnings,
        vec![CommandParseError::InvalidGo(GoParseError::InvalidIntSub {
            name: "movestogo".to_owned(),
            token: "0".to_owned(),
        })]
    );

    let (r, warnings) = cmd("go jetpack depth 3");
    assert_eq!(r.unwrap(), Command::Go(Go { depth: Some(3), ..Go::default() }));
    assert_eq!(
        warnings,
        vec![CommandParseError::InvalidGo(GoParseError::UnexpectedToken("jetpack".to_owned()))]
    );
}

#[test]
fn go_searchmoves_list() {
    let (r, warnings) = cmd("go searchmoves e2e4 d2d4 ponder");
    let c = r.unwrap();
    assert_eq!(
        c,
        Command::Go(Go {
            searchmoves: Some(vec![mv("e2e4"), mv("d2d4")]),
            ponder: Some(()),
            ..Go::default()
        })
    );
    assert_eq!(command::fmt_line(&c), "go searchmoves e2e4 d2d4 ponder");
    assert!(warnings.is_empty());
}

#[test]
fn score_mate_round_trip() {
    let line = "info score mate -3 upperbound";
    let (r, warnings) = msg(line);
    let m = r.unwrap();
    assert_eq!(
        m,
        Message::Info {
            info: vec![Info::Score(BoundedRelScore {
                score: RelScore::Mate { moves: 3, win: false },
                bound: Bound::Upper,
            })],
            string: None,
        }
    );
    assert_eq!(message::fmt_line(&m), line);
    assert!(warnings.is_empty());

    let (r, warnings) = msg("info score mate 99999999999");
    assert_eq!(r.unwrap(), Message::Info { info: vec![], string: None });
    assert_eq!(
        warnings,
        vec![MessageParseError::BadInfo {
            pos: 0,
            error: InfoParseError::BadScore(
                owlengine::parse::score::RelScoreParseError::MateTooLarge(99999999999),
            ),
        }]
    );
}

#[test]
fn info_string_takes_rest() {
    let line = "info string the answer is depth 42";
    let (r, warnings) = msg(line);
    let m = r.unwrap();
    assert_eq!(
        m,
        Message::Info {
            info: vec![],
            string: Some(UciString::from_str("the answer is depth 42")),
        }
    );
    assert_eq!(message::fmt_line(&m), line);
    assert!(warnings.is_empty());
}

#[test]
fn option_bodies_round_trip() {
    for line in [
        "option name Ponder type check default false",
        "option name Clear Tables type button",
        "option name Book File type string default book.bin",
        "option name Style type combo default Normal var Solid var Normal var Risky",
    ] {
        let (r, warnings) = msg(line);
        let m = r.unwrap();
        assert_eq!(message::fmt_line(&m), line, "round trip of {line}");
        assert!(warnings.is_empty(), "warnings for {line}");
    }
    let (r, _) = msg("option name Style type combo default A var B");
    assert_eq!(
        r.unwrap(),
        Message::Option {
            name: OptName::from_str("Style").unwrap(),
            body: OptBody::Combo {
                default: OptComboVar::from_str("A").unwrap(),
                vars: vec![OptComboVar::from_str("B").unwrap()],
            },
        }
    );
}

#[test]
fn option_body_errors() {
    let (r, warnings) = msg("option name X type check default perhaps");
    assert_eq!(r, None);
    assert_eq!(
        warnings,
        vec![MessageParseError::OptionBadBody(
            owlengine::parse::optbody::OptBodyParseError::ExpectedBool,
        )]
    );

    let (r, warnings) = msg("option name X type teapot");
    assert_eq!(r, None);
    assert_eq!(
        warnings,
        vec![MessageParseError::OptionBadBody(
            owlengine::parse::optbody::OptBodyParseError::UnknownType("teapot".to_owned()),
        )]
    );

    let (r, warnings) = msg("option name X");
    assert_eq!(r, None);
    assert!(warnings.contains(&MessageParseError::OptionNoType));

    let (r, warnings) = msg("option X type button");
    assert_eq!(r, None);
    assert_eq!(warnings[0], MessageParseError::OptionNoName);
}

#[test]
fn id_lines() {
    let (r, _) = msg("id name Owl Engine 1.0");
    assert_eq!(message::fmt_line(&r.unwrap()), "id name Owl Engine 1.0");
    let (r, _) = msg("id author A. Nonymous");
    assert_eq!(message::fmt_line(&r.unwrap()), "id author A. Nonymous");
}

#[test]
fn bestmove_non_ascii_token() {
    // a multi-byte token reaches the move reader and is rejected, not parsed
    let (r, warnings) = msg("bestmove a\u{20ac}");
    assert_eq!(
        r.unwrap(),
        Message::BestMove { bestmove: UciMove::null(), ponder: None }
    );
    assert_eq!(
        warnings,
        vec![MessageParseError::InvalidBestmove("a\u{20ac}".to_owned())]
    );
}

#[test]
fn bestmove_errors() {
    let (r, warnings) = msg("bestmove e9e9");
    assert_eq!(
        r.unwrap(),
        Message::BestMove { bestmove: UciMove::null(), ponder: None }
    );
    assert_eq!(warnings, vec![MessageParseError::InvalidBestmove("e9e9".to_owned())]);

    let (r, warnings) = msg("bestmove e2e4 ponder zz9z");
    assert_eq!(r.unwrap(), Message::BestMove { bestmove: mv("e2e4"), ponder: None });
    assert_eq!(warnings, vec![MessageParseError::InvalidPonder("zz9z".to_owned())]);
}
