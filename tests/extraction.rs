use pgn_extract::annotation::extract_annotation;
use pgn_extract::extractor::{AnnotationError, Event, PgnExtractor, Row};
use pgn_extract::fields::{header_key, parse_count, parse_time_control, same_text, HeaderError, HeaderKey};
use pgn_extract::records::{GameComments, GameHeaders, GamePositions};
use pgn_extract::replay::Replayer;
use shakmaty::san::San;

const START: &str = "rnbqkbnr/pppppppp/8/8/8/8/PPPPPPPP/RNBQKBNR w KQkq - 0 1";

fn san(text: &str) -> San {
    San::from_ascii(text.as_bytes()).unwrap()
}

fn header(key: &str, value: &str) -> Event {
    Event::Header(key.to_string(), value.to_string())
}

fn mv(text: &str) -> Event {
    Event::Move(san(text))
}

fn positions(rows: &[Row]) -> Vec<(String, usize, String)> {
    rows.iter()
        .filter_map(|r| match r {
            Row::Position(p) => Some((p.game_id.clone(), p.half_move, p.fen.clone())),
            _ => None,
        })
        .collect()
}

fn annotations(rows: &[Row]) -> Vec<(String, usize, String, String)> {
    rows.iter()
        .filter_map(|r| match r {
            Row::Annotation(c) => Some((c.game_id.clone(), c.half_move, c.eval.clone(), c.clock.clone())),
            _ => None,
        })
        .collect()
}

fn headers(rows: &[Row]) -> Vec<GameHeaders> {
    rows.iter()
        .filter_map(|r| match r {
            Row::Header(h) => Some(h.clone()),
            _ => None,
        })
        .collect()
}

#[test]
fn time_control_splits_into_two_counts() {
    assert_eq!(parse_time_control("600+5"), Ok((600, 5)));
    assert_eq!(parse_time_control("300+3"), Ok((300, 3)));
    assert_eq!(parse_time_control("0+0"), Ok((0, 0)));
}

#[test]
fn time_control_without_separator_is_malformed() {
    assert_eq!(parse_time_control("600"), Err(HeaderError::MalformedTimeControl));
    assert_eq!(parse_time_control("-"), Err(HeaderError::MalformedTimeControl));
    assert_eq!(parse_time_control(""), Err(HeaderError::MalformedTimeControl));
}

#[test]
fn time_control_with_bad_parts_is_malformed() {
    assert_eq!(parse_time_control("600+5+1"), Err(HeaderError::MalformedTimeControl));
    assert_eq!(parse_time_control("+5"), Err(HeaderError::MalformedTimeControl));
    assert_eq!(parse_time_control("600+"), Err(HeaderError::MalformedTimeControl));
    assert_eq!(parse_time_control("6a0+5"), Err(HeaderError::MalformedTimeControl));
    assert_eq!(parse_time_control("600+ 5"), Err(HeaderError::MalformedTimeControl));
}

#[test]
fn time_control_counts_at_the_largest_size() {
    assert_eq!(parse_time_control("18446744073709551615+0"), Ok((usize::MAX, 0)));
    assert_eq!(parse_time_control("18446744073709551616+0"), Err(HeaderError::MalformedTimeControl));
    assert_eq!(parse_time_control("1+99999999999999999999"), Err(HeaderError::MalformedTimeControl));
}

#[test]
fn count_reads_a_range_of_digits() {
    assert_eq!(parse_count("ab123cd", 2, 5), Some(123));
    assert_eq!(parse_count("ab123cd", 2, 2), None);
    assert_eq!(parse_count("ab123cd", 1, 5), None);
    assert_eq!(parse_count("007", 0, 3), Some(7));
}

#[test]
fn header_keys_are_classified() {
    assert_eq!(header_key("Event"), HeaderKey::Event);
    assert_eq!(header_key("Site"), HeaderKey::Site);
    assert_eq!(header_key("Result"), HeaderKey::GameResult);
    assert_eq!(header_key("UTCDate"), HeaderKey::UtcDate);
    assert_eq!(header_key("ECO"), HeaderKey::Eco);
    assert_eq!(header_key("TimeControl"), HeaderKey::TimeControl);
    assert_eq!(header_key("Termination"), HeaderKey::Termination);
    assert_eq!(header_key("event"), HeaderKey::Unknown);
    assert_eq!(header_key("Annotator"), HeaderKey::Unknown);
    assert_eq!(header_key(""), HeaderKey::Unknown);
}

#[test]
fn same_text_compares_characters() {
    assert!(same_text("abc", "abc"));
    assert!(!same_text("abc", "abd"));
    assert!(!same_text("abc", "ab"));
    assert!(same_text("", ""));
}

#[test]
fn records_start_blank() {
    let h = GameHeaders::new();
    assert_eq!(h.event, "");
    assert_eq!(h.game_link, "");
    assert_eq!(h.time_control, "");
    assert_eq!(h.initial_time, 0);
    assert_eq!(h.increment, 0);
    let c = GameComments::new();
    assert_eq!((c.game_id.as_str(), c.half_move, c.clock.as_str(), c.eval.as_str()), ("", 0, "", ""));
    let p = GamePositions::new();
    assert_eq!((p.game_id.as_str(), p.half_move, p.fen.as_str()), ("", 0, ""));
}

#[test]
fn annotation_reads_eval_and_clock() {
    let a = extract_annotation("[%eval 0.3] [%clk 0:05:00]");
    assert_eq!(a.eval.as_deref(), Some("0.3"));
    assert_eq!(a.clock.as_deref(), Some("0:05:00"));
}

#[test]
fn annotation_tolerates_absent_parts() {
    let a = extract_annotation("[%clk 0:01:00]");
    assert_eq!(a.eval, None);
    assert_eq!(a.clock.as_deref(), Some("0:01:00"));
    let b = extract_annotation("a plain remark");
    assert_eq!(b.eval, None);
    assert_eq!(b.clock, None);
}

#[test]
fn annotation_takes_the_first_nonempty_value() {
    let a = extract_annotation("[%eval ] [%eval #-3] [%eval 1.5]");
    assert_eq!(a.eval.as_deref(), Some("#-3"));
    let b = extract_annotation("[%clk 1:00:00");
    assert_eq!(b.clock.as_deref(), Some("1:00:00"));
}

#[test]
fn replayer_plays_and_refuses() {
    let mut r = Replayer::new();
    assert_eq!(r.serialize(), START);
    assert!(!r.apply(&san("Ke5")));
    assert_eq!(r.serialize(), START);
    assert!(r.apply(&san("e4")));
    assert_eq!(r.serialize(), "rnbqkbnr/pppppppp/8/8/4P3/8/PPPP1PPP/RNBQKBNR b KQkq - 0 1");
    r.reset();
    assert_eq!(r.serialize(), START);
}

#[test]
fn scenario_two_moves_no_comments() {
    let mut x = PgnExtractor::new();
    let events = vec![
        Event::BeginGame,
        header("Event", "Rated Blitz"),
        header("White", "alice"),
        header("Black", "bob"),
        header("Result", "1-0"),
        header("TimeControl", "300+3"),
        Event::EndHeaders,
        mv("e4"),
        mv("e5"),
        Event::EndGame,
    ];
    let rows = x.run(&events);
    let hs = headers(&rows);
    assert_eq!(hs.len(), 1);
    assert_eq!(hs[0].event, "Rated Blitz");
    assert_eq!(hs[0].white_player, "alice");
    assert_eq!(hs[0].black_player, "bob");
    assert_eq!(hs[0].result, "1-0");
    assert_eq!(hs[0].time_control, "300+3");
    assert_eq!(hs[0].initial_time, 300);
    assert_eq!(hs[0].increment, 3);
    let ps = positions(&rows);
    assert_eq!(ps.len(), 2);
    assert_eq!(ps[0].1, 1);
    assert_eq!(ps[0].2, "rnbqkbnr/pppppppp/8/8/4P3/8/PPPP1PPP/RNBQKBNR b KQkq - 0 1");
    assert_eq!(ps[1].1, 2);
    assert_eq!(ps[1].2, "rnbqkbnr/pppp1ppp/8/4p3/4P3/8/PPPP1PPP/RNBQKBNR w KQkq - 0 2");
    assert!(annotations(&rows).is_empty());
    assert_eq!(x.games, 1);
    assert_eq!(x.moves, 2);
}

#[test]
fn scenario_comment_after_fourth_ply() {
    let mut x = PgnExtractor::new();
    let events = vec![
        Event::BeginGame,
        header("Site", "https://lichess.org/abc"),
        Event::EndHeaders,
        mv("e4"),
        mv("e5"),
        mv("Nf3"),
        mv("Nc6"),
        Event::Comment(" [%eval 0.3] [%clk 0:05:00] ".to_string()),
        Event::EndGame,
    ];
    let rows = x.run(&events);
    let cs = annotations(&rows);
    assert_eq!(cs.len(), 1);
    assert_eq!(cs[0], ("https://lichess.org/abc".to_string(), 4, "0.3".to_string(), "0:05:00".to_string()));
    let ps = positions(&rows);
    assert_eq!(ps.len(), 4);
    assert!(ps.iter().all(|p| p.0 == "https://lichess.org/abc"));
}

#[test]
fn comment_without_clock_or_eval_gives_no_row() {
    let mut x = PgnExtractor::new();
    x.begin_game();
    assert_eq!(x.comment("[%eval 0.3]").unwrap_err(), AnnotationError::MissingClock);
    assert_eq!(x.comment("[%clk 0:05:00]").unwrap_err(), AnnotationError::MissingEval);
    assert_eq!(x.comment("good move").unwrap_err(), AnnotationError::MissingEval);
    assert_eq!(x.game_comments.eval, "");
    assert_eq!(x.game_comments.clock, "");
    let c = x.comment("[%clk 0:04:59] [%eval -1.2]").unwrap();
    assert_eq!((c.half_move, c.eval.as_str(), c.clock.as_str()), (0, "-1.2", "0:04:59"));
}

#[test]
fn malformed_time_control_does_not_stop_the_game() {
    let mut x = PgnExtractor::new();
    x.begin_game();
    assert_eq!(x.header("TimeControl", "600".to_string()), Err(HeaderError::MalformedTimeControl));
    assert_eq!(x.header("White", "alice".to_string()), Ok(()));
    assert_eq!(x.header("Annotator", "carol".to_string()), Ok(()));
    let h = x.end_headers();
    assert_eq!(h.time_control, "600");
    assert_eq!(h.initial_time, 0);
    assert_eq!(h.increment, 0);
    assert_eq!(h.white_player, "alice");
    let p = x.san(&san("e4"));
    assert_eq!(p.half_move, 1);
}

#[test]
fn end_of_headers_resets_the_record_and_sets_game_id() {
    let mut x = PgnExtractor::new();
    x.begin_game();
    x.header("Site", "link-1".to_string()).unwrap();
    x.header("WhiteElo", "1500?".to_string()).unwrap();
    let h = x.end_headers();
    assert_eq!(h.game_link, "link-1");
    assert_eq!(h.white_elo, "1500?");
    assert_eq!(x.game_headers.game_link, "");
    assert_eq!(x.game_headers.white_elo, "");
    assert_eq!(x.game_positions.game_id, "link-1");
    assert_eq!(x.game_comments.game_id, "link-1");
}

#[test]
fn unresolved_move_still_advances_the_ply() {
    let mut x = PgnExtractor::new();
    x.begin_game();
    assert!(!x.last_move_resolved);
    let p1 = x.san(&san("Ke5"));
    assert!(!x.last_move_resolved);
    assert_eq!(p1.half_move, 1);
    assert_eq!(p1.fen, START);
    let p2 = x.san(&san("d4"));
    assert!(x.last_move_resolved);
    assert_eq!(p2.half_move, 2);
    assert_eq!(p2.fen, "rnbqkbnr/pppppppp/8/8/3P4/8/PPP1PPPP/RNBQKBNR b KQkq - 0 1");
    assert_eq!(x.moves, 2);
}

#[test]
fn variation_is_skipped_and_leaves_no_rows() {
    let mut x = PgnExtractor::new();
    assert!(x.begin_variation());
    let events = vec![
        Event::BeginGame,
        Event::EndHeaders,
        mv("e4"),
        Event::BeginVariation,
        mv("e5"),
        Event::EndGame,
    ];
    let rows = x.run(&events);
    let ps = positions(&rows);
    assert_eq!(ps.len(), 2);
    assert_eq!(ps[1].1, 2);
    assert_eq!(rows.len(), 3);
}

#[test]
fn end_game_resets_position_and_returns_moves() {
    let mut x = PgnExtractor::new();
    x.begin_game();
    x.san(&san("e4"));
    assert_eq!(x.end_game(), 1);
    x.begin_game();
    assert_eq!(x.half_moves, 0);
    let p = x.san(&san("e4"));
    assert_eq!(p.half_move, 1);
    assert_eq!(p.fen, "rnbqkbnr/pppppppp/8/8/4P3/8/PPPP1PPP/RNBQKBNR b KQkq - 0 1");
    assert_eq!(x.end_game(), 2);
    assert_eq!(x.games, 2);
}

#[test]
fn checkmate_line_ends_in_a_mated_position() {
    let mut x = PgnExtractor::new();
    let events = vec![
        Event::BeginGame,
        header("Result", "0-1"),
        Event::EndHeaders,
        mv("f3"),
        mv("e5"),
        mv("g4"),
        mv("Qh4"),
    ];
    let rows = x.run(&events);
    assert_eq!(headers(&rows)[0].result, "0-1");
    let ps = positions(&rows);
    assert_eq!(ps[3].2, "rnb1kbnr/pppp1ppp/8/4p3/6Pq/5P2/PPPPP2P/RNBQKBNR w KQkq - 1 3");
    let mut r = Replayer::new();
    for m in ["f3", "e5", "g4", "Qh4"] {
        assert!(r.apply(&san(m)));
    }
    assert!(!r.apply(&san("Kf2")));
}

#[test]
fn replaying_the_same_input_repeats_the_rows() {
    let events = || {
        vec![
            Event::BeginGame,
            header("Site", "g1"),
            header("TimeControl", "60+0"),
            Event::EndHeaders,
            mv("d4"),
            Event::Comment("[%eval 0.1] [%clk 0:01:00]".to_string()),
            mv("d5"),
            Event::EndGame,
        ]
    };
    let mut x = PgnExtractor::new();
    let first = x.run(&events());
    let second = x.run(&events());
    assert_eq!(positions(&first), positions(&second));
    assert_eq!(annotations(&first), annotations(&second));
    let (a, b) = (headers(&first), headers(&second));
    assert_eq!(a.len(), 1);
    assert_eq!(b.len(), 1);
    assert_eq!((a[0].game_link.clone(), a[0].initial_time), (b[0].game_link.clone(), b[0].initial_time));
    assert_eq!(x.games, 2);
    assert_eq!(x.moves, 4);
}

#[test]
fn two_extractors_on_the_same_input_agree() {
    let events = || {
        vec![
            Event::BeginGame,
            header("Site", "g2"),
            Event::EndHeaders,
            mv("e4"),
            mv("c5"),
            mv("Nf3"),
            Event::Comment("[%eval 0.2] [%clk 0:02:58]".to_string()),
            Event::EndGame,
        ]
    };
    let mut a = PgnExtractor::new();
    let mut b = PgnExtractor::new();
    let ra = a.run(&events());
    let rb = b.run(&events());
    assert_eq!(positions(&ra), positions(&rb));
    assert_eq!(annotations(&ra), annotations(&rb));
    assert_eq!(headers(&ra).len(), headers(&rb).len());
    assert_eq!(a.pos.serialize(), START);
    assert_eq!(positions(&ra)[2].2, "rnbqkbnr/pp1ppppp/8/2p5/4P3/5N2/PPPP1PPP/RNBQKB1R b KQkq - 1 2");
}
