//! Mapping of PGN header keys to slots of the game record, and decoding of
//! the time control.
use crate::records::{GameHeaders, HeaderFields};
use vstd::prelude::*;

verus! {

pub open spec fn is_digit(c: char) -> bool {
    '0' <= c && c <= '9'
}

/// The number that a string of decimal digits writes.
pub open spec fn digits_value(s: Seq<char>) -> nat
    decreases s.len(),
{
    if s.len() == 0 {
        0
    } else {
        digits_value(s.drop_last()) * 10 + ((s.last() as u32) - ('0' as u32)) as nat
    }
}

/// What `usize`'s `from_str` accepts from a string without a sign: one digit or
/// more, whose value fits.
pub open spec fn count_text(s: Seq<char>) -> Option<nat> {
    if s.len() > 0 && (forall|i: int| 0 <= i < s.len() ==> is_digit(#[trigger] s[i]))
        && digits_value(s) <= usize::MAX {
        Some(digits_value(s))
    } else {
        None
    }
}

proof fn lemma_digits_grow(s: Seq<char>, i: int, j: int)
    requires
        0 <= i <= j <= s.len(),
        forall|k: int| 0 <= k < s.len() ==> is_digit(#[trigger] s[k]),
    ensures
        digits_value(s.take(i)) <= digits_value(s.take(j)),
    decreases j - i,
{
    if i < j {
        lemma_digits_grow(s, i, j - 1);
        assert(s.take(j).drop_last() =~= s.take(j - 1));
    }
}

/// Reads the digits of `s` between `from` and `to` as a count.
pub fn parse_count(s: &str, from: usize, to: usize) -> (r: Option<usize>)
    requires
        from <= to <= s@.len(),
    ensures
        match r {
            Some(v) => count_text(s@.subrange(from as int, to as int)) == Some(v as nat),
            None => count_text(s@.subrange(from as int, to as int)) is None,
        },
{
    let ghost t = s@.subrange(from as int, to as int);
    if from == to {
        return None;
    }
    let mut value: usize = 0;
    let mut i: usize = from;
    while i < to
        invariant
            from <= i <= to <= s@.len(),
            t == s@.subrange(from as int, to as int),
            forall|k: int| 0 <= k < i - from ==> is_digit(#[trigger] t[k]),
            value as nat == digits_value(t.take(i - from)),
        decreases to - i,
    {
        let c = s.get_char(i);
        if !('0' <= c && c <= '9') {
            assert(!is_digit(t[i - from]));
            return None;
        }
        let d: usize = ((c as u32) - ('0' as u32)) as usize;
        assert(t.take(i - from + 1).drop_last() =~= t.take(i - from));
        if value > (usize::MAX - d) / 10 {
            assert(digits_value(t.take(i - from + 1)) > usize::MAX) by (nonlinear_arith)
                requires
                    digits_value(t.take(i - from + 1)) == value as nat * 10 + d as nat,
                    value > (usize::MAX - d) / 10,
                    d <= 9,
            ;
            proof {
                if forall|k: int| 0 <= k < t.len() ==> is_digit(#[trigger] t[k]) {
                    lemma_digits_grow(t, i - from + 1, t.len() as int);
                    assert(t.take(t.len() as int) =~= t);
                }
            }
            return None;
        }
        assert(value * 10 + d <= usize::MAX) by (nonlinear_arith)
            requires
                value <= (usize::MAX - d) / 10,
                d <= 9,
        ;
        value = value * 10 + d;
        i = i + 1;
    }
    assert(t.take(i - from) =~= t);
    Some(value)
}

/// How many times `c` occurs in `s`.
pub open spec fn occurrences(s: Seq<char>, c: char) -> nat
    decreases s.len(),
{
    if s.len() == 0 {
        0
    } else {
        occurrences(s.drop_last(), c) + if s.last() == c { 1nat } else { 0nat }
    }
}

/// Index of the first `c` in `s`, or the length of `s` where there is none.
pub open spec fn first_index(s: Seq<char>, c: char) -> int
    decreases s.len(),
{
    if s.len() == 0 {
        0
    } else if occurrences(s.drop_last(), c) > 0 {
        first_index(s.drop_last(), c)
    } else if s.last() == c {
        s.len() - 1
    } else {
        s.len() as int
    }
}

/// A time control `initial+increment`: split at `+` into exactly two parts,
/// each a count.
pub open spec fn time_control_of(s: Seq<char>) -> Option<(nat, nat)> {
    if occurrences(s, '+') == 1 {
        let p = first_index(s, '+');
        match (count_text(s.take(p)), count_text(s.skip(p + 1))) {
            (Some(a), Some(b)) => Some((a, b)),
            _ => None,
        }
    } else {
        None
    }
}

#[derive(Debug, Clone, Copy, PartialEq, Eq, Structural)]
pub enum HeaderError {
    /// The time control is not two counts joined by `+`.
    MalformedTimeControl,
}

proof fn lemma_first_index_bounds(s: Seq<char>, c: char)
    ensures
        0 <= first_index(s, c) <= s.len(),
        occurrences(s, c) > 0 ==> first_index(s, c) < s.len() && s[first_index(s, c)] == c,
    decreases s.len(),
{
    if s.len() > 0 {
        lemma_first_index_bounds(s.drop_last(), c);
    }
}

/// Splits `initial+increment` into its two counts.
pub fn parse_time_control(value: &str) -> (r: Result<(usize, usize), HeaderError>)
    ensures
        match r {
            Ok((a, b)) => time_control_of(value@) == Some((a as nat, b as nat)),
            Err(_) => time_control_of(value@) is None,
        },
{
    let n = value.unicode_len();
    let mut count: usize = 0;
    let mut first: usize = 0;
    let mut i: usize = 0;
    while i < n
        invariant
            i <= n == value@.len(),
            count as nat == occurrences(value@.take(i as int), '+'),
            first as int == first_index(value@.take(i as int), '+'),
            count <= i,
        decreases n - i,
    {
        let c = value.get_char(i);
        assert(value@.take(i + 1).drop_last() =~= value@.take(i as int));
        if c == '+' {
            if count == 0 {
                first = i;
            }
            count = count + 1;
        } else if count == 0 {
            first = i + 1;
        }
        i = i + 1;
    }
    assert(value@.take(n as int) =~= value@);
    if count != 1 {
        return Err(HeaderError::MalformedTimeControl);
    }
    proof {
        lemma_first_index_bounds(value@, '+');
        assert(value@.take(first as int) =~= value@.subrange(0, first as int));
        assert(value@.skip(first + 1) =~= value@.subrange(first + 1, n as int));
    }
    let a = parse_count(value, 0, first);
    let b = parse_count(value, first + 1, n);
    match (a, b) {
        (Some(a), Some(b)) => Ok((a, b)),
        _ => Err(HeaderError::MalformedTimeControl),
    }
}

/// Whether two strings hold the same characters.
pub fn same_text(a: &str, b: &str) -> (r: bool)
    ensures
        r == (a@ == b@),
{
    let n = a.unicode_len();
    if n != b.unicode_len() {
        return false;
    }
    let mut i: usize = 0;
    while i < n
        invariant
            i <= n == a@.len() == b@.len(),
            forall|k: int| 0 <= k < i ==> a@[k] == b@[k],
        decreases n - i,
    {
        if a.get_char(i) != b.get_char(i) {
            return false;
        }
        i = i + 1;
    }
    assert(a@ =~= b@);
    true
}

/// The header keys that have a slot in the game record.
#[derive(Debug, Clone, Copy, PartialEq, Eq, Structural)]
pub enum HeaderKey {
    Event,
    Site,
    White,
    Black,
    GameResult,
    UtcDate,
    UtcTime,
    WhiteElo,
    BlackElo,
    WhiteRatingDiff,
    BlackRatingDiff,
    Eco,
    Opening,
    TimeControl,
    Termination,
    /// Any other key: its value is discarded.
    Unknown,
}

pub open spec fn key_of(k: Seq<char>) -> HeaderKey {
    if k == "Event"@ {
        HeaderKey::Event
    } else if k == "Site"@ {
        HeaderKey::Site
    } else if k == "White"@ {
        HeaderKey::White
    } else if k == "Black"@ {
        HeaderKey::Black
    } else if k == "Result"@ {
        HeaderKey::GameResult
    } else if k == "UTCDate"@ {
        HeaderKey::UtcDate
    } else if k == "UTCTime"@ {
        HeaderKey::UtcTime
    } else if k == "WhiteElo"@ {
        HeaderKey::WhiteElo
    } else if k == "BlackElo"@ {
        HeaderKey::BlackElo
    } else if k == "WhiteRatingDiff"@ {
        HeaderKey::WhiteRatingDiff
    } else if k == "BlackRatingDiff"@ {
        HeaderKey::BlackRatingDiff
    } else if k == "ECO"@ {
        HeaderKey::Eco
    } else if k == "Opening"@ {
        HeaderKey::Opening
    } else if k == "TimeControl"@ {
        HeaderKey::TimeControl
    } else if k == "Termination"@ {
        HeaderKey::Termination
    } else {
        HeaderKey::Unknown
    }
}

/// Classifies a header key.
pub fn header_key(key: &str) -> (r: HeaderKey)
    ensures
        r == key_of(key@),
{
    if same_text(key, "Event") {
        HeaderKey::Event
    } else if same_text(key, "Site") {
        HeaderKey::Site
    } else if same_text(key, "White") {
        HeaderKey::White
    } else if same_text(key, "Black") {
        HeaderKey::Black
    } else if same_text(key, "Result") {
        HeaderKey::GameResult
    } else if same_text(key, "UTCDate") {
        HeaderKey::UtcDate
    } else if same_text(key, "UTCTime") {
        HeaderKey::UtcTime
    } else if same_text(key, "WhiteElo") {
        HeaderKey::WhiteElo
    } else if same_text(key, "BlackElo") {
        HeaderKey::BlackElo
    } else if same_text(key, "WhiteRatingDiff") {
        HeaderKey::WhiteRatingDiff
    } else if same_text(key, "BlackRatingDiff") {
        HeaderKey::BlackRatingDiff
    } else if same_text(key, "ECO") {
        HeaderKey::Eco
    } else if same_text(key, "Opening") {
        HeaderKey::Opening
    } else if same_text(key, "TimeControl") {
        HeaderKey::TimeControl
    } else if same_text(key, "Termination") {
        HeaderKey::Termination
    } else {
        HeaderKey::Unknown
    }
}

/// The game record after the header `key` with `value` has been read.
pub open spec fn header_applied(h: GameHeaders, key: Seq<char>, value: String) -> GameHeaders {
    match key_of(key) {
        HeaderKey::Event => GameHeaders { event: value, ..h },
        HeaderKey::Site => GameHeaders { game_link: value, ..h },
        HeaderKey::White => GameHeaders { white_player: value, ..h },
        HeaderKey::Black => GameHeaders { black_player: value, ..h },
        HeaderKey::GameResult => GameHeaders { result: value, ..h },
        HeaderKey::UtcDate => GameHeaders { date_played: value, ..h },
        HeaderKey::UtcTime => GameHeaders { time_played: value, ..h },
        HeaderKey::WhiteElo => GameHeaders { white_elo: value, ..h },
        HeaderKey::BlackElo => GameHeaders { black_elo: value, ..h },
        HeaderKey::WhiteRatingDiff => GameHeaders { white_rating_diff: value, ..h },
        HeaderKey::BlackRatingDiff => GameHeaders { black_rating_diff: value, ..h },
        HeaderKey::Eco => GameHeaders { eco: value, ..h },
        HeaderKey::Opening => GameHeaders { opening_name: value, ..h },
        HeaderKey::Termination => GameHeaders { termination: value, ..h },
        HeaderKey::TimeControl => match time_control_of(value@) {
            Some((a, b)) => GameHeaders {
                time_control: value,
                initial_time: a as usize,
                increment: b as usize,
                ..h
            },
            None => GameHeaders { time_control: value, initial_time: 0, increment: 0, ..h },
        },
        HeaderKey::Unknown => h,
    }
}

/// Stores `value` in the slot of `key`. A time control that does not parse is
/// kept as text, with both counts zero, and reported.
pub fn apply_header(h: &mut GameHeaders, key: &str, value: String) -> (r: Result<(), HeaderError>)
    ensures
        *final(h) == header_applied(*old(h), key@, value),
        r is Err <==> (key_of(key@) == HeaderKey::TimeControl && time_control_of(value@) is None),
{
    match header_key(key) {
        HeaderKey::Event => {
            h.event = value;
            Ok(())
        },
        HeaderKey::Site => {
            h.game_link = value;
            Ok(())
        },
        HeaderKey::White => {
            h.white_player = value;
            Ok(())
        },
        HeaderKey::Black => {
            h.black_player = value;
            Ok(())
        },
        HeaderKey::GameResult => {
            h.result = value;
            Ok(())
        },
        HeaderKey::UtcDate => {
            h.date_played = value;
            Ok(())
        },
        HeaderKey::UtcTime => {
            h.time_played = value;
            Ok(())
        },
        HeaderKey::WhiteElo => {
            h.white_elo = value;
            Ok(())
        },
        HeaderKey::BlackElo => {
            h.black_elo = value;
            Ok(())
        },
        HeaderKey::WhiteRatingDiff => {
            h.white_rating_diff = value;
            Ok(())
        },
        HeaderKey::BlackRatingDiff => {
            h.black_rating_diff = value;
            Ok(())
        },
        HeaderKey::Eco => {
            h.eco = value;
            Ok(())
        },
        HeaderKey::Opening => {
            h.opening_name = value;
            Ok(())
        },
        HeaderKey::Termination => {
            h.termination = value;
            Ok(())
        },
        HeaderKey::TimeControl => {
            let parsed = parse_time_control(value.as_str());
            h.time_control = value;
            match parsed {
                Ok((a, b)) => {
                    h.initial_time = a;
                    h.increment = b;
                    Ok(())
                },
                Err(e) => {
                    h.initial_time = 0;
                    h.increment = 0;
                    Err(e)
                },
            }
        },
        HeaderKey::Unknown => Ok(()),
    }
}

/// The contents of a game record after the header `key` with `value`.
pub open spec fn fields_applied(f: HeaderFields, key: Seq<char>, value: Seq<char>) -> HeaderFields {
    match key_of(key) {
        HeaderKey::Event => HeaderFields { texts: f.texts.update(0, value), ..f },
        HeaderKey::Site => HeaderFields { texts: f.texts.update(1, value), ..f },
        HeaderKey::White => HeaderFields { texts: f.texts.update(2, value), ..f },
        HeaderKey::Black => HeaderFields { texts: f.texts.update(3, value), ..f },
        HeaderKey::GameResult => HeaderFields { texts: f.texts.update(4, value), ..f },
        HeaderKey::UtcDate => HeaderFields { texts: f.texts.update(5, value), ..f },
        HeaderKey::UtcTime => HeaderFields { texts: f.texts.update(6, value), ..f },
        HeaderKey::WhiteElo => HeaderFields { texts: f.texts.update(7, value), ..f },
        HeaderKey::BlackElo => HeaderFields { texts: f.texts.update(8, value), ..f },
        HeaderKey::WhiteRatingDiff => HeaderFields { texts: f.texts.update(9, value), ..f },
        HeaderKey::BlackRatingDiff => HeaderFields { texts: f.texts.update(10, value), ..f },
        HeaderKey::Eco => HeaderFields { texts: f.texts.update(11, value), ..f },
        HeaderKey::Opening => HeaderFields { texts: f.texts.update(12, value), ..f },
        HeaderKey::Termination => HeaderFields { texts: f.texts.update(14, value), ..f },
        HeaderKey::TimeControl => match time_control_of(value) {
            Some((a, b)) => HeaderFields { texts: f.texts.update(13, value), initial_time: a, increment: b },
            None => HeaderFields { texts: f.texts.update(13, value), initial_time: 0, increment: 0 },
        },
        HeaderKey::Unknown => f,
    }
}

/// Reading a header changes the record's contents as `fields_applied` says.
pub proof fn lemma_fields_applied(h: GameHeaders, key: Seq<char>, value: String)
    ensures
        header_applied(h, key, value).fields() == fields_applied(h.fields(), key, value@),
{
    assert(header_applied(h, key, value).fields().texts =~= fields_applied(h.fields(), key, value@).texts);
    if let Some((a, b)) = time_control_of(value@) {
        assert(a <= usize::MAX && b <= usize::MAX);
    }
}

} // verus!
