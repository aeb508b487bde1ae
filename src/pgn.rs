use crate::date::{date_pattern, parse_date, parsed_date_of, CalendarDate};
use vstd::prelude::*;

verus! {

/// How a game ended, seen from White's side of the board.
#[derive(Clone, Copy, Debug, PartialEq, Eq, Structural, Hash)]
pub enum GameResult {
    WhiteWin,
    BlackWin,
    Draw,
}

/// A finished game that the rating engine can take.
#[derive(Clone, Debug)]
pub struct OutcomeResult {
    pub white: String,
    pub black: String,
    pub date: CalendarDate,
    pub outcome: GameResult,
}

#[verifier::external_type_specification]
#[verifier::external_body]
pub struct ExUtf8Error(core::str::Utf8Error);

/// Why a record gave no game.
#[derive(Clone, Copy, Debug)]
pub enum OutcomeError {
    /// A header value is not valid UTF-8.
    HeaderUtf8(core::str::Utf8Error),
    /// The record has no result (`*`), or lacks a field that a game needs.
    NoOutcome,
    /// The date header is not a date written `YYYY.MM.DD`.
    DateFormatting(chrono::ParseError),
}

/// The variant of an [`OutcomeError`], without what it carries.
#[derive(Clone, Copy, Debug, PartialEq, Eq, Structural, Hash)]
pub enum ErrorKind {
    HeaderUtf8,
    NoOutcome,
    DateFormatting,
}

impl OutcomeError {
    pub open spec fn spec_kind(self) -> ErrorKind {
        match self {
            OutcomeError::HeaderUtf8(_) => ErrorKind::HeaderUtf8,
            OutcomeError::NoOutcome => ErrorKind::NoOutcome,
            OutcomeError::DateFormatting(_) => ErrorKind::DateFormatting,
        }
    }

    pub fn kind(&self) -> (k: ErrorKind)
        ensures
            k == self.spec_kind(),
    {
        match self {
            OutcomeError::HeaderUtf8(_) => ErrorKind::HeaderUtf8,
            OutcomeError::NoOutcome => ErrorKind::NoOutcome,
            OutcomeError::DateFormatting(_) => ErrorKind::DateFormatting,
        }
    }

    /// A fatal error means a corrupt archive: the whole run stops.
    pub open spec fn spec_is_fatal(self) -> bool {
        !(self is NoOutcome)
    }

    pub fn is_fatal(&self) -> (r: bool)
        ensures
            r == self.spec_is_fatal(),
    {
        match self {
            OutcomeError::NoOutcome => false,
            _ => true,
        }
    }
}

/// The text that a raw header value denotes once its escapes are undone,
/// if that is valid UTF-8.
pub uninterp spec fn header_text_of(raw: Seq<u8>) -> Option<Seq<char>>;

/// Relies on pgn-reader's `RawHeader::decode_utf8`: it undoes the escapes of
/// a header value and decodes the bytes as UTF-8, failing exactly when they
/// are not valid UTF-8; the outcome depends on the bytes alone.
#[verifier::external_body]
fn decode_header(raw: &[u8]) -> (r: Result<String, core::str::Utf8Error>)
    ensures
        match r {
            Ok(s) => header_text_of(raw@) == Some(s@),
            Err(_) => header_text_of(raw@) is None,
        },
{
    pgn_reader::RawHeader(raw).decode_utf8().map(|s| s.into_owned())
}

pub open spec fn white_tag() -> Seq<u8> {
    seq![87u8, 104u8, 105u8, 116u8, 101u8]
}

pub open spec fn black_tag() -> Seq<u8> {
    seq![66u8, 108u8, 97u8, 99u8, 107u8]
}

pub open spec fn date_tag() -> Seq<u8> {
    seq![68u8, 97u8, 116u8, 101u8]
}

fn same_bytes(a: &[u8], b: &[u8]) -> (r: bool)
    ensures
        r == (a@ == b@),
{
    if a.len() != b.len() {
        return false;
    }
    let mut i: usize = 0;
    while i < a.len()
        invariant
            a@.len() == b@.len(),
            i <= a@.len(),
            forall|j: int| 0 <= j < i ==> a@[j] == b@[j],
        decreases a@.len() - i,
    {
        if a[i] != b[i] {
            return false;
        }
        i = i + 1;
    }
    assert(a@ =~= b@);
    true
}

/// What a record has shown so far.
pub struct RecordView {
    pub white: Seq<char>,
    pub black: Seq<char>,
    pub date: Option<CalendarDate>,
    pub outcome: Option<GameResult>,
    pub error: Option<ErrorKind>,
}

/// The effect of one header on what a record has shown. Only `White`,
/// `Black` and `Date` count; a value that fails to decode or to parse sets
/// the error and leaves the field as it was.
pub open spec fn after_header(v: RecordView, key: Seq<u8>, raw: Seq<u8>) -> RecordView {
    if key == white_tag() {
        match header_text_of(raw) {
            Some(t) => RecordView { white: t, ..v },
            None => RecordView { error: Some(ErrorKind::HeaderUtf8), ..v },
        }
    } else if key == black_tag() {
        match header_text_of(raw) {
            Some(t) => RecordView { black: t, ..v },
            None => RecordView { error: Some(ErrorKind::HeaderUtf8), ..v },
        }
    } else if key == date_tag() {
        match header_text_of(raw) {
            Some(t) => match parsed_date_of(t, date_pattern()) {
                Some(d) => RecordView { date: Some(d), ..v },
                None => RecordView { error: Some(ErrorKind::DateFormatting), ..v },
            },
            None => RecordView { error: Some(ErrorKind::HeaderUtf8), ..v },
        }
    } else {
        v
    }
}

/// A record gives a game exactly when it met no error and holds both
/// players' names, a date and a result.
pub open spec fn yields_game(v: RecordView) -> bool {
    v.error is None && v.white.len() > 0 && v.black.len() > 0 && v.date is Some && v.outcome is Some
}

/// The effect of the result token: a result is kept; `*` or no token marks
/// the record as giving no outcome, unless an earlier error (which may be
/// fatal) is already recorded.
pub open spec fn after_outcome(v: RecordView, outcome: Option<GameResult>) -> RecordView {
    match outcome {
        Some(o) => RecordView { outcome: Some(o), ..v },
        None => if v.error is Some {
            v
        } else {
            RecordView { error: Some(ErrorKind::NoOutcome), ..v }
        },
    }
}

/// The header is one of `White`, `Black` and `Date`, and its value fails to
/// decode or, for the date, to parse.
pub open spec fn header_fails(key: Seq<u8>, raw: Seq<u8>) -> bool {
    after_header(RecordView { white: seq![], black: seq![], date: None, outcome: None, error: None }, key, raw).error is Some
}

/// Gathers the fields of one game record, header by header, and turns them
/// into an [`OutcomeResult`] at the record's end.
pub struct Outcome {
    pub white: String,
    pub black: String,
    pub date: Option<CalendarDate>,
    pub outcome: Option<GameResult>,
    /// The error that the record met: a header's failure replaces an earlier
    /// one, and a missing result is recorded only where no error was.
    pub error: Option<OutcomeError>,
}

impl View for Outcome {
    type V = RecordView;

    open spec fn view(&self) -> RecordView {
        RecordView {
            white: self.white@,
            black: self.black@,
            date: self.date,
            outcome: self.outcome,
            error: match self.error {
                Some(e) => Some(e.spec_kind()),
                None => None,
            },
        }
    }
}

impl Outcome {
    /// A date that the record holds is a real day.
    pub open spec fn wf(&self) -> bool {
        match self.date {
            Some(d) => d.wf(),
            None => true,
        }
    }

    pub fn new() -> (r: Outcome)
        ensures
            r.wf(),
            r@.white.len() == 0,
            r@.black.len() == 0,
            r@.date is None,
            r@.outcome is None,
            r@.error is None,
    {
        Outcome { white: String::new(), black: String::new(), date: None, outcome: None, error: None }
    }

    /// Takes one header of the record.
    pub fn header(&mut self, key: &[u8], value: &[u8])
        requires
            old(self).wf(),
        ensures
            final(self).wf(),
            final(self)@ == after_header(old(self)@, key@, value@),
            !header_fails(key@, value@) ==> final(self).error == old(self).error,
            key@ != white_tag() && key@ != black_tag() && key@ != date_tag() ==> *final(self) == *old(self),
    {
        let white: [u8; 5] = [87u8, 104u8, 105u8, 116u8, 101u8];
        let black: [u8; 5] = [66u8, 108u8, 97u8, 99u8, 107u8];
        let date: [u8; 4] = [68u8, 97u8, 116u8, 101u8];
        proof {
            assert(white@ =~= white_tag());
            assert(black@ =~= black_tag());
            assert(date@ =~= date_tag());
        }
        if same_bytes(key, white.as_slice()) {
            match decode_header(value) {
                Ok(s) => self.white = s,
                Err(e) => self.error = Some(OutcomeError::HeaderUtf8(e)),
            }
        } else if same_bytes(key, black.as_slice()) {
            match decode_header(value) {
                Ok(s) => self.black = s,
                Err(e) => self.error = Some(OutcomeError::HeaderUtf8(e)),
            }
        } else if same_bytes(key, date.as_slice()) {
            match decode_header(value) {
                Ok(s) => match parse_date(s.as_str()) {
                    Ok(d) => self.date = Some(d),
                    Err(e) => self.error = Some(OutcomeError::DateFormatting(e)),
                },
                Err(e) => self.error = Some(OutcomeError::HeaderUtf8(e)),
            }
        }
    }

    /// Takes the record's result token: `None` where it is `*` or absent.
    pub fn outcome(&mut self, outcome: Option<GameResult>)
        requires
            old(self).wf(),
        ensures
            final(self).wf(),
            final(self)@ == after_outcome(old(self)@, outcome),
            old(self).error is Some ==> final(self).error == old(self).error,
    {
        match outcome {
            Some(o) => self.outcome = Some(o),
            None => if self.error.is_none() {
                self.error = Some(OutcomeError::NoOutcome);
            },
        }
    }

    /// Ends the record: the error it holds, else the game, else `NoOutcome`
    /// where a name, the date or the result never came.
    pub fn end_game(&mut self) -> (r: Result<OutcomeResult, OutcomeError>)
        requires
            old(self).wf(),
        ensures
            *final(self) == *old(self),
            (r is Ok) == yields_game(old(self)@),
            match r {
                Ok(g) => g.white@ == old(self)@.white && g.black@ == old(self)@.black && old(self)@.date == Some(
                    g.date,
                ) && old(self)@.outcome == Some(g.outcome) && g.date.wf(),
                Err(e) => match old(self).error {
                    Some(e0) => e == e0,
                    None => e is NoOutcome,
                },
            },
    {
        match self.error {
            Some(e) => Err(e),
            None => {
                if self.white.as_str().unicode_len() == 0 || self.black.as_str().unicode_len() == 0 {
                    return Err(OutcomeError::NoOutcome);
                }
                match (self.date, self.outcome) {
                    (Some(date), Some(outcome)) => Ok(
                        OutcomeResult {
                            white: self.white.clone(),
                            black: self.black.clone(),
                            date,
                            outcome,
                        },
                    ),
                    _ => Err(OutcomeError::NoOutcome),
                }
            },
        }
    }
}

impl Default for Outcome {
    fn default() -> (r: Outcome)
        ensures
            r.wf(),
            r@.white.len() == 0,
            r@.black.len() == 0,
            r@.date is None,
            r@.outcome is None,
            r@.error is None,
    {
        Outcome::new()
    }
}

/// Files the result of one record: a game joins `games`, a record without
/// an outcome is passed over, and a fatal error is handed back to stop the run.
pub fn collect_record(games: &mut Vec<OutcomeResult>, record: Result<OutcomeResult, OutcomeError>) -> (r: Result<(), OutcomeError>)
    ensures
        match record {
            Ok(g) => r is Ok && final(games)@ == old(games)@.push(g),
            Err(e) => final(games)@ == old(games)@ && if e.spec_is_fatal() {
                r == Err::<(), OutcomeError>(e)
            } else {
                r is Ok
            },
        },
{
    match record {
        Ok(g) => {
            games.push(g);
            Ok(())
        },
        Err(e) => if e.is_fatal() {
            Err(e)
        } else {
            Ok(())
        },
    }
}

} // verus!
