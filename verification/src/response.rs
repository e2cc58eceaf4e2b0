//! Types that represent the JSON responses of the [jolpica-f1](https://github.com/jolpica/jolpica-f1)
//! API, and the extraction of specific data from them.
//!
//! [`Response`] represents a full API response, holding one [`Table`] of data whose variant depends
//! on the requested resource. Its methods extract the expected variant, verify how many elements
//! were found, and map [`Race`]s to the more ergonomic types requested for specific resources.

use vstd::prelude::*;

use crate::error::{F1Error, Result};
use crate::id::{CircuitID, ConstructorID, DriverID, RoundID, SeasonID, StatusID};
use crate::text::{all_digits, chars_of, decimal_value, is_digit, parse_u32, u32_text_value};
use crate::time::{Date, DateTime, Duration, QualifyingTime, RaceTime, Time};

verus! {

/// Represents a full JSON response from the jolpica-f1 API: metadata about the API and the
/// response, and a single [`Table`] of data holding a request-dependent variant.
#[derive(PartialEq, Clone, Debug)]
pub struct Response {
    /// XML namespace, unused in the new jolpica-f1 API.
    pub xmlns: String,
    /// Racing series, currently always `"f1"`.
    pub series: String,
    /// URL of the API endpoint that produced this response, as serialized text.
    pub url: String,
    /// Pagination information for this response.
    pub pagination: Pagination,
    /// The main data table contained in this response.
    pub table: Table,
}

/// Pagination information of a [`Response`]: how many items a page holds at most, how many come
/// before it, and how many there are in all.
#[derive(PartialEq, Eq, Structural, Clone, Copy, Debug)]
pub struct Pagination {
    /// The number of items a page holds at most.
    pub limit: u32,
    /// The number of items before the first item of this page.
    pub offset: u32,
    /// The total number of items over all pages.
    pub total: u32,
}

/// Whether a page is the last one: no item comes after it.
pub open spec fn last_page(p: Pagination) -> bool {
    p.offset + p.limit >= p.total
}

/// The page that follows `p`, with the same limit and total, if `p` is not the last one.
pub open spec fn following_page(p: Pagination) -> Option<Pagination> {
    if last_page(p) {
        None
    } else {
        Some(Pagination { limit: p.limit, offset: (p.offset + p.limit) as u32, total: p.total })
    }
}

impl Pagination {
    /// Returns `true` if this is the last page of a response, i.e. if no more items come after it.
    pub fn is_last_page(&self) -> (r: bool)
        requires
            self.offset + self.limit <= u32::MAX,
        ensures
            r == last_page(*self),
    {
        (self.offset + self.limit) >= self.total
    }

    /// Returns `true` if this is the only page of a response: it is the first and the last page.
    pub fn is_single_page(&self) -> (r: bool)
        requires
            self.offset + self.limit <= u32::MAX,
        ensures
            r == (self.offset == 0 && last_page(*self)),
    {
        (self.offset == 0) && self.is_last_page()
    }

    /// Returns the [`Pagination`] of the next page, if this is not the last one.
    pub fn next_page(&self) -> (r: Option<Pagination>)
        requires
            self.offset + self.limit <= u32::MAX,
        ensures
            r == following_page(*self),
    {
        if self.is_last_page() {
            None
        } else {
            Some(Pagination { limit: self.limit, offset: self.offset + self.limit, total: self.total })
        }
    }
}

/// A season, e.g. the _2023 FIA Formula One World Championship_.
#[derive(PartialEq, Eq, Clone, Debug)]
pub struct Season {
    /// The year of the season.
    pub season: SeasonID,
    /// Wikipedia URL of the season.
    pub url: String,
}

/// A driver who took part in a Formula 1 event.
#[derive(PartialEq, Eq, Clone, Debug)]
pub struct Driver {
    /// Unique identifier of the driver, e.g. `"max_verstappen"`.
    pub driver_id: DriverID,
    /// Permanent race number, for drivers since 2014.
    pub permanent_number: Option<u32>,
    /// Three-letter code of the driver, e.g. `"VER"`.
    pub code: Option<String>,
    /// Wikipedia URL of the driver.
    pub url: String,
    /// Given name of the driver, e.g. `"Max"`.
    pub given_name: String,
    /// Family name of the driver, e.g. `"Verstappen"`.
    pub family_name: String,
    /// Date of birth of the driver.
    pub date_of_birth: Date,
    /// Nationality of the driver, e.g. `"Dutch"`.
    pub nationality: String,
}

/// The full name of a driver: given name, one space, family name.
pub open spec fn full_name_text(given: Seq<char>, family: Seq<char>) -> Seq<char> {
    given + " "@ + family
}

impl Driver {
    /// Returns the full name of the driver, e.g. `"Max Verstappen"`.
    pub fn full_name(&self) -> (r: String)
        ensures
            r@ == full_name_text(self.given_name@, self.family_name@),
    {
        let mut s = self.given_name.clone();
        s.append(" ");
        s.append(self.family_name.as_str());
        s
    }
}

/// A constructor (team) that took part in a Formula 1 event.
#[derive(PartialEq, Eq, Clone, Debug)]
pub struct Constructor {
    /// Unique identifier of the constructor, e.g. `"red_bull"`.
    pub constructor_id: ConstructorID,
    /// Wikipedia URL of the constructor.
    pub url: String,
    /// Name of the constructor, e.g. `"Red Bull"`.
    pub name: String,
    /// Nationality of the constructor, e.g. `"Austrian"`.
    pub nationality: String,
}

/// Geographical location of a circuit. The coordinates are kept as the bit patterns of the `f64`
/// degrees that the API gives, so that a location can be compared and hashed exactly.
#[derive(Hash, Eq, PartialEq, Debug)]
pub struct Location {
    /// Latitude in degrees, as the bits of an `f64`.
    pub lat: u64,
    /// Longitude in degrees, as the bits of an `f64`.
    pub long: u64,
    /// Locality of the circuit, e.g. `"Spa"`.
    pub locality: String,
    /// Country of the circuit, e.g. `"Belgium"`.
    pub country: String,
}

impl Clone for Location {
    /// A copy of this location, field for field.
    fn clone(&self) -> (r: Location)
        ensures
            r == *self,
    {
        Location {
            lat: self.lat,
            long: self.long,
            locality: self.locality.clone(),
            country: self.country.clone(),
        }
    }
}

/// Whether the bits of an `f64` are those of a NaN: every exponent bit set, and a fraction that
/// is not zero.
pub open spec fn is_nan_bits(b: u64) -> bool {
    b & 0x7ff0_0000_0000_0000u64 == 0x7ff0_0000_0000_0000u64 && b & 0x000f_ffff_ffff_ffffu64 != 0
}

/// The bits by which coordinates are compared, as `OrderedFloat` compares its `f64`s: every NaN
/// as one NaN, negative zero as zero, and any other bits as they are.
pub open spec fn coordinate_key(b: u64) -> u64 {
    if is_nan_bits(b) {
        0x7ff8_0000_0000_0000u64
    } else if b == 0x8000_0000_0000_0000u64 {
        0
    } else {
        b
    }
}

/// The bits by which a coordinate is compared, see [`coordinate_key`]: two coordinates are equal
/// exactly when these bits are.
pub fn canonical_coordinate(b: u64) -> (r: u64)
    ensures
        r == coordinate_key(b),
{
    if b & 0x7ff0_0000_0000_0000u64 == 0x7ff0_0000_0000_0000u64 && b & 0x000f_ffff_ffff_ffffu64 != 0 {
        0x7ff8_0000_0000_0000u64
    } else if b == 0x8000_0000_0000_0000u64 {
        0
    } else {
        b
    }
}

/// A circuit where a Formula 1 event took place.
#[derive(Hash, Eq, PartialEq, Debug)]
pub struct Circuit {
    /// Unique identifier of the circuit, e.g. `"spa"`.
    pub circuit_id: CircuitID,
    /// Wikipedia URL of the circuit.
    pub url: String,
    /// Name of the circuit, e.g. `"Circuit de Spa-Francorchamps"`.
    pub circuit_name: String,
    /// Location of the circuit.
    pub location: Location,
}

impl Clone for Circuit {
    /// A copy of this circuit, field for field.
    fn clone(&self) -> (r: Circuit)
        ensures
            r == *self,
    {
        Circuit {
            circuit_id: self.circuit_id.clone(),
            url: self.url.clone(),
            circuit_name: self.circuit_name.clone(),
            location: self.location.clone(),
        }
    }
}

/// A finishing status, e.g. `"Finished"`, and how many results in the request had it.
#[derive(PartialEq, Eq, Clone, Debug)]
pub struct Status {
    /// Unique identifier of the status, e.g. `1` for `"Finished"`.
    pub status_id: StatusID,
    /// The number of results in the request that had this status.
    pub count: u32,
    /// Text of the status, e.g. `"Finished"`.
    pub status: String,
}

/// The schedule of a race weekend: the dates and times of its sessions other than the race.
#[derive(PartialEq, Eq, Structural, Clone, Copy, Debug)]
pub struct Schedule {
    /// First practice session.
    pub first_practice: Option<DateTime>,
    /// Second practice session.
    pub second_practice: Option<DateTime>,
    /// Third practice session.
    pub third_practice: Option<DateTime>,
    /// Qualifying session.
    pub qualifying: Option<DateTime>,
    /// Sprint race.
    pub sprint: Option<DateTime>,
    /// Sprint shootout session, as the sprint qualifying session was called in 2023.
    pub sprint_shootout: Option<DateTime>,
    /// Sprint qualifying session.
    pub sprint_qualifying: Option<DateTime>,
}

/// A race weekend (event), with its information and a payload of type `T`, by default a
/// [`Payload`], whose variant depends on the requested resource.
#[derive(Eq, PartialEq, Clone, Debug)]
pub struct Race<T = Payload> {
    /// The season the race took place in.
    pub season: SeasonID,
    /// The round of the race within its season.
    pub round: RoundID,
    /// Wikipedia URL of the race.
    pub url: String,
    /// Name of the race, e.g. `"Belgian Grand Prix"`.
    pub race_name: String,
    /// The circuit the race took place at.
    pub circuit: Circuit,
    /// Date of the race.
    pub date: Date,
    /// Start time of the race, when known.
    pub time: Option<Time>,
    /// The payload of the race, which depends on the requested resource.
    pub payload: T,
}

/// The information of a race without its payload.
pub open spec fn race_info<T>(race: Race<T>) -> Race<()> {
    Race {
        season: race.season,
        round: race.round,
        url: race.url,
        race_name: race.race_name,
        circuit: race.circuit,
        date: race.date,
        time: race.time,
        payload: (),
    }
}

/// The payload of a [`Race`], holding the results of the requested session, the laps, the pit
/// stops, or, for a schedule, the dates and times of the sessions.
#[derive(PartialEq, Clone, Debug)]
pub enum Payload {
    /// Qualifying results of a race weekend.
    QualifyingResults(Vec<QualifyingResult>),
    /// Sprint results of a race weekend.
    SprintResults(Vec<SprintResult>),
    /// Race results of a race weekend.
    RaceResults(Vec<RaceResult>),
    /// Lap timings of a race.
    Laps(Vec<Lap>),
    /// Pit stops of a race.
    PitStops(Vec<PitStop>),
    /// The schedule of a race weekend; this is what a race carries when no other payload applies.
    Schedule(Schedule),
}

/// What a [`Payload`] holds, with its lists as sequences.
pub enum PayloadView {
    /// Qualifying results of a race weekend.
    QualifyingResults(Seq<QualifyingResult>),
    /// Sprint results of a race weekend.
    SprintResults(Seq<SprintResult>),
    /// Race results of a race weekend.
    RaceResults(Seq<RaceResult>),
    /// Lap timings of a race.
    Laps(Seq<Lap>),
    /// Pit stops of a race.
    PitStops(Seq<PitStop>),
    /// The schedule of a race weekend.
    Schedule(Schedule),
}

impl View for Payload {
    type V = PayloadView;

    open spec fn view(&self) -> PayloadView {
        match self {
            Payload::QualifyingResults(v) => PayloadView::QualifyingResults(v@),
            Payload::SprintResults(v) => PayloadView::SprintResults(v@),
            Payload::RaceResults(v) => PayloadView::RaceResults(v@),
            Payload::Laps(v) => PayloadView::Laps(v@),
            Payload::PitStops(v) => PayloadView::PitStops(v@),
            Payload::Schedule(s) => PayloadView::Schedule(*s),
        }
    }
}

/// The main data table of a [`Response`], whose variant depends on the requested resource.
#[derive(PartialEq, Clone, Debug)]
pub enum Table {
    /// A list of seasons.
    Seasons {
        /// The seasons.
        seasons: Vec<Season>,
    },
    /// A list of drivers.
    Drivers {
        /// The drivers.
        drivers: Vec<Driver>,
    },
    /// A list of constructors.
    Constructors {
        /// The constructors.
        constructors: Vec<Constructor>,
    },
    /// A list of circuits.
    Circuits {
        /// The circuits.
        circuits: Vec<Circuit>,
    },
    /// A list of races, each with a payload that depends on the requested resource.
    Races {
        /// The races.
        races: Vec<Race>,
    },
    /// A list of finishing statuses.
    Status {
        /// The statuses.
        status: Vec<Status>,
    },
}

/// What a [`Table`] holds, with its lists as sequences.
pub enum TableView {
    /// A list of seasons.
    Seasons(Seq<Season>),
    /// A list of drivers.
    Drivers(Seq<Driver>),
    /// A list of constructors.
    Constructors(Seq<Constructor>),
    /// A list of circuits.
    Circuits(Seq<Circuit>),
    /// A list of races.
    Races(Seq<Race>),
    /// A list of finishing statuses.
    Status(Seq<Status>),
}

impl View for Table {
    type V = TableView;

    open spec fn view(&self) -> TableView {
        match self {
            Table::Seasons { seasons } => TableView::Seasons(seasons@),
            Table::Drivers { drivers } => TableView::Drivers(drivers@),
            Table::Constructors { constructors } => TableView::Constructors(constructors@),
            Table::Circuits { circuits } => TableView::Circuits(circuits@),
            Table::Races { races } => TableView::Races(races@),
            Table::Status { status } => TableView::Status(status@),
        }
    }
}

/// A driver's result in a qualifying session.
#[derive(PartialEq, Eq, Clone, Debug)]
pub struct QualifyingResult {
    /// The driver's race number.
    pub number: u32,
    /// The driver's qualifying position.
    pub position: u32,
    /// The driver.
    pub driver: Driver,
    /// The driver's constructor.
    pub constructor: Constructor,
    /// Best lap time in Q1, when the driver took part in it.
    pub q1: Option<QualifyingTime>,
    /// Best lap time in Q2, when the driver took part in it.
    pub q2: Option<QualifyingTime>,
    /// Best lap time in Q3, when the driver took part in it.
    pub q3: Option<QualifyingTime>,
}

/// Points awarded for a result, as the bits of the `f32` that the API gives.
pub type Points = u32;

/// A driver's result in a sprint race.
#[derive(PartialEq, Clone, Debug)]
pub struct SprintResult {
    /// The driver's race number.
    pub number: u32,
    /// The driver's finishing position.
    pub position: u32,
    /// The driver's finishing position, or the reason for not finishing.
    pub position_text: Position,
    /// Points awarded, as the bits of an `f32`.
    pub points: Points,
    /// The driver.
    pub driver: Driver,
    /// The driver's constructor.
    pub constructor: Constructor,
    /// The driver's starting grid position; [`crate::api::GRID_PIT_LANE`] for the pit lane.
    pub grid: u32,
    /// The number of laps completed.
    pub laps: u32,
    /// The finishing status, e.g. `"Finished"`.
    pub status: String,
    /// The race time, for drivers who finished on the lead lap.
    pub time: Option<RaceTime>,
    /// The driver's fastest lap, when there is one.
    pub fastest_lap: Option<FastestLap>,
}

/// A driver's result in a race.
#[derive(PartialEq, Clone, Debug)]
pub struct RaceResult {
    /// The driver's race number, or [`RaceResult::NO_NUMBER`] when the API gives none.
    pub number: u32,
    /// The driver's finishing position.
    pub position: u32,
    /// The driver's finishing position, or the reason for not finishing.
    pub position_text: Position,
    /// Points awarded, as the bits of an `f32`.
    pub points: Points,
    /// The driver.
    pub driver: Driver,
    /// The driver's constructor.
    pub constructor: Constructor,
    /// The driver's starting grid position; [`crate::api::GRID_PIT_LANE`] for the pit lane.
    pub grid: u32,
    /// The number of laps completed.
    pub laps: u32,
    /// The finishing status, e.g. `"Finished"`.
    pub status: String,
    /// The race time, for drivers who finished on the lead lap.
    pub time: Option<RaceTime>,
    /// The driver's fastest lap, when there is one.
    pub fastest_lap: Option<FastestLap>,
}

impl RaceResult {
    /// The race number given to drivers for whom the API gives the text `"None"`.
    pub const NO_NUMBER: u32 = 0xffff_ffff;
}

/// The race number that a text of the API stands for: [`RaceResult::NO_NUMBER`] for `"None"`,
/// else the decimal number; `None` when the text is neither.
pub open spec fn race_number_value(s: Seq<char>) -> Option<u32> {
    if s == "None"@ {
        Some(RaceResult::NO_NUMBER)
    } else {
        u32_text_value(s)
    }
}

/// Reads a driver's race number as the API writes it: the text `"None"` when the driver had no
/// number, which gives [`RaceResult::NO_NUMBER`], else a decimal number.
pub fn possible_no_number(s: &str) -> (r: Option<u32>)
    ensures
        r == race_number_value(s@),
{
    let none_text = "None";
    proof {
        reveal_strlit("None");
    }
    if str_eq(s, none_text) {
        Some(RaceResult::NO_NUMBER)
    } else {
        parse_u32(s)
    }
}

/// Whether two texts are the same, character for character.
pub fn str_eq(a: &str, b: &str) -> (r: bool)
    ensures
        r == (a@ == b@),
{
    let ca = chars_of(a);
    let cb = chars_of(b);
    if ca.len() != cb.len() {
        return false;
    }
    let mut i: usize = 0;
    while i < ca.len()
        invariant
            ca@ == a@,
            cb@ == b@,
            ca@.len() == cb@.len(),
            i <= ca@.len(),
            forall|j: int| 0 <= j < i ==> ca@[j] == cb@[j],
        decreases ca.len() - i,
    {
        if ca[i] != cb[i] {
            return false;
        }
        i = i + 1;
    }
    assert(ca@ =~= cb@);
    true
}

/// A driver's finishing position in a session, or the reason for not being classified.
#[derive(PartialEq, Eq, Structural, Clone, Copy, Debug)]
pub enum Position {
    /// Finished and classified, in the given position.
    Finished(u32),
    /// Retired.
    Retired,
    /// Disqualified.
    Disqualified,
    /// Excluded.
    Excluded,
    /// Withdrawn.
    Withdrawn,
    /// Failed to qualify.
    FailedToQualify,
    /// Not classified.
    NotClassified,
}

/// The position that a text of the API stands for: one of the letters `R`, `D`, `E`, `W`, `F`
/// and `N`, or a decimal number; `None` when the text is neither.
pub open spec fn position_value(s: Seq<char>) -> Option<Position> {
    if s == seq!['R'] {
        Some(Position::Retired)
    } else if s == seq!['D'] {
        Some(Position::Disqualified)
    } else if s == seq!['E'] {
        Some(Position::Excluded)
    } else if s == seq!['W'] {
        Some(Position::Withdrawn)
    } else if s == seq!['F'] {
        Some(Position::FailedToQualify)
    } else if s == seq!['N'] {
        Some(Position::NotClassified)
    } else {
        match u32_text_value(s) {
            Some(n) => Some(Position::Finished(n)),
            None => None,
        }
    }
}

/// A text of ASCII digits, one or more of them, whose value fits in `u32` is a finish at that
/// position, e.g. `"1"` for the winner or `"15"`; any other position than a finish is written
/// with one of the six letters `R`, `D`, `E`, `W`, `F` and `N`.
pub proof fn law_position_of_digits(s: Seq<char>)
    ensures
        s.len() >= 1 && all_digits(s) && decimal_value(s) <= u32::MAX ==> position_value(s) == Some(
            Position::Finished(decimal_value(s) as u32),
        ),
        position_value(s) matches Some(p) ==> (!(p is Finished) ==> s.len() == 1 && (s[0] == 'R'
            || s[0] == 'D' || s[0] == 'E' || s[0] == 'W' || s[0] == 'F' || s[0] == 'N')),
        s == seq!['R'] ==> position_value(s) == Some(Position::Retired),
        s == seq!['D'] ==> position_value(s) == Some(Position::Disqualified),
        s == seq!['E'] ==> position_value(s) == Some(Position::Excluded),
        s == seq!['W'] ==> position_value(s) == Some(Position::Withdrawn),
        s == seq!['F'] ==> position_value(s) == Some(Position::FailedToQualify),
        s == seq!['N'] ==> position_value(s) == Some(Position::NotClassified),
{
    if s.len() >= 1 && all_digits(s) {
        assert(is_digit(s[0]));
        assert(s[0] != 'R' && s[0] != 'D' && s[0] != 'E' && s[0] != 'W' && s[0] != 'F' && s[0] != 'N'
            && s[0] != '+');
        assert(s != seq!['R'] && s != seq!['D'] && s != seq!['E']);
        assert(s != seq!['W'] && s != seq!['F'] && s != seq!['N']);
    }
}

impl Position {
    /// Retired, as the API writes it: `"R"`.
    pub fn r() -> (p: Position)
        ensures
            p == Position::Retired,
    {
        Position::Retired
    }

    /// Disqualified, as the API writes it: `"D"`.
    pub fn d() -> (p: Position)
        ensures
            p == Position::Disqualified,
    {
        Position::Disqualified
    }

    /// Excluded, as the API writes it: `"E"`.
    pub fn e() -> (p: Position)
        ensures
            p == Position::Excluded,
    {
        Position::Excluded
    }

    /// Withdrawn, as the API writes it: `"W"`.
    pub fn w() -> (p: Position)
        ensures
            p == Position::Withdrawn,
    {
        Position::Withdrawn
    }

    /// Failed to qualify, as the API writes it: `"F"`.
    pub fn f() -> (p: Position)
        ensures
            p == Position::FailedToQualify,
    {
        Position::FailedToQualify
    }

    /// Not classified, as the API writes it: `"N"`.
    pub fn n() -> (p: Position)
        ensures
            p == Position::NotClassified,
    {
        Position::NotClassified
    }

    /// Reads a position as the API writes it: one of the letters `R`, `D`, `E`, `W`, `F` and `N`,
    /// or a decimal number for a classified finish.
    pub fn from_text(s: &str) -> (r: Option<Position>)
        ensures
            r == position_value(s@),
    {
        let cs = chars_of(s);
        if cs.len() == 1 {
            let c = cs[0];
            assert(s@ == seq![c]);
            if c == 'R' {
                return Some(Position::Retired);
            } else if c == 'D' {
                return Some(Position::Disqualified);
            } else if c == 'E' {
                return Some(Position::Excluded);
            } else if c == 'W' {
                return Some(Position::Withdrawn);
            } else if c == 'F' {
                return Some(Position::FailedToQualify);
            } else if c == 'N' {
                return Some(Position::NotClassified);
            }
        }
        match parse_u32(s) {
            Some(n) => Some(Position::Finished(n)),
            None => None,
        }
    }
}

/// A driver's lap: its number, the driver's position, and the lap time.
#[derive(PartialEq, Eq, Structural, Clone, Copy, Debug)]
pub struct DriverLap {
    /// The lap number.
    pub number: u32,
    /// The driver's position on that lap.
    pub position: u32,
    /// The lap time.
    pub time: Duration,
}

/// The message of the error for a lap whose single timing is of another driver than expected.
pub open spec fn unexpected_driver_message(expected: Seq<char>, got: Seq<char>) -> Seq<char> {
    "Expected driver_id '"@ + expected + "' but got '"@ + got + "'"@
}

/// Whether `lap` has a single timing, of the driver `driver_id`.
pub open spec fn lap_of_driver(lap: Lap, driver_id: Seq<char>) -> bool {
    single(lap.timings@) matches Ok(t) && t.driver_id@ == driver_id
}

/// The driver lap that `lap` gives when it holds a single timing.
pub open spec fn driver_lap_of(lap: Lap) -> DriverLap {
    let t = lap.timings@[0];
    DriverLap { number: lap.number, position: t.position, time: t.time }
}

/// Whether `k` is the first lap of `laps` that does not hold the single timing of `driver_id`.
pub open spec fn first_lap_not_of_driver(laps: Seq<Lap>, driver_id: Seq<char>, k: int) -> bool {
    &&& 0 <= k < laps.len()
    &&& !lap_of_driver(laps[k], driver_id)
    &&& forall|j: int| 0 <= j < k ==> lap_of_driver(#[trigger] laps[j], driver_id)
}

/// Whether `r` is what [`DriverLap::try_from`] gives back for `lap` and `driver_id`.
pub open spec fn driver_lap_outcome(lap: Lap, driver_id: Seq<char>, r: Result<DriverLap>) -> bool {
    match single(lap.timings@) {
        Err(e) => r == Err::<DriverLap, F1Error>(e),
        Ok(t) => if t.driver_id@ == driver_id {
            r == Ok::<DriverLap, F1Error>(
                DriverLap { number: lap.number, position: t.position, time: t.time },
            )
        } else {
            r matches Err(F1Error::UnexpectedData(m)) && m@ == unexpected_driver_message(
                driver_id,
                t.driver_id@,
            )
        },
    }
}

impl DriverLap {
    /// Creates a [`DriverLap`] from a [`Lap`] that should hold the single timing of the driver
    /// `driver_id`: [`F1Error::NotFound`] or [`F1Error::TooMany`] if it does not hold exactly one
    /// timing, [`F1Error::UnexpectedData`] if that timing is of another driver.
    pub fn try_from(lap: Lap, driver_id: &DriverID) -> (r: Result<DriverLap>)
        ensures
            driver_lap_outcome(lap, driver_id@, r),
    {
        let number = lap.number;
        let timing = match verify_has_one_element_and_extract(lap.timings) {
            Ok(t) => t,
            Err(e) => {
                return Err(e);
            },
        };
        if timing.driver_id != *driver_id {
            let mut message = String::from_str("Expected driver_id '");
            message.append(driver_id.as_str());
            message.append("' but got '");
            message.append(timing.driver_id.as_str());
            message.append("'");
            proof {
                reveal_strlit("Expected driver_id '");
                reveal_strlit("' but got '");
                reveal_strlit("'");
            }
            return Err(F1Error::UnexpectedData(message));
        }
        Ok(DriverLap { number, position: timing.position, time: timing.time })
    }
}

/// A lap of a race, with the timings of the drivers on it.
#[derive(PartialEq, Eq, Clone, Debug)]
pub struct Lap {
    /// The lap number.
    pub number: u32,
    /// The timings of the drivers on this lap.
    pub timings: Vec<Timing>,
}

/// A driver's timing on a lap.
#[derive(PartialEq, Eq, Clone, Debug)]
pub struct Timing {
    /// The driver.
    pub driver_id: DriverID,
    /// The driver's position on the lap.
    pub position: u32,
    /// The lap time.
    pub time: Duration,
}

/// A pit stop of a driver in a race.
#[derive(PartialEq, Eq, Clone, Debug)]
pub struct PitStop {
    /// The driver.
    pub driver_id: DriverID,
    /// The lap of the pit stop.
    pub lap: u32,
    /// The number of the stop for the driver in the race: `1` for the first.
    pub stop: u32,
    /// The time of day of the pit stop.
    pub time: Time,
    /// The duration of the pit stop.
    pub duration: Duration,
}

/// A driver's fastest lap in a session.
#[derive(PartialEq, Clone, Copy, Debug)]
pub struct FastestLap {
    /// The rank of this lap among the fastest laps of all drivers, when given.
    pub rank: Option<u32>,
    /// The lap number.
    pub lap: u32,
    /// The lap time.
    pub time: Duration,
    /// The average speed on the lap, when given.
    pub average_speed: Option<AverageSpeed>,
}

/// An average speed over a lap.
#[derive(PartialEq, Clone, Copy, Debug)]
pub struct AverageSpeed {
    /// The units of the speed.
    pub units: SpeedUnits,
    /// The speed, as the bits of an `f32`.
    pub speed: u32,
}

/// The units of a speed.
#[derive(PartialEq, Eq, Structural, Clone, Copy, Debug)]
pub enum SpeedUnits {
    /// Kilometres per hour.
    Kph,
}

impl Table {
    /// Returns `true` if this is a [`Table::Seasons`].
    pub fn is_seasons(&self) -> (r: bool)
        ensures
            r == (self@ is Seasons),
    {
        match self {
            Table::Seasons { .. } => true,
            _ => false,
        }
    }

    /// The list of a [`Table::Seasons`], or `None` for another variant.
    pub fn as_seasons(&self) -> (r: Option<&Vec<Season>>)
        ensures
            match self@ {
                TableView::Seasons(s) => r matches Some(v) && v@ == s,
                _ => r is None,
            },
    {
        match self {
            Table::Seasons { seasons } => Some(seasons),
            _ => None,
        }
    }

    /// The list of a [`Table::Seasons`], or the table itself back for another variant.
    pub fn into_seasons(self) -> (r: std::result::Result<Vec<Season>, Table>)
        ensures
            match self@ {
                TableView::Seasons(s) => r matches Ok(v) && v@ == s,
                _ => r == Err::<Vec<Season>, Table>(self),
            },
    {
        match self {
            Table::Seasons { seasons } => Ok(seasons),
            other => Err(other),
        }
    }

    /// Returns `true` if this is a [`Table::Drivers`].
    pub fn is_drivers(&self) -> (r: bool)
        ensures
            r == (self@ is Drivers),
    {
        match self {
            Table::Drivers { .. } => true,
            _ => false,
        }
    }

    /// The list of a [`Table::Drivers`], or `None` for another variant.
    pub fn as_drivers(&self) -> (r: Option<&Vec<Driver>>)
        ensures
            match self@ {
                TableView::Drivers(s) => r matches Some(v) && v@ == s,
                _ => r is None,
            },
    {
        match self {
            Table::Drivers { drivers } => Some(drivers),
            _ => None,
        }
    }

    /// The list of a [`Table::Drivers`], or the table itself back for another variant.
    pub fn into_drivers(self) -> (r: std::result::Result<Vec<Driver>, Table>)
        ensures
            match self@ {
                TableView::Drivers(s) => r matches Ok(v) && v@ == s,
                _ => r == Err::<Vec<Driver>, Table>(self),
            },
    {
        match self {
            Table::Drivers { drivers } => Ok(drivers),
            other => Err(other),
        }
    }

    /// Returns `true` if this is a [`Table::Constructors`].
    pub fn is_constructors(&self) -> (r: bool)
        ensures
            r == (self@ is Constructors),
    {
        match self {
            Table::Constructors { .. } => true,
            _ => false,
        }
    }

    /// The list of a [`Table::Constructors`], or `None` for another variant.
    pub fn as_constructors(&self) -> (r: Option<&Vec<Constructor>>)
        ensures
            match self@ {
                TableView::Constructors(s) => r matches Some(v) && v@ == s,
                _ => r is None,
            },
    {
        match self {
            Table::Constructors { constructors } => Some(constructors),
            _ => None,
        }
    }

    /// The list of a [`Table::Constructors`], or the table itself back for another variant.
    pub fn into_constructors(self) -> (r: std::result::Result<Vec<Constructor>, Table>)
        ensures
            match self@ {
                TableView::Constructors(s) => r matches Ok(v) && v@ == s,
                _ => r == Err::<Vec<Constructor>, Table>(self),
            },
    {
        match self {
            Table::Constructors { constructors } => Ok(constructors),
            other => Err(other),
        }
    }

    /// Returns `true` if this is a [`Table::Circuits`].
    pub fn is_circuits(&self) -> (r: bool)
        ensures
            r == (self@ is Circuits),
    {
        match self {
            Table::Circuits { .. } => true,
            _ => false,
        }
    }

    /// The list of a [`Table::Circuits`], or `None` for another variant.
    pub fn as_circuits(&self) -> (r: Option<&Vec<Circuit>>)
        ensures
            match self@ {
                TableView::Circuits(s) => r matches Some(v) && v@ == s,
                _ => r is None,
            },
    {
        match self {
            Table::Circuits { circuits } => Some(circuits),
            _ => None,
        }
    }

    /// The list of a [`Table::Circuits`], or the table itself back for another variant.
    pub fn into_circuits(self) -> (r: std::result::Result<Vec<Circuit>, Table>)
        ensures
            match self@ {
                TableView::Circuits(s) => r matches Ok(v) && v@ == s,
                _ => r == Err::<Vec<Circuit>, Table>(self),
            },
    {
        match self {
            Table::Circuits { circuits } => Ok(circuits),
            other => Err(other),
        }
    }

    /// Returns `true` if this is a [`Table::Races`].
    pub fn is_races(&self) -> (r: bool)
        ensures
            r == (self@ is Races),
    {
        match self {
            Table::Races { .. } => true,
            _ => false,
        }
    }

    /// The list of a [`Table::Races`], or `None` for another variant.
    pub fn as_races(&self) -> (r: Option<&Vec<Race>>)
        ensures
            match self@ {
                TableView::Races(s) => r matches Some(v) && v@ == s,
                _ => r is None,
            },
    {
        match self {
            Table::Races { races } => Some(races),
            _ => None,
        }
    }

    /// The list of a [`Table::Races`], or the table itself back for another variant.
    pub fn into_races(self) -> (r: std::result::Result<Vec<Race>, Table>)
        ensures
            match self@ {
                TableView::Races(s) => r matches Ok(v) && v@ == s,
                _ => r == Err::<Vec<Race>, Table>(self),
            },
    {
        match self {
            Table::Races { races } => Ok(races),
            other => Err(other),
        }
    }

    /// Returns `true` if this is a [`Table::Status`].
    pub fn is_status(&self) -> (r: bool)
        ensures
            r == (self@ is Status),
    {
        match self {
            Table::Status { .. } => true,
            _ => false,
        }
    }

    /// The list of a [`Table::Status`], or `None` for another variant.
    pub fn as_status(&self) -> (r: Option<&Vec<Status>>)
        ensures
            match self@ {
                TableView::Status(s) => r matches Some(v) && v@ == s,
                _ => r is None,
            },
    {
        match self {
            Table::Status { status } => Some(status),
            _ => None,
        }
    }

    /// The list of a [`Table::Status`], or the table itself back for another variant.
    pub fn into_status(self) -> (r: std::result::Result<Vec<Status>, Table>)
        ensures
            match self@ {
                TableView::Status(s) => r matches Ok(v) && v@ == s,
                _ => r == Err::<Vec<Status>, Table>(self),
            },
    {
        match self {
            Table::Status { status } => Ok(status),
            other => Err(other),
        }
    }
}

impl Payload {
    /// Returns `true` if this is a [`Payload::QualifyingResults`].
    pub fn is_qualifying_results(&self) -> (r: bool)
        ensures
            r == (self@ is QualifyingResults),
    {
        match self {
            Payload::QualifyingResults(_) => true,
            _ => false,
        }
    }

    /// The content of a [`Payload::QualifyingResults`], or `None` for another variant.
    pub fn as_qualifying_results(&self) -> (r: Option<&Vec<QualifyingResult>>)
        ensures
            match self@ {
                PayloadView::QualifyingResults(s) => r matches Some(v) && v@ == s,
                _ => r is None,
            },
    {
        match self {
            Payload::QualifyingResults(inner) => Some(inner),
            _ => None,
        }
    }

    /// The content of a [`Payload::QualifyingResults`], or the payload itself back for another variant.
    pub fn into_qualifying_results(self) -> (r: std::result::Result<Vec<QualifyingResult>, Payload>)
        ensures
            match self@ {
                PayloadView::QualifyingResults(s) => r matches Ok(v) && v@ == s,
                _ => r == Err::<Vec<QualifyingResult>, Payload>(self),
            },
    {
        match self {
            Payload::QualifyingResults(inner) => Ok(inner),
            other => Err(other),
        }
    }

    /// Returns `true` if this is a [`Payload::SprintResults`].
    pub fn is_sprint_results(&self) -> (r: bool)
        ensures
            r == (self@ is SprintResults),
    {
        match self {
            Payload::SprintResults(_) => true,
            _ => false,
        }
    }

    /// The content of a [`Payload::SprintResults`], or `None` for another variant.
    pub fn as_sprint_results(&self) -> (r: Option<&Vec<SprintResult>>)
        ensures
            match self@ {
                PayloadView::SprintResults(s) => r matches Some(v) && v@ == s,
                _ => r is None,
            },
    {
        match self {
            Payload::SprintResults(inner) => Some(inner),
            _ => None,
        }
    }

    /// The content of a [`Payload::SprintResults`], or the payload itself back for another variant.
    pub fn into_sprint_results(self) -> (r: std::result::Result<Vec<SprintResult>, Payload>)
        ensures
            match self@ {
                PayloadView::SprintResults(s) => r matches Ok(v) && v@ == s,
                _ => r == Err::<Vec<SprintResult>, Payload>(self),
            },
    {
        match self {
            Payload::SprintResults(inner) => Ok(inner),
            other => Err(other),
        }
    }

    /// Returns `true` if this is a [`Payload::RaceResults`].
    pub fn is_race_results(&self) -> (r: bool)
        ensures
            r == (self@ is RaceResults),
    {
        match self {
            Payload::RaceResults(_) => true,
            _ => false,
        }
    }

    /// The content of a [`Payload::RaceResults`], or `None` for another variant.
    pub fn as_race_results(&self) -> (r: Option<&Vec<RaceResult>>)
        ensures
            match self@ {
                PayloadView::RaceResults(s) => r matches Some(v) && v@ == s,
                _ => r is None,
            },
    {
        match self {
            Payload::RaceResults(inner) => Some(inner),
            _ => None,
        }
    }

    /// The content of a [`Payload::RaceResults`], or the payload itself back for another variant.
    pub fn into_race_results(self) -> (r: std::result::Result<Vec<RaceResult>, Payload>)
        ensures
            match self@ {
                PayloadView::RaceResults(s) => r matches Ok(v) && v@ == s,
                _ => r == Err::<Vec<RaceResult>, Payload>(self),
            },
    {
        match self {
            Payload::RaceResults(inner) => Ok(inner),
            other => Err(other),
        }
    }

    /// Returns `true` if this is a [`Payload::Laps`].
    pub fn is_laps(&self) -> (r: bool)
        ensures
            r == (self@ is Laps),
    {
        match self {
            Payload::Laps(_) => true,
            _ => false,
        }
    }

    /// The content of a [`Payload::Laps`], or `None` for another variant.
    pub fn as_laps(&self) -> (r: Option<&Vec<Lap>>)
        ensures
            match self@ {
                PayloadView::Laps(s) => r matches Some(v) && v@ == s,
                _ => r is None,
            },
    {
        match self {
            Payload::Laps(inner) => Some(inner),
            _ => None,
        }
    }

    /// The content of a [`Payload::Laps`], or the payload itself back for another variant.
    pub fn into_laps(self) -> (r: std::result::Result<Vec<Lap>, Payload>)
        ensures
            match self@ {
                PayloadView::Laps(s) => r matches Ok(v) && v@ == s,
                _ => r == Err::<Vec<Lap>, Payload>(self),
            },
    {
        match self {
            Payload::Laps(inner) => Ok(inner),
            other => Err(other),
        }
    }

    /// Returns `true` if this is a [`Payload::PitStops`].
    pub fn is_pit_stops(&self) -> (r: bool)
        ensures
            r == (self@ is PitStops),
    {
        match self {
            Payload::PitStops(_) => true,
            _ => false,
        }
    }

    /// The content of a [`Payload::PitStops`], or `None` for another variant.
    pub fn as_pit_stops(&self) -> (r: Option<&Vec<PitStop>>)
        ensures
            match self@ {
                PayloadView::PitStops(s) => r matches Some(v) && v@ == s,
                _ => r is None,
            },
    {
        match self {
            Payload::PitStops(inner) => Some(inner),
            _ => None,
        }
    }

    /// The content of a [`Payload::PitStops`], or the payload itself back for another variant.
    pub fn into_pit_stops(self) -> (r: std::result::Result<Vec<PitStop>, Payload>)
        ensures
            match self@ {
                PayloadView::PitStops(s) => r matches Ok(v) && v@ == s,
                _ => r == Err::<Vec<PitStop>, Payload>(self),
            },
    {
        match self {
            Payload::PitStops(inner) => Ok(inner),
            other => Err(other),
        }
    }

    /// Returns `true` if this is a [`Payload::Schedule`].
    pub fn is_schedule(&self) -> (r: bool)
        ensures
            r == (self@ is Schedule),
    {
        match self {
            Payload::Schedule(_) => true,
            _ => false,
        }
    }

    /// The content of a [`Payload::Schedule`], or `None` for another variant.
    pub fn as_schedule(&self) -> (r: Option<&Schedule>)
        ensures
            match self@ {
                PayloadView::Schedule(s) => r matches Some(v) && *v == s,
                _ => r is None,
            },
    {
        match self {
            Payload::Schedule(inner) => Some(inner),
            _ => None,
        }
    }

    /// The content of a [`Payload::Schedule`], or the payload itself back for another variant.
    pub fn into_schedule(self) -> (r: std::result::Result<Schedule, Payload>)
        ensures
            match self@ {
                PayloadView::Schedule(s) => r matches Ok(v) && v == s,
                _ => r == Err::<Schedule, Payload>(self),
            },
    {
        match self {
            Payload::Schedule(inner) => Ok(inner),
            other => Err(other),
        }
    }
}

/// The sequence that a vector result holds, or its error.
pub open spec fn seq_result<T>(r: Result<Vec<T>>) -> std::result::Result<Seq<T>, F1Error> {
    match r {
        Ok(v) => Ok(v@),
        Err(e) => Err(e),
    }
}

/// The single element of `s`: [`F1Error::NotFound`] when it is empty, [`F1Error::TooMany`] when
/// it has more than one.
pub open spec fn single<T>(s: Seq<T>) -> std::result::Result<T, F1Error> {
    if s.len() == 0 {
        Err(F1Error::NotFound)
    } else if s.len() == 1 {
        Ok(s[0])
    } else {
        Err(F1Error::TooMany)
    }
}

/// The single element of a list result, or the error it already holds.
pub open spec fn single_of<T>(r: std::result::Result<Seq<T>, F1Error>) -> std::result::Result<T, F1Error> {
    match r {
        Ok(s) => single(s),
        Err(e) => Err(e),
    }
}

/// A type whose list one of the variants of [`Table`] holds, e.g. [`Season`] for
/// [`Table::Seasons`].
pub trait TableInnerList: Sized {
    /// The list of this type that `table` holds, if it is of the matching variant.
    spec fn inner_of_table(table: TableView) -> Option<Seq<Self>>;

    /// Extracts the inner list of the matching [`Table`] variant; [`F1Error::BadTableVariant`]
    /// for another variant.
    fn try_into_inner_from(table: Table) -> (r: Result<Vec<Self>>)
        ensures
            match Self::inner_of_table(table@) {
                Some(s) => r matches Ok(v) && v@ == s,
                None => r matches Err(F1Error::BadTableVariant),
            },
    ;

    /// A reference to the inner list of the matching [`Table`] variant;
    /// [`F1Error::BadTableVariant`] for another variant.
    fn try_as_inner_from(table: &Table) -> (r: Result<&Vec<Self>>)
        ensures
            match Self::inner_of_table(table@) {
                Some(s) => r matches Ok(v) && v@ == s,
                None => r matches Err(F1Error::BadTableVariant),
            },
    ;
}

/// The list of type `T` that `table` holds; [`F1Error::BadTableVariant`] if it is of another
/// variant.
pub open spec fn table_list<T: TableInnerList>(table: TableView) -> std::result::Result<Seq<T>, F1Error> {
    match T::inner_of_table(table) {
        Some(s) => Ok(s),
        None => Err(F1Error::BadTableVariant),
    }
}

impl TableInnerList for Season {
    open spec fn inner_of_table(table: TableView) -> Option<Seq<Season>> {
        match table {
            TableView::Seasons(s) => Some(s),
            _ => None,
        }
    }

    fn try_into_inner_from(table: Table) -> (r: Result<Vec<Season>>) {
        match table.into_seasons() {
            Ok(v) => Ok(v),
            Err(_) => Err(F1Error::BadTableVariant),
        }
    }

    fn try_as_inner_from(table: &Table) -> (r: Result<&Vec<Season>>) {
        match table.as_seasons() {
            Some(v) => Ok(v),
            None => Err(F1Error::BadTableVariant),
        }
    }
}

impl TableInnerList for Driver {
    open spec fn inner_of_table(table: TableView) -> Option<Seq<Driver>> {
        match table {
            TableView::Drivers(s) => Some(s),
            _ => None,
        }
    }

    fn try_into_inner_from(table: Table) -> (r: Result<Vec<Driver>>) {
        match table.into_drivers() {
            Ok(v) => Ok(v),
            Err(_) => Err(F1Error::BadTableVariant),
        }
    }

    fn try_as_inner_from(table: &Table) -> (r: Result<&Vec<Driver>>) {
        match table.as_drivers() {
            Some(v) => Ok(v),
            None => Err(F1Error::BadTableVariant),
        }
    }
}

impl TableInnerList for Constructor {
    open spec fn inner_of_table(table: TableView) -> Option<Seq<Constructor>> {
        match table {
            TableView::Constructors(s) => Some(s),
            _ => None,
        }
    }

    fn try_into_inner_from(table: Table) -> (r: Result<Vec<Constructor>>) {
        match table.into_constructors() {
            Ok(v) => Ok(v),
            Err(_) => Err(F1Error::BadTableVariant),
        }
    }

    fn try_as_inner_from(table: &Table) -> (r: Result<&Vec<Constructor>>) {
        match table.as_constructors() {
            Some(v) => Ok(v),
            None => Err(F1Error::BadTableVariant),
        }
    }
}

impl TableInnerList for Circuit {
    open spec fn inner_of_table(table: TableView) -> Option<Seq<Circuit>> {
        match table {
            TableView::Circuits(s) => Some(s),
            _ => None,
        }
    }

    fn try_into_inner_from(table: Table) -> (r: Result<Vec<Circuit>>) {
        match table.into_circuits() {
            Ok(v) => Ok(v),
            Err(_) => Err(F1Error::BadTableVariant),
        }
    }

    fn try_as_inner_from(table: &Table) -> (r: Result<&Vec<Circuit>>) {
        match table.as_circuits() {
            Some(v) => Ok(v),
            None => Err(F1Error::BadTableVariant),
        }
    }
}

impl TableInnerList for Race {
    open spec fn inner_of_table(table: TableView) -> Option<Seq<Race>> {
        match table {
            TableView::Races(s) => Some(s),
            _ => None,
        }
    }

    fn try_into_inner_from(table: Table) -> (r: Result<Vec<Race>>) {
        match table.into_races() {
            Ok(v) => Ok(v),
            Err(_) => Err(F1Error::BadTableVariant),
        }
    }

    fn try_as_inner_from(table: &Table) -> (r: Result<&Vec<Race>>) {
        match table.as_races() {
            Some(v) => Ok(v),
            None => Err(F1Error::BadTableVariant),
        }
    }
}

impl TableInnerList for Status {
    open spec fn inner_of_table(table: TableView) -> Option<Seq<Status>> {
        match table {
            TableView::Status(s) => Some(s),
            _ => None,
        }
    }

    fn try_into_inner_from(table: Table) -> (r: Result<Vec<Status>>) {
        match table.into_status() {
            Ok(v) => Ok(v),
            Err(_) => Err(F1Error::BadTableVariant),
        }
    }

    fn try_as_inner_from(table: &Table) -> (r: Result<&Vec<Status>>) {
        match table.as_status() {
            Some(v) => Ok(v),
            None => Err(F1Error::BadTableVariant),
        }
    }
}

/// A type whose list one of the variants of [`Payload`] holds, e.g. [`RaceResult`] for
/// [`Payload::RaceResults`].
pub trait PayloadInnerList: Sized {
    /// The list of this type that `payload` holds, if it is of the matching variant.
    spec fn inner_of_payload(payload: PayloadView) -> Option<Seq<Self>>;

    /// Extracts the inner list of the matching [`Payload`] variant;
    /// [`F1Error::BadPayloadVariant`] for another variant.
    fn try_into_inner_from(payload: Payload) -> (r: Result<Vec<Self>>)
        ensures
            match Self::inner_of_payload(payload@) {
                Some(s) => r matches Ok(v) && v@ == s,
                None => r matches Err(F1Error::BadPayloadVariant),
            },
    ;
}


impl PayloadInnerList for QualifyingResult {
    open spec fn inner_of_payload(payload: PayloadView) -> Option<Seq<QualifyingResult>> {
        match payload {
            PayloadView::QualifyingResults(s) => Some(s),
            _ => None,
        }
    }

    fn try_into_inner_from(payload: Payload) -> (r: Result<Vec<QualifyingResult>>) {
        match payload.into_qualifying_results() {
            Ok(v) => Ok(v),
            Err(_) => Err(F1Error::BadPayloadVariant),
        }
    }
}

impl PayloadInnerList for SprintResult {
    open spec fn inner_of_payload(payload: PayloadView) -> Option<Seq<SprintResult>> {
        match payload {
            PayloadView::SprintResults(s) => Some(s),
            _ => None,
        }
    }

    fn try_into_inner_from(payload: Payload) -> (r: Result<Vec<SprintResult>>) {
        match payload.into_sprint_results() {
            Ok(v) => Ok(v),
            Err(_) => Err(F1Error::BadPayloadVariant),
        }
    }
}

impl PayloadInnerList for RaceResult {
    open spec fn inner_of_payload(payload: PayloadView) -> Option<Seq<RaceResult>> {
        match payload {
            PayloadView::RaceResults(s) => Some(s),
            _ => None,
        }
    }

    fn try_into_inner_from(payload: Payload) -> (r: Result<Vec<RaceResult>>) {
        match payload.into_race_results() {
            Ok(v) => Ok(v),
            Err(_) => Err(F1Error::BadPayloadVariant),
        }
    }
}

impl PayloadInnerList for Lap {
    open spec fn inner_of_payload(payload: PayloadView) -> Option<Seq<Lap>> {
        match payload {
            PayloadView::Laps(s) => Some(s),
            _ => None,
        }
    }

    fn try_into_inner_from(payload: Payload) -> (r: Result<Vec<Lap>>) {
        match payload.into_laps() {
            Ok(v) => Ok(v),
            Err(_) => Err(F1Error::BadPayloadVariant),
        }
    }
}

impl PayloadInnerList for PitStop {
    open spec fn inner_of_payload(payload: PayloadView) -> Option<Seq<PitStop>> {
        match payload {
            PayloadView::PitStops(s) => Some(s),
            _ => None,
        }
    }

    fn try_into_inner_from(payload: Payload) -> (r: Result<Vec<PitStop>>) {
        match payload.into_pit_stops() {
            Ok(v) => Ok(v),
            Err(_) => Err(F1Error::BadPayloadVariant),
        }
    }
}

/// Verifies that `sequence` holds exactly one element: [`F1Error::NotFound`] when it is empty,
/// [`F1Error::TooMany`] when it holds more than one.
pub fn verify_has_one_element<T>(sequence: &[T]) -> (r: Result<&[T]>)
    ensures
        match single(sequence@) {
            Ok(_) => r matches Ok(s) && s@ == sequence@,
            Err(e) => r matches Err(e2) && e2 == e,
        },
{
    if sequence.len() == 0 {
        Err(F1Error::NotFound)
    } else if sequence.len() == 1 {
        Ok(sequence)
    } else {
        Err(F1Error::TooMany)
    }
}

/// Extracts the single element of `sequence`: [`F1Error::NotFound`] when it is empty,
/// [`F1Error::TooMany`] when it holds more than one.
pub fn verify_has_one_element_and_extract<T>(sequence: Vec<T>) -> (r: Result<T>)
    ensures
        r == single(sequence@),
{
    let mut sequence = sequence;
    if sequence.len() == 0 {
        Err(F1Error::NotFound)
    } else if sequence.len() == 1 {
        Ok(sequence.remove(0))
    } else {
        Err(F1Error::TooMany)
    }
}

impl<T> Race<T> {
    /// References to all the fields of this race except its payload, to compare the information
    /// of races while ignoring their payloads.
    pub fn as_info(&self) -> (r: (&SeasonID, &RoundID, &String, &String, &Circuit, &Date, &Option<Time>))
        ensures
            *r.0 == self.season,
            *r.1 == self.round,
            *r.2 == self.url,
            *r.3 == self.race_name,
            *r.4 == self.circuit,
            *r.5 == self.date,
            *r.6 == self.time,
    {
        (&self.season, &self.round, &self.url, &self.race_name, &self.circuit, &self.date, &self.time)
    }

    /// Copies of all the fields of this race except its payload.
    pub fn to_info(&self) -> (r: (SeasonID, RoundID, String, String, Circuit, Date, Option<Time>))
        ensures
            r == (self.season, self.round, self.url, self.race_name, self.circuit, self.date, self.time),
    {
        (
            self.season,
            self.round,
            self.url.clone(),
            self.race_name.clone(),
            self.circuit.clone(),
            self.date,
            self.time,
        )
    }

    /// Maps this race's payload with a fallible operation, keeping all its other fields; the
    /// operation's error is returned as it is.
    pub fn try_map<U, F, E>(self, op: F) -> (r: std::result::Result<Race<U>, E>)
        where
            F: FnOnce(T) -> std::result::Result<U, E>,
        requires
            call_requires(op, (self.payload,)),
        ensures
            match r {
                Ok(race) => race_info(race) == race_info(self) && call_ensures(
                    op,
                    (self.payload,),
                    Ok::<U, E>(race.payload),
                ),
                Err(e) => call_ensures(op, (self.payload,), Err::<U, E>(e)),
            },
    {
        let Race { season, round, url, race_name, circuit, date, time, payload } = self;
        match op(payload) {
            Ok(mapped) => Ok(Race::<U> { season, round, url, race_name, circuit, date, time, payload: mapped }),
            Err(e) => Err(e),
        }
    }

    /// Maps this race's payload, keeping all its other fields.
    pub fn map<U, F>(self, op: F) -> (r: Race<U>)
        where
            F: FnOnce(T) -> U,
        requires
            call_requires(op, (self.payload,)),
        ensures
            race_info(r) == race_info(self),
            call_ensures(op, (self.payload,), r.payload),
    {
        let Race { season, round, url, race_name, circuit, date, time, payload } = self;
        let mapped = op(payload);
        Race::<U> { season, round, url, race_name, circuit, date, time, payload: mapped }
    }

    /// Creates a race with the information of `race` and the given payload.
    pub fn from<U>(race: Race<U>, payload: T) -> (r: Self)
        ensures
            race_info(r) == race_info(race),
            r.payload == payload,
    {
        let Race { season, round, url, race_name, circuit, date, time, payload: _ } = race;
        Race { season, round, url, race_name, circuit, date, time, payload }
    }
}

impl Race<Schedule> {
    /// The schedule of this race weekend.
    pub fn schedule(&self) -> (r: &Schedule)
        ensures
            *r == self.payload,
    {
        &self.payload
    }

    /// Extracts the schedule of this race weekend.
    pub fn into_schedule(self) -> (r: Schedule)
        ensures
            r == self.payload,
    {
        self.payload
    }
}

impl Race<Vec<QualifyingResult>> {
    /// The results of this race weekend's session.
    pub fn qualifying_results(&self) -> (r: &[QualifyingResult])
        ensures
            r@ == self.payload@,
    {
        self.payload.as_slice()
    }

    /// Extracts the results of this race weekend's session.
    pub fn into_qualifying_results(self) -> (r: Vec<QualifyingResult>)
        ensures
            r@ == self.payload@,
    {
        self.payload
    }
}

impl Race<QualifyingResult> {
    /// The single result of this race weekend's session.
    pub fn qualifying_result(&self) -> (r: &QualifyingResult)
        ensures
            *r == self.payload,
    {
        &self.payload
    }

    /// Extracts the single result of this race weekend's session.
    pub fn into_qualifying_result(self) -> (r: QualifyingResult)
        ensures
            r == self.payload,
    {
        self.payload
    }
}

impl Race<Vec<SprintResult>> {
    /// The results of this race weekend's session.
    pub fn sprint_results(&self) -> (r: &[SprintResult])
        ensures
            r@ == self.payload@,
    {
        self.payload.as_slice()
    }

    /// Extracts the results of this race weekend's session.
    pub fn into_sprint_results(self) -> (r: Vec<SprintResult>)
        ensures
            r@ == self.payload@,
    {
        self.payload
    }
}

impl Race<SprintResult> {
    /// The single result of this race weekend's session.
    pub fn sprint_result(&self) -> (r: &SprintResult)
        ensures
            *r == self.payload,
    {
        &self.payload
    }

    /// Extracts the single result of this race weekend's session.
    pub fn into_sprint_result(self) -> (r: SprintResult)
        ensures
            r == self.payload,
    {
        self.payload
    }
}

impl Race<Vec<RaceResult>> {
    /// The results of this race weekend's session.
    pub fn race_results(&self) -> (r: &[RaceResult])
        ensures
            r@ == self.payload@,
    {
        self.payload.as_slice()
    }

    /// Extracts the results of this race weekend's session.
    pub fn into_race_results(self) -> (r: Vec<RaceResult>)
        ensures
            r@ == self.payload@,
    {
        self.payload
    }
}

impl Race<RaceResult> {
    /// The single result of this race weekend's session.
    pub fn race_result(&self) -> (r: &RaceResult)
        ensures
            *r == self.payload,
    {
        &self.payload
    }

    /// Extracts the single result of this race weekend's session.
    pub fn into_race_result(self) -> (r: RaceResult)
        ensures
            r == self.payload,
    {
        self.payload
    }
}

/// The list of type `T` that the payload of `race` holds; empty if it is of another variant.
pub open spec fn payload_seq<T: PayloadInnerList>(race: Race) -> Seq<T> {
    match T::inner_of_payload(race.payload@) {
        Some(s) => s,
        None => Seq::empty(),
    }
}

/// Whether the payload of every race in `races` is of the variant that holds a list of `T`.
pub open spec fn all_payloads_hold<T: PayloadInnerList>(races: Seq<Race>) -> bool {
    forall|i: int| 0 <= i < races.len() ==> (#[trigger] T::inner_of_payload(races[i].payload@)) is Some
}

/// Whether the payload of every race in `races` is a schedule.
pub open spec fn all_schedules(races: Seq<Race>) -> bool {
    forall|i: int| 0 <= i < races.len() ==> (#[trigger] races[i].payload@) is Schedule
}

/// Whether `v` holds, in order, the races of `races` with the lists of `T` of their payloads.
pub open spec fn races_with_lists<T: PayloadInnerList>(v: Seq<Race<Vec<T>>>, races: Seq<Race>) -> bool {
    &&& v.len() == races.len()
    &&& forall|i: int|
        0 <= i < races.len() ==> race_info(#[trigger] v[i]) == race_info(races[i]) && v[i].payload@
            == payload_seq::<T>(races[i])
}

/// Whether `v` holds, in order, the races of `races` with the single element of the list of `T`
/// of their payloads.
pub open spec fn races_with_single<T: PayloadInnerList>(v: Seq<Race<T>>, races: Seq<Race>) -> bool {
    &&& v.len() == races.len()
    &&& forall|i: int|
        0 <= i < races.len() ==> race_info(#[trigger] v[i]) == race_info(races[i]) && payload_seq::<T>(
            races[i],
        ) == seq![v[i].payload]
}

/// Whether `v` holds, in order, the races of `races` with their schedules.
pub open spec fn races_with_schedules(v: Seq<Race<Schedule>>, races: Seq<Race>) -> bool {
    &&& v.len() == races.len()
    &&& forall|i: int|
        0 <= i < races.len() ==> race_info(#[trigger] v[i]) == race_info(races[i]) && races[i].payload@
            == PayloadView::Schedule(v[i].payload)
}

/// The error of a list that should hold exactly one element but holds `n`.
pub open spec fn count_error(n: nat) -> F1Error {
    if n == 0 {
        F1Error::NotFound
    } else {
        F1Error::TooMany
    }
}

/// Whether the list of `T` of every race in `races` holds exactly one element.
pub open spec fn all_single<T: PayloadInnerList>(races: Seq<Race>) -> bool {
    forall|i: int| 0 <= i < races.len() ==> (#[trigger] payload_seq::<T>(races[i])).len() == 1
}

/// Whether `k` is the first race in `races` whose list of `T` does not hold exactly one element.
pub open spec fn first_not_single<T: PayloadInnerList>(races: Seq<Race>, k: int) -> bool {
    &&& 0 <= k < races.len()
    &&& payload_seq::<T>(races[k]).len() != 1
    &&& forall|j: int| 0 <= j < k ==> (#[trigger] payload_seq::<T>(races[j])).len() == 1
}

/// The single race of a table: [`F1Error::BadTableVariant`] if it is not a list of races.
pub open spec fn one_race(table: TableView) -> std::result::Result<Race, F1Error> {
    match table {
        TableView::Races(races) => single(races),
        _ => Err(F1Error::BadTableVariant),
    }
}

/// Extracts the single race of a response: [`F1Error::BadTableVariant`] if its table is not a
/// list of races, [`F1Error::NotFound`] or [`F1Error::TooMany`] if it does not hold exactly one.
pub fn verify_has_one_race_and_extract(response: Response) -> (r: Result<Race>)
    ensures
        r == one_race(response.table@),
{
    match response.table.into_races() {
        Ok(races) => verify_has_one_element_and_extract(races),
        Err(_) => Err(F1Error::BadTableVariant),
    }
}

/// Whether `r` is what the laps `laps` give as laps of the driver `driver_id`: each lap's driver
/// lap, or the error of the first lap that does not hold the single timing of the driver.
pub open spec fn driver_laps_outcome(laps: Seq<Lap>, driver_id: Seq<char>, r: Result<Vec<DriverLap>>) -> bool {
    if forall|i: int| 0 <= i < laps.len() ==> lap_of_driver(#[trigger] laps[i], driver_id) {
        r matches Ok(v) && v@.len() == laps.len() && forall|i: int|
            #![trigger v@[i]]
            0 <= i < laps.len() ==> driver_lap_outcome(laps[i], driver_id, Ok::<DriverLap, F1Error>(v@[i]))
    } else {
        exists|k: int|
            #![trigger first_lap_not_of_driver(laps, driver_id, k)]
            {
                &&& first_lap_not_of_driver(laps, driver_id, k)
                &&& r matches Err(e)
                &&& driver_lap_outcome(laps[k], driver_id, Err::<DriverLap, F1Error>(e))
            }
    }
}

/// Every driver lap that the laps of a driver give holds the number of its lap, and the position
/// and time of that lap's single timing, which is the driver's; and when the laps give an error,
/// some lap does not hold the driver's single timing.
pub proof fn law_driver_laps_fields(laps: Seq<Lap>, driver_id: Seq<char>, r: Result<Vec<DriverLap>>)
    requires
        driver_laps_outcome(laps, driver_id, r),
    ensures
        r matches Ok(v) ==> v@.len() == laps.len() && forall|i: int|
            #![trigger v@[i]]
            0 <= i < laps.len() ==> {
                &&& laps[i].timings@.len() == 1
                &&& laps[i].timings@[0].driver_id@ == driver_id
                &&& v@[i].number == laps[i].number
                &&& v@[i].position == laps[i].timings@[0].position
                &&& v@[i].time == laps[i].timings@[0].time
            },
        r is Err ==> exists|k: int|
            0 <= k < laps.len() && !(#[trigger] laps[k].timings@.len() == 1
                && laps[k].timings@[0].driver_id@ == driver_id),
{
    if r is Ok {
        let v = r->Ok_0;
        assert forall|i: int| 0 <= i < laps.len() implies {
            &&& laps[i].timings@.len() == 1
            &&& laps[i].timings@[0].driver_id@ == driver_id
            &&& v@[i].number == laps[i].number
            &&& v@[i].position == laps[i].timings@[0].position
            &&& v@[i].time == laps[i].timings@[0].time
        } by {
            assert(lap_of_driver(laps[i], driver_id));
            assert(driver_lap_outcome(laps[i], driver_id, Ok::<DriverLap, F1Error>(v@[i])));
        }
    } else {
        let k = choose|k: int| first_lap_not_of_driver(laps, driver_id, k);
        assert(!lap_of_driver(laps[k], driver_id));
    }
}

/// Maps each lap to the lap of the driver `driver_id`, stopping at the first error of
/// [`DriverLap::try_from`].
fn driver_laps_of(laps: Vec<Lap>, driver_id: &DriverID) -> (r: Result<Vec<DriverLap>>)
    ensures
        driver_laps_outcome(laps@, driver_id@, r),
{
    let ghost ls = laps@;
    let mut out: Vec<DriverLap> = Vec::new();
    for lap in it: laps.into_iter()
        invariant
            it.seq() == ls,
            out@.len() == it.index(),
            forall|i: int| 0 <= i < it.index() ==> lap_of_driver(#[trigger] ls[i], driver_id@),
            forall|i: int| 0 <= i < it.index() ==> #[trigger] out@[i] == driver_lap_of(ls[i]),
    {
        let ghost k = it.index();
        assert(lap == ls[k]);
        match DriverLap::try_from(lap, driver_id) {
            Ok(driver_lap) => {
                out.push(driver_lap);
            },
            Err(e) => {
                assert(first_lap_not_of_driver(ls, driver_id@, k as int));
                return Err(e);
            },
        }
    }
    Ok(out)
}

impl Response {
    /// References to all the fields of this response except its pagination and table, to
    /// compare the metadata of responses while ignoring their data.
    pub fn as_info(&self) -> (r: (&String, &String, &String))
        ensures
            *r.0 == self.xmlns,
            *r.1 == self.series,
            *r.2 == self.url,
    {
        (&self.xmlns, &self.series, &self.url)
    }

    /// Copies of all the fields of this response except its pagination and table.
    pub fn to_info(&self) -> (r: (String, String, String))
        ensures
            r == (self.xmlns, self.series, self.url),
    {
        (self.xmlns.clone(), self.series.clone(), self.url.clone())
    }

    /// Extracts the inner list of the [`Table`] variant that holds `T`, e.g. the seasons of a
    /// [`Table::Seasons`] for `T = Season`; [`F1Error::BadTableVariant`] for another variant.
    pub fn into_table_list<T: TableInnerList>(self) -> (r: Result<Vec<T>>)
        ensures
            seq_result(r) == table_list::<T>(self.table@),
    {
        T::try_into_inner_from(self.table)
    }

    /// Extracts the single element of the inner list of the [`Table`] variant that holds `T`:
    /// [`F1Error::BadTableVariant`] for another variant, [`F1Error::NotFound`] or
    /// [`F1Error::TooMany`] if the list does not hold exactly one element.
    pub fn into_single_table_list_element<T: TableInnerList>(self) -> (r: Result<T>)
        ensures
            r == single_of(table_list::<T>(self.table@)),
    {
        match self.into_table_list::<T>() {
            Ok(v) => verify_has_one_element_and_extract(v),
            Err(e) => Err(e),
        }
    }

    /// A reference to the inner list of the [`Table`] variant that holds `T`;
    /// [`F1Error::BadTableVariant`] for another variant.
    pub fn as_table_list<T: TableInnerList>(&self) -> (r: Result<&Vec<T>>)
        ensures
            match table_list::<T>(self.table@) {
                Ok(s) => r matches Ok(v) && v@ == s,
                Err(e) => r matches Err(e2) && e2 == e,
            },
    {
        T::try_as_inner_from(&self.table)
    }

    /// A reference to the single element of the inner list of the [`Table`] variant that holds
    /// `T`, with the errors of [`Response::into_single_table_list_element`].
    pub fn as_single_table_list_element<T: TableInnerList>(&self) -> (r: Result<&T>)
        ensures
            match single_of(table_list::<T>(self.table@)) {
                Ok(x) => r matches Ok(y) && *y == x,
                Err(e) => r matches Err(e2) && e2 == e,
            },
    {
        match self.as_table_list::<T>() {
            Ok(v) => match verify_has_one_element(v.as_slice()) {
                Ok(s) => Ok(&s[0]),
                Err(e) => Err(e),
            },
            Err(e) => Err(e),
        }
    }

    /// Extracts the races of a [`Table::Races`] with their schedules:
    /// [`F1Error::BadTableVariant`] for another table variant, [`F1Error::BadPayloadVariant`] if a
    /// race's payload is not a [`Payload::Schedule`].
    pub fn into_race_schedules(self) -> (r: Result<Vec<Race<Schedule>>>)
        ensures
            match self.table@ {
                TableView::Races(races) => if all_schedules(races) {
                    r matches Ok(v) && races_with_schedules(v@, races)
                } else {
                    r matches Err(F1Error::BadPayloadVariant)
                },
                _ => r matches Err(F1Error::BadTableVariant),
            },
    {
        let ghost table = self.table@;
        let races = match self.table {
            Table::Races { races } => races,
            _ => {
                return Err(F1Error::BadTableVariant);
            },
        };
        let ghost rs = races@;
        assert(table == TableView::Races(rs));
        let mut out: Vec<Race<Schedule>> = Vec::new();
        for race in it: races.into_iter()
            invariant
                it.seq() == rs,
                table == self.table@,
                table == TableView::Races(rs),
                out@.len() == it.index(),
                forall|i: int|
                    0 <= i < it.index() ==> race_info(#[trigger] out@[i]) == race_info(rs[i])
                        && rs[i].payload@ == PayloadView::Schedule(out@[i].payload),
        {
            let ghost k = it.index();
            assert(race == rs[k]);
            let Race { season, round, url, race_name, circuit, date, time, payload } = race;
            match payload {
                Payload::Schedule(schedule) => {
                    out.push(Race { season, round, url, race_name, circuit, date, time, payload: schedule });
                },
                _ => {
                    assert(!(rs[k].payload@ is Schedule));
                    return Err(F1Error::BadPayloadVariant);
                },
            }
        }
        assert(all_schedules(rs)) by {
            assert forall|i: int| 0 <= i < rs.len() implies (#[trigger] rs[i].payload@) is Schedule by {
                assert(race_info(out@[i]) == race_info(rs[i]));
            }
        }
        Ok(out)
    }

    /// Extracts the single race of a [`Table::Races`] with its schedule, with the errors of
    /// [`Response::into_race_schedules`], then [`F1Error::NotFound`] or [`F1Error::TooMany`] if
    /// there is not exactly one race.
    pub fn into_race_schedule(self) -> (r: Result<Race<Schedule>>)
        ensures
            match self.table@ {
                TableView::Races(races) => if !all_schedules(races) {
                    r matches Err(F1Error::BadPayloadVariant)
                } else if races.len() != 1 {
                    r == Err::<Race<Schedule>, F1Error>(count_error(races.len()))
                } else {
                    r matches Ok(race) && race_info(race) == race_info(races[0]) && races[0].payload@
                        == PayloadView::Schedule(race.payload)
                },
                _ => r matches Err(F1Error::BadTableVariant),
            },
    {
        match self.into_race_schedules() {
            Ok(v) => verify_has_one_element_and_extract(v),
            Err(e) => Err(e),
        }
    }

    /// Extracts the races of a [`Table::Races`], each with the list of `T` of its payload, e.g.
    /// the race results for `T = RaceResult`: [`F1Error::BadTableVariant`] for another table
    /// variant, [`F1Error::BadPayloadVariant`] if a race's payload is not the variant of `T`.
    pub fn into_many_races_with_many_session_results<T: PayloadInnerList>(self) -> (r: Result<
        Vec<Race<Vec<T>>>,
    >)
        ensures
            match self.table@ {
                TableView::Races(races) => if all_payloads_hold::<T>(races) {
                    r matches Ok(v) && races_with_lists(v@, races)
                } else {
                    r matches Err(F1Error::BadPayloadVariant)
                },
                _ => r matches Err(F1Error::BadTableVariant),
            },
    {
        let ghost table = self.table@;
        let races = match self.table {
            Table::Races { races } => races,
            _ => {
                return Err(F1Error::BadTableVariant);
            },
        };
        let ghost rs = races@;
        let mut out: Vec<Race<Vec<T>>> = Vec::new();
        for race in it: races.into_iter()
            invariant
                it.seq() == rs,
                table == self.table@,
                table == TableView::Races(rs),
                out@.len() == it.index(),
                forall|i: int|
                    0 <= i < it.index() ==> race_info(#[trigger] out@[i]) == race_info(rs[i])
                        && (T::inner_of_payload(rs[i].payload@) is Some) && out@[i].payload@
                        == payload_seq::<T>(rs[i]),
        {
            let ghost k = it.index();
            assert(race == rs[k]);
            let Race { season, round, url, race_name, circuit, date, time, payload } = race;
            match T::try_into_inner_from(payload) {
                Ok(list) => {
                    out.push(Race { season, round, url, race_name, circuit, date, time, payload: list });
                },
                Err(e) => {
                    assert(!(T::inner_of_payload(rs[k].payload@) is Some));
                    return Err(e);
                },
            }
        }
        assert(all_payloads_hold::<T>(rs)) by {
            assert forall|i: int| 0 <= i < rs.len() implies (#[trigger] T::inner_of_payload(
                rs[i].payload@,
            )) is Some by {
                assert(race_info(out@[i]) == race_info(rs[i]));
            }
        }
        Ok(out)
    }

    /// Extracts the single race of a [`Table::Races`] with the list of `T` of its payload, with
    /// the errors of [`Response::into_many_races_with_many_session_results`], then
    /// [`F1Error::NotFound`] or [`F1Error::TooMany`] if there is not exactly one race.
    pub fn into_one_race_with_many_session_results<T: PayloadInnerList>(self) -> (r: Result<
        Race<Vec<T>>,
    >)
        ensures
            match self.table@ {
                TableView::Races(races) => if !all_payloads_hold::<T>(races) {
                    r matches Err(F1Error::BadPayloadVariant)
                } else if races.len() != 1 {
                    r == Err::<Race<Vec<T>>, F1Error>(count_error(races.len()))
                } else {
                    r matches Ok(race) && race_info(race) == race_info(races[0]) && race.payload@
                        == payload_seq::<T>(races[0])
                },
                _ => r matches Err(F1Error::BadTableVariant),
            },
    {
        match self.into_many_races_with_many_session_results::<T>() {
            Ok(v) => verify_has_one_element_and_extract(v),
            Err(e) => Err(e),
        }
    }

    /// Extracts the races of a [`Table::Races`], each with the single element of the list of
    /// `T` of its payload, with the errors of
    /// [`Response::into_many_races_with_many_session_results`], then [`F1Error::NotFound`] or
    /// [`F1Error::TooMany`] for the first race whose list does not hold exactly one element.
    pub fn into_many_races_with_one_session_result<T: PayloadInnerList>(self) -> (r: Result<
        Vec<Race<T>>,
    >)
        ensures
            match self.table@ {
                TableView::Races(races) => if !all_payloads_hold::<T>(races) {
                    r matches Err(F1Error::BadPayloadVariant)
                } else if all_single::<T>(races) {
                    r matches Ok(v) && races_with_single(v@, races)
                } else {
                    exists|k: int|
                        first_not_single::<T>(races, k) && r == Err::<Vec<Race<T>>, F1Error>(
                            count_error(payload_seq::<T>(races[k]).len()),
                        )
                },
                _ => r matches Err(F1Error::BadTableVariant),
            },
    {
        let ghost table = self.table@;
        let many = match self.into_many_races_with_many_session_results::<T>() {
            Ok(v) => v,
            Err(e) => {
                return Err(e);
            },
        };
        let ghost rs = match table {
            TableView::Races(races) => races,
            _ => Seq::empty(),
        };
        let ghost ms = many@;
        let mut out: Vec<Race<T>> = Vec::new();
        for race in it: many.into_iter()
            invariant
                it.seq() == ms,
                table == self.table@,
                table == TableView::Races(rs),
                all_payloads_hold::<T>(rs),
                races_with_lists(ms, rs),
                out@.len() == it.index(),
                forall|i: int|
                    0 <= i < it.index() ==> race_info(#[trigger] out@[i]) == race_info(rs[i])
                        && payload_seq::<T>(rs[i]) == seq![out@[i].payload],
        {
            let ghost k = it.index();
            assert(race == ms[k]);
            assert(race_info(ms[k]) == race_info(rs[k]));
            let Race { season, round, url, race_name, circuit, date, time, payload } = race;
            match verify_has_one_element_and_extract(payload) {
                Ok(one) => {
                    assert(payload_seq::<T>(rs[k]) =~= seq![one]);
                    out.push(Race { season, round, url, race_name, circuit, date, time, payload: one });
                },
                Err(e) => {
                    assert(first_not_single::<T>(rs, k)) by {
                        assert forall|j: int| 0 <= j < k implies (#[trigger] payload_seq::<T>(
                            rs[j],
                        )).len() == 1 by {
                            assert(race_info(out@[j]) == race_info(rs[j]));
                        }
                    }
                    return Err(e);
                },
            }
        }
        assert(all_single::<T>(rs)) by {
            assert forall|i: int| 0 <= i < rs.len() implies (#[trigger] payload_seq::<T>(
                rs[i],
            )).len() == 1 by {
                assert(race_info(out@[i]) == race_info(rs[i]));
            }
        }
        Ok(out)
    }

    /// Extracts the single race of a [`Table::Races`] with the single element of the list of `T`
    /// of its payload, with the errors of
    /// [`Response::into_many_races_with_one_session_result`], then [`F1Error::NotFound`] or
    /// [`F1Error::TooMany`] if there is not exactly one race.
    pub fn into_one_race_with_one_session_result<T: PayloadInnerList>(self) -> (r: Result<Race<T>>)
        ensures
            match self.table@ {
                TableView::Races(races) => if !all_payloads_hold::<T>(races) {
                    r matches Err(F1Error::BadPayloadVariant)
                } else if !all_single::<T>(races) {
                    exists|k: int|
                        first_not_single::<T>(races, k) && r == Err::<Race<T>, F1Error>(
                            count_error(payload_seq::<T>(races[k]).len()),
                        )
                } else if races.len() != 1 {
                    r == Err::<Race<T>, F1Error>(count_error(races.len()))
                } else {
                    r matches Ok(race) && race_info(race) == race_info(races[0]) && payload_seq::<T>(
                        races[0],
                    ) == seq![race.payload]
                },
                _ => r matches Err(F1Error::BadTableVariant),
            },
    {
        match self.into_many_races_with_one_session_result::<T>() {
            Ok(v) => verify_has_one_element_and_extract(v),
            Err(e) => Err(e),
        }
    }

    /// Extracts the laps of the single race of this response as the laps of the driver
    /// `driver_id`: the errors of [`verify_has_one_race_and_extract`], then
    /// [`F1Error::BadPayloadVariant`] if the race's payload is not [`Payload::Laps`], then the
    /// error of [`DriverLap::try_from`] for the first lap that is not of the driver alone.
    pub fn into_driver_laps(self, driver_id: &DriverID) -> (r: Result<Vec<DriverLap>>)
        ensures
            match one_race(self.table@) {
                Err(e) => r == Err::<Vec<DriverLap>, F1Error>(e),
                Ok(race) => match race.payload@ {
                    PayloadView::Laps(laps) => driver_laps_outcome(laps, driver_id@, r),
                    _ => r matches Err(F1Error::BadPayloadVariant),
                },
            },
    {
        let race = match verify_has_one_race_and_extract(self) {
            Ok(race) => race,
            Err(e) => {
                return Err(e);
            },
        };
        match race.payload.into_laps() {
            Ok(laps) => driver_laps_of(laps, driver_id),
            Err(_) => Err(F1Error::BadPayloadVariant),
        }
    }

    /// Extracts the timings of the single lap of the single race of this response: the errors of
    /// [`verify_has_one_race_and_extract`], then [`F1Error::BadPayloadVariant`] if the race's
    /// payload is not [`Payload::Laps`], then [`F1Error::NotFound`] or [`F1Error::TooMany`] if
    /// it does not hold exactly one lap.
    pub fn into_lap_timings(self) -> (r: Result<Vec<Timing>>)
        ensures
            match one_race(self.table@) {
                Err(e) => r == Err::<Vec<Timing>, F1Error>(e),
                Ok(race) => match race.payload@ {
                    PayloadView::Laps(laps) => match single(laps) {
                        Ok(lap) => r matches Ok(v) && v@ == lap.timings@,
                        Err(e) => r == Err::<Vec<Timing>, F1Error>(e),
                    },
                    _ => r matches Err(F1Error::BadPayloadVariant),
                },
            },
    {
        let race = match verify_has_one_race_and_extract(self) {
            Ok(race) => race,
            Err(e) => {
                return Err(e);
            },
        };
        match race.payload.into_laps() {
            Ok(laps) => match verify_has_one_element_and_extract(laps) {
                Ok(lap) => Ok(lap.timings),
                Err(e) => Err(e),
            },
            Err(_) => Err(F1Error::BadPayloadVariant),
        }
    }

    /// Extracts the pit stops of the single race of this response: the errors of
    /// [`verify_has_one_race_and_extract`], then [`F1Error::BadPayloadVariant`] if the race's
    /// payload is not [`Payload::PitStops`].
    pub fn into_pit_stops(self) -> (r: Result<Vec<PitStop>>)
        ensures
            match one_race(self.table@) {
                Err(e) => r == Err::<Vec<PitStop>, F1Error>(e),
                Ok(race) => match race.payload@ {
                    PayloadView::PitStops(stops) => r matches Ok(v) && v@ == stops,
                    _ => r matches Err(F1Error::BadPayloadVariant),
                },
            },
    {
        let race = match verify_has_one_race_and_extract(self) {
            Ok(race) => race,
            Err(e) => {
                return Err(e);
            },
        };
        match race.payload.into_pit_stops() {
            Ok(stops) => Ok(stops),
            Err(_) => Err(F1Error::BadPayloadVariant),
        }
    }

    /// Extracts the list of a table of [`Season`]s; see [`Response::into_table_list`].
    pub fn into_seasons(self) -> (r: Result<Vec<Season>>)
        ensures
            seq_result(r) == table_list::<Season>(self.table@),
    {
        self.into_table_list::<Season>()
    }

    /// Extracts the single [`Season`] of a table; see [`Response::into_single_table_list_element`].
    pub fn into_season(self) -> (r: Result<Season>)
        ensures
            r == single_of(table_list::<Season>(self.table@)),
    {
        self.into_single_table_list_element::<Season>()
    }

    /// A reference to the list of a table of [`Season`]s; see [`Response::as_table_list`].
    pub fn as_seasons(&self) -> (r: Result<&Vec<Season>>)
        ensures
            match table_list::<Season>(self.table@) {
                Ok(s) => r matches Ok(v) && v@ == s,
                Err(e) => r matches Err(e2) && e2 == e,
            },
    {
        self.as_table_list::<Season>()
    }

    /// A reference to the single [`Season`] of a table; see
    /// [`Response::as_single_table_list_element`].
    pub fn as_season(&self) -> (r: Result<&Season>)
        ensures
            match single_of(table_list::<Season>(self.table@)) {
                Ok(x) => r matches Ok(y) && *y == x,
                Err(e) => r matches Err(e2) && e2 == e,
            },
    {
        self.as_single_table_list_element::<Season>()
    }

    /// Extracts the list of a table of [`Driver`]s; see [`Response::into_table_list`].
    pub fn into_drivers(self) -> (r: Result<Vec<Driver>>)
        ensures
            seq_result(r) == table_list::<Driver>(self.table@),
    {
        self.into_table_list::<Driver>()
    }

    /// Extracts the single [`Driver`] of a table; see [`Response::into_single_table_list_element`].
    pub fn into_driver(self) -> (r: Result<Driver>)
        ensures
            r == single_of(table_list::<Driver>(self.table@)),
    {
        self.into_single_table_list_element::<Driver>()
    }

    /// A reference to the list of a table of [`Driver`]s; see [`Response::as_table_list`].
    pub fn as_drivers(&self) -> (r: Result<&Vec<Driver>>)
        ensures
            match table_list::<Driver>(self.table@) {
                Ok(s) => r matches Ok(v) && v@ == s,
                Err(e) => r matches Err(e2) && e2 == e,
            },
    {
        self.as_table_list::<Driver>()
    }

    /// A reference to the single [`Driver`] of a table; see
    /// [`Response::as_single_table_list_element`].
    pub fn as_driver(&self) -> (r: Result<&Driver>)
        ensures
            match single_of(table_list::<Driver>(self.table@)) {
                Ok(x) => r matches Ok(y) && *y == x,
                Err(e) => r matches Err(e2) && e2 == e,
            },
    {
        self.as_single_table_list_element::<Driver>()
    }

    /// Extracts the list of a table of [`Constructor`]s; see [`Response::into_table_list`].
    pub fn into_constructors(self) -> (r: Result<Vec<Constructor>>)
        ensures
            seq_result(r) == table_list::<Constructor>(self.table@),
    {
        self.into_table_list::<Constructor>()
    }

    /// Extracts the single [`Constructor`] of a table; see [`Response::into_single_table_list_element`].
    pub fn into_constructor(self) -> (r: Result<Constructor>)
        ensures
            r == single_of(table_list::<Constructor>(self.table@)),
    {
        self.into_single_table_list_element::<Constructor>()
    }

    /// A reference to the list of a table of [`Constructor`]s; see [`Response::as_table_list`].
    pub fn as_constructors(&self) -> (r: Result<&Vec<Constructor>>)
        ensures
            match table_list::<Constructor>(self.table@) {
                Ok(s) => r matches Ok(v) && v@ == s,
                Err(e) => r matches Err(e2) && e2 == e,
            },
    {
        self.as_table_list::<Constructor>()
    }

    /// A reference to the single [`Constructor`] of a table; see
    /// [`Response::as_single_table_list_element`].
    pub fn as_constructor(&self) -> (r: Result<&Constructor>)
        ensures
            match single_of(table_list::<Constructor>(self.table@)) {
                Ok(x) => r matches Ok(y) && *y == x,
                Err(e) => r matches Err(e2) && e2 == e,
            },
    {
        self.as_single_table_list_element::<Constructor>()
    }

    /// Extracts the list of a table of [`Circuit`]s; see [`Response::into_table_list`].
    pub fn into_circuits(self) -> (r: Result<Vec<Circuit>>)
        ensures
            seq_result(r) == table_list::<Circuit>(self.table@),
    {
        self.into_table_list::<Circuit>()
    }

    /// Extracts the single [`Circuit`] of a table; see [`Response::into_single_table_list_element`].
    pub fn into_circuit(self) -> (r: Result<Circuit>)
        ensures
            r == single_of(table_list::<Circuit>(self.table@)),
    {
        self.into_single_table_list_element::<Circuit>()
    }

    /// A reference to the list of a table of [`Circuit`]s; see [`Response::as_table_list`].
    pub fn as_circuits(&self) -> (r: Result<&Vec<Circuit>>)
        ensures
            match table_list::<Circuit>(self.table@) {
                Ok(s) => r matches Ok(v) && v@ == s,
                Err(e) => r matches Err(e2) && e2 == e,
            },
    {
        self.as_table_list::<Circuit>()
    }

    /// A reference to the single [`Circuit`] of a table; see
    /// [`Response::as_single_table_list_element`].
    pub fn as_circuit(&self) -> (r: Result<&Circuit>)
        ensures
            match single_of(table_list::<Circuit>(self.table@)) {
                Ok(x) => r matches Ok(y) && *y == x,
                Err(e) => r matches Err(e2) && e2 == e,
            },
    {
        self.as_single_table_list_element::<Circuit>()
    }

    /// Extracts the list of a table of [`Status`]s; see [`Response::into_table_list`].
    pub fn into_statuses(self) -> (r: Result<Vec<Status>>)
        ensures
            seq_result(r) == table_list::<Status>(self.table@),
    {
        self.into_table_list::<Status>()
    }

    /// Extracts the single [`Status`] of a table; see [`Response::into_single_table_list_element`].
    pub fn into_status(self) -> (r: Result<Status>)
        ensures
            r == single_of(table_list::<Status>(self.table@)),
    {
        self.into_single_table_list_element::<Status>()
    }

    /// A reference to the list of a table of [`Status`]s; see [`Response::as_table_list`].
    pub fn as_statuses(&self) -> (r: Result<&Vec<Status>>)
        ensures
            match table_list::<Status>(self.table@) {
                Ok(s) => r matches Ok(v) && v@ == s,
                Err(e) => r matches Err(e2) && e2 == e,
            },
    {
        self.as_table_list::<Status>()
    }

    /// A reference to the single [`Status`] of a table; see
    /// [`Response::as_single_table_list_element`].
    pub fn as_status(&self) -> (r: Result<&Status>)
        ensures
            match single_of(table_list::<Status>(self.table@)) {
                Ok(x) => r matches Ok(y) && *y == x,
                Err(e) => r matches Err(e2) && e2 == e,
            },
    {
        self.as_single_table_list_element::<Status>()
    }

    /// Extracts the list of a table of [`Race`]s; see [`Response::into_table_list`].
    pub fn into_races(self) -> (r: Result<Vec<Race>>)
        ensures
            seq_result(r) == table_list::<Race>(self.table@),
    {
        self.into_table_list::<Race>()
    }

    /// Extracts the single [`Race`] of a table; see [`Response::into_single_table_list_element`].
    pub fn into_race(self) -> (r: Result<Race>)
        ensures
            r == single_of(table_list::<Race>(self.table@)),
    {
        self.into_single_table_list_element::<Race>()
    }

    /// A reference to the list of a table of [`Race`]s; see [`Response::as_table_list`].
    pub fn as_races(&self) -> (r: Result<&Vec<Race>>)
        ensures
            match table_list::<Race>(self.table@) {
                Ok(s) => r matches Ok(v) && v@ == s,
                Err(e) => r matches Err(e2) && e2 == e,
            },
    {
        self.as_table_list::<Race>()
    }

    /// A reference to the single [`Race`] of a table; see
    /// [`Response::as_single_table_list_element`].
    pub fn as_race(&self) -> (r: Result<&Race>)
        ensures
            match single_of(table_list::<Race>(self.table@)) {
                Ok(x) => r matches Ok(y) && *y == x,
                Err(e) => r matches Err(e2) && e2 == e,
            },
    {
        self.as_single_table_list_element::<Race>()
    }
}

/// Verifies that a response is its only page: [`F1Error::MultiPage`] when there are more.
pub fn verify_is_single_page(response: Response) -> (r: Result<Response>)
    requires
        response.pagination.offset + response.pagination.limit <= u32::MAX,
    ensures
        response.pagination.offset == 0 && last_page(response.pagination) ==> r == Ok::<
            Response,
            F1Error,
        >(response),
        !(response.pagination.offset == 0 && last_page(response.pagination)) ==> r matches Err(
            F1Error::MultiPage,
        ),
{
    if response.pagination.is_single_page() {
        Ok(response)
    } else {
        Err(F1Error::MultiPage)
    }
}

/// Whether two races have the same information, whatever their payloads. Coordinates are
/// compared by [`coordinate_key`], so that zero equals negative zero and a NaN equals a NaN.
pub fn eq_race_info<T, U>(lhs: &Race<T>, rhs: &Race<U>) -> (r: bool)
    ensures
        r == (lhs.season == rhs.season && lhs.round == rhs.round && lhs.url@ == rhs.url@
            && lhs.race_name@ == rhs.race_name@ && lhs.circuit.circuit_id@ == rhs.circuit.circuit_id@
            && lhs.circuit.url@ == rhs.circuit.url@ && lhs.circuit.circuit_name@
            == rhs.circuit.circuit_name@ && coordinate_key(lhs.circuit.location.lat)
            == coordinate_key(rhs.circuit.location.lat) && coordinate_key(lhs.circuit.location.long)
            == coordinate_key(rhs.circuit.location.long)
            && lhs.circuit.location.locality@ == rhs.circuit.location.locality@
            && lhs.circuit.location.country@ == rhs.circuit.location.country@ && lhs.date
            == rhs.date && lhs.time == rhs.time),
{
    lhs.season == rhs.season && lhs.round == rhs.round && lhs.url == rhs.url && lhs.race_name
        == rhs.race_name && lhs.circuit.circuit_id == rhs.circuit.circuit_id && lhs.circuit.url
        == rhs.circuit.url && lhs.circuit.circuit_name == rhs.circuit.circuit_name
        && canonical_coordinate(lhs.circuit.location.lat) == canonical_coordinate(
        rhs.circuit.location.lat,
    ) && canonical_coordinate(lhs.circuit.location.long) == canonical_coordinate(
        rhs.circuit.location.long,
    ) && lhs.circuit.location.locality == rhs.circuit.location.locality
        && lhs.circuit.location.country == rhs.circuit.location.country && lhs.date == rhs.date
        && lhs.time == rhs.time
}

} // verus!
