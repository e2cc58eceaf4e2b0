//! Types to identify the [`Resource`]s and [`Filters`] that can be requested from the
//! [jolpica-f1](https://github.com/jolpica/jolpica-f1) API, and the endpoint paths and URLs that
//! request them.

use vstd::prelude::*;

use crate::api::{
    JOLPICA_API_BASE_URL, JOLPICA_API_DEFAULT_LIMIT, JOLPICA_API_DEFAULT_OFFSET,
    JOLPICA_API_MAX_LIMIT,
};
use crate::response::{following_page, Pagination};
use crate::id::{CircuitID, ConstructorID, DriverID, RoundID, SeasonID, StatusID};
use crate::text::{all_digits, decimal_text, lemma_decimal_text_digits, u32_to_text};

verus! {

/// Each variant of the [`Resource`] enumeration represents a given resource that can be requested
/// from the jolpica-f1 API, and it contains any options/filters that can be applied to the request.
#[derive(Clone, Debug)]
pub enum Resource {
    /// A list of seasons supported by the API; maps to `/seasons/`.
    SeasonList(Filters),
    /// A list of drivers within the series, and information about them; maps to `/drivers/`.
    DriverInfo(Filters),
    /// A list of constructors within the series; maps to `/constructors/`.
    ConstructorInfo(Filters),
    /// A list of circuits within the series; maps to `/circuits/`.
    CircuitInfo(Filters),
    /// A schedule of races within the series; maps to `/races/`.
    RaceSchedule(Filters),
    /// A list of qualifying results; maps to `/qualifying/`.
    QualifyingResults(Filters),
    /// A list of sprint event results; maps to `/sprint/`.
    SprintResults(Filters),
    /// A list of race results; maps to `/results/`.
    RaceResults(Filters),
    /// A list of finishing status codes; maps to `/status/`.
    FinishingStatus(Filters),
    /// Lap timing data for a given race; maps to `/laps/`.
    LapTimes(LapTimeFilters),
    /// Pit stops data for a given race; maps to `/pitstops/`.
    PitStops(PitStopFilters),
    /// Driver standings; not yet supported.
    DriverStandings,
    /// Constructor standings; not yet supported.
    ConstructorStandings,
}

/// Can be used to filter a given [`Resource`] from the jolpica-f1 API by a number of parameters,
/// identified by the struct fields, all of which are optional and can be set simultaneously.
///
/// [`Filters::round`] being set requires that [`Filters::season`] be set as well, for a round only
/// identifies a race within a season.
#[derive(PartialEq, Eq, Clone, Debug)]
pub struct Filters {
    /// Restrict responses to a given championship season, identified by its year.
    pub season: Option<SeasonID>,
    /// Restrict responses to a specific race, identified by its round index within the season.
    pub round: Option<RoundID>,
    /// Restrict responses to those in which a given driver features.
    pub driver_id: Option<DriverID>,
    /// Restrict responses to those in which a given constructor features.
    pub constructor_id: Option<ConstructorID>,
    /// Restrict responses to those in which a given circuit features.
    pub circuit_id: Option<CircuitID>,
    /// Restrict responses to those with a qualifying result in a given position.
    pub qualifying_pos: Option<u32>,
    /// Restrict responses to those with a race result from a given grid position.
    pub grid_pos: Option<u32>,
    /// Restrict responses to those with a sprint result in a given finishing position.
    pub sprint_pos: Option<u32>,
    /// Restrict responses to those with a race result in a given finishing position.
    pub finish_pos: Option<u32>,
    /// Restrict responses to those with a given fastest lap rank.
    pub fastest_lap_rank: Option<u32>,
    /// Restrict responses to those that feature a given finishing status.
    pub finishing_status: Option<StatusID>,
}

impl Filters {
    /// Value that can be set in [`Filters::grid_pos`] to indicate a pit lane start.
    pub const GRID_PIT_LANE: u32 = 0;

    /// The [`Filters`] with every field set to `None`.
    pub open spec fn none_spec() -> Filters {
        Filters {
            season: None,
            round: None,
            driver_id: None,
            constructor_id: None,
            circuit_id: None,
            qualifying_pos: None,
            grid_pos: None,
            sprint_pos: None,
            finish_pos: None,
            fastest_lap_rank: None,
            finishing_status: None,
        }
    }

    /// Returns a [`Filters`] object with all fields set to `None`, i.e. requesting no filtering.
    /// This method is identical to [`Filters::none`]; both are provided to maximize readability.
    pub fn new() -> (r: Filters)
        ensures
            r == Filters::none_spec(),
    {
        Filters::none()
    }

    /// Returns a [`Filters`] object with all fields set to `None`, i.e. requesting no filtering.
    /// This method is identical to [`Filters::new`]; both are provided to maximize readability.
    pub fn none() -> (r: Filters)
        ensures
            r == Filters::none_spec(),
    {
        Filters {
            season: None,
            round: None,
            driver_id: None,
            constructor_id: None,
            circuit_id: None,
            qualifying_pos: None,
            grid_pos: None,
            sprint_pos: None,
            finish_pos: None,
            fastest_lap_rank: None,
            finishing_status: None,
        }
    }

    /// Field-update method for the `season` field.
    pub fn season(self, season: SeasonID) -> (r: Filters)
        ensures
            r == (Filters { season: Some(season), ..self }),
    {
        Filters { season: Some(season), ..self }
    }

    /// Field-update method for the `round` field.
    pub fn round(self, round: RoundID) -> (r: Filters)
        ensures
            r == (Filters { round: Some(round), ..self }),
    {
        Filters { round: Some(round), ..self }
    }

    /// Field-update method for the `driver_id` field.
    pub fn driver_id(self, driver_id: DriverID) -> (r: Filters)
        ensures
            r == (Filters { driver_id: Some(driver_id), ..self }),
    {
        Filters { driver_id: Some(driver_id), ..self }
    }

    /// Field-update method for the `constructor_id` field.
    pub fn constructor_id(self, constructor_id: ConstructorID) -> (r: Filters)
        ensures
            r == (Filters { constructor_id: Some(constructor_id), ..self }),
    {
        Filters { constructor_id: Some(constructor_id), ..self }
    }

    /// Field-update method for the `circuit_id` field.
    pub fn circuit_id(self, circuit_id: CircuitID) -> (r: Filters)
        ensures
            r == (Filters { circuit_id: Some(circuit_id), ..self }),
    {
        Filters { circuit_id: Some(circuit_id), ..self }
    }

    /// Field-update method for the `qualifying_pos` field.
    pub fn qualifying_pos(self, qualifying_pos: u32) -> (r: Filters)
        ensures
            r == (Filters { qualifying_pos: Some(qualifying_pos), ..self }),
    {
        Filters { qualifying_pos: Some(qualifying_pos), ..self }
    }

    /// Field-update method for the `grid_pos` field.
    pub fn grid_pos(self, grid_pos: u32) -> (r: Filters)
        ensures
            r == (Filters { grid_pos: Some(grid_pos), ..self }),
    {
        Filters { grid_pos: Some(grid_pos), ..self }
    }

    /// Field-update method for the `sprint_pos` field.
    pub fn sprint_pos(self, sprint_pos: u32) -> (r: Filters)
        ensures
            r == (Filters { sprint_pos: Some(sprint_pos), ..self }),
    {
        Filters { sprint_pos: Some(sprint_pos), ..self }
    }

    /// Field-update method for the `finish_pos` field.
    pub fn finish_pos(self, finish_pos: u32) -> (r: Filters)
        ensures
            r == (Filters { finish_pos: Some(finish_pos), ..self }),
    {
        Filters { finish_pos: Some(finish_pos), ..self }
    }

    /// Field-update method for the `fastest_lap_rank` field.
    pub fn fastest_lap_rank(self, fastest_lap_rank: u32) -> (r: Filters)
        ensures
            r == (Filters { fastest_lap_rank: Some(fastest_lap_rank), ..self }),
    {
        Filters { fastest_lap_rank: Some(fastest_lap_rank), ..self }
    }

    /// Field-update method for the `finishing_status` field.
    pub fn finishing_status(self, finishing_status: StatusID) -> (r: Filters)
        ensures
            r == (Filters { finishing_status: Some(finishing_status), ..self }),
    {
        Filters { finishing_status: Some(finishing_status), ..self }
    }

    /// A round is only set together with a season.
    pub open spec fn is_consistent(self) -> bool {
        !(self.round is Some && self.season is None)
    }

    /// The path segments of these filters, in the order in which the API expects them.
    pub open spec fn pairs(self) -> Seq<(PathKey, Seq<char>)> {
        seq![
            (PathKey::Season, opt_u32_text(self.season)),
            (PathKey::Round, opt_u32_text(self.round)),
            (PathKey::Drivers, opt_string_text(self.driver_id)),
            (PathKey::Constructors, opt_string_text(self.constructor_id)),
            (PathKey::Circuits, opt_string_text(self.circuit_id)),
            (PathKey::Qualifying, opt_u32_text(self.qualifying_pos)),
            (PathKey::Grid, opt_u32_text(self.grid_pos)),
            (PathKey::Sprint, opt_u32_text(self.sprint_pos)),
            (PathKey::Results, opt_u32_text(self.finish_pos)),
            (PathKey::Fastest, opt_u32_text(self.fastest_lap_rank)),
            (PathKey::Status, opt_u32_text(self.finishing_status)),
        ]
    }

    /// The path segments of these filters, as `(key, formatted value)` pairs.
    fn to_formatted_pairs(&self) -> (r: Vec<(PathKey, String)>)
        requires
            self.is_consistent(),
        ensures
            pairs_view(r@) == self.pairs(),
    {
        let mut v: Vec<(PathKey, String)> = Vec::new();
        v.push((PathKey::Season, fmt_opt_u32(&self.season)));
        v.push((PathKey::Round, fmt_opt_u32(&self.round)));
        v.push((PathKey::Drivers, fmt_opt_string(&self.driver_id)));
        v.push((PathKey::Constructors, fmt_opt_string(&self.constructor_id)));
        v.push((PathKey::Circuits, fmt_opt_string(&self.circuit_id)));
        v.push((PathKey::Qualifying, fmt_opt_u32(&self.qualifying_pos)));
        v.push((PathKey::Grid, fmt_opt_u32(&self.grid_pos)));
        v.push((PathKey::Sprint, fmt_opt_u32(&self.sprint_pos)));
        v.push((PathKey::Results, fmt_opt_u32(&self.finish_pos)));
        v.push((PathKey::Fastest, fmt_opt_u32(&self.fastest_lap_rank)));
        v.push((PathKey::Status, fmt_opt_u32(&self.finishing_status)));
        assert(pairs_view(v@) =~= self.pairs());
        v
    }
}

/// Can be used to filter [`Resource::LapTimes`] by a number of required and optional parameters.
#[derive(PartialEq, Eq, Clone, Debug)]
pub struct LapTimeFilters {
    /// The championship season of the race, identified by its year; required.
    pub season: SeasonID,
    /// The round of the race within the season; required.
    pub round: RoundID,
    /// Restrict responses to data for a single lap, identified by an index, starting from `1`.
    pub lap: Option<u32>,
    /// Restrict responses to data for a single driver's race laps.
    pub driver_id: Option<DriverID>,
}

impl LapTimeFilters {
    /// Returns a [`LapTimeFilters`] object with the required fields set as per the arguments, and
    /// the rest of the fields set to `None`, i.e. requesting no filtering on those parameters.
    pub fn new(season: SeasonID, round: RoundID) -> (r: LapTimeFilters)
        ensures
            r == (LapTimeFilters { season, round, lap: None, driver_id: None }),
    {
        LapTimeFilters { season, round, lap: None, driver_id: None }
    }

    /// Field-update method for the `lap` field.
    pub fn lap(self, lap: u32) -> (r: LapTimeFilters)
        ensures
            r == (LapTimeFilters { lap: Some(lap), ..self }),
    {
        LapTimeFilters { lap: Some(lap), ..self }
    }

    /// Field-update method for the `driver_id` field.
    pub fn driver_id(self, driver_id: DriverID) -> (r: LapTimeFilters)
        ensures
            r == (LapTimeFilters { driver_id: Some(driver_id), ..self }),
    {
        LapTimeFilters { driver_id: Some(driver_id), ..self }
    }

    /// The path segments of these filters, in the order in which the API expects them.
    pub open spec fn pairs(self) -> Seq<(PathKey, Seq<char>)> {
        seq![
            (PathKey::Season, opt_u32_text(Some(self.season))),
            (PathKey::Round, opt_u32_text(Some(self.round))),
            (PathKey::Laps, opt_u32_text(self.lap)),
            (PathKey::Drivers, opt_string_text(self.driver_id)),
        ]
    }

    fn to_formatted_pairs(&self) -> (r: Vec<(PathKey, String)>)
        ensures
            pairs_view(r@) == self.pairs(),
    {
        let mut v: Vec<(PathKey, String)> = Vec::new();
        v.push((PathKey::Season, fmt_opt_u32(&Some(self.season))));
        v.push((PathKey::Round, fmt_opt_u32(&Some(self.round))));
        v.push((PathKey::Laps, fmt_opt_u32(&self.lap)));
        v.push((PathKey::Drivers, fmt_opt_string(&self.driver_id)));
        assert(pairs_view(v@) =~= self.pairs());
        v
    }
}

/// Can be used to filter [`Resource::PitStops`] by a number of required and optional parameters.
#[derive(PartialEq, Eq, Clone, Debug)]
pub struct PitStopFilters {
    /// The championship season of the race, identified by its year; required.
    pub season: SeasonID,
    /// The round of the race within the season; required.
    pub round: RoundID,
    /// Restrict responses to pit stops that took place on a specific lap.
    pub lap: Option<u32>,
    /// Restrict responses to pit stops for a single driver's car.
    pub driver_id: Option<DriverID>,
    /// Restrict responses to specific pit stops, identified by an index, starting from `1`.
    pub pit_stop: Option<u32>,
}

impl PitStopFilters {
    /// Returns a [`PitStopFilters`] object with the required fields set as per the arguments, and
    /// the rest of the fields set to `None`, i.e. requesting no filtering on those parameters.
    pub fn new(season: SeasonID, round: RoundID) -> (r: PitStopFilters)
        ensures
            r == (PitStopFilters { season, round, lap: None, driver_id: None, pit_stop: None }),
    {
        PitStopFilters { season, round, lap: None, driver_id: None, pit_stop: None }
    }

    /// Field-update method for the `lap` field.
    pub fn lap(self, lap: u32) -> (r: PitStopFilters)
        ensures
            r == (PitStopFilters { lap: Some(lap), ..self }),
    {
        PitStopFilters { lap: Some(lap), ..self }
    }

    /// Field-update method for the `driver_id` field.
    pub fn driver_id(self, driver_id: DriverID) -> (r: PitStopFilters)
        ensures
            r == (PitStopFilters { driver_id: Some(driver_id), ..self }),
    {
        PitStopFilters { driver_id: Some(driver_id), ..self }
    }

    /// Field-update method for the `pit_stop` field.
    pub fn pit_stop(self, pit_stop: u32) -> (r: PitStopFilters)
        ensures
            r == (PitStopFilters { pit_stop: Some(pit_stop), ..self }),
    {
        PitStopFilters { pit_stop: Some(pit_stop), ..self }
    }

    /// The path segments of these filters, in the order in which the API expects them.
    pub open spec fn pairs(self) -> Seq<(PathKey, Seq<char>)> {
        seq![
            (PathKey::Season, opt_u32_text(Some(self.season))),
            (PathKey::Round, opt_u32_text(Some(self.round))),
            (PathKey::Laps, opt_u32_text(self.lap)),
            (PathKey::Drivers, opt_string_text(self.driver_id)),
            (PathKey::PitStops, opt_u32_text(self.pit_stop)),
        ]
    }

    fn to_formatted_pairs(&self) -> (r: Vec<(PathKey, String)>)
        ensures
            pairs_view(r@) == self.pairs(),
    {
        let mut v: Vec<(PathKey, String)> = Vec::new();
        v.push((PathKey::Season, fmt_opt_u32(&Some(self.season))));
        v.push((PathKey::Round, fmt_opt_u32(&Some(self.round))));
        v.push((PathKey::Laps, fmt_opt_u32(&self.lap)));
        v.push((PathKey::Drivers, fmt_opt_string(&self.driver_id)));
        v.push((PathKey::PitStops, fmt_opt_u32(&self.pit_stop)));
        assert(pairs_view(v@) =~= self.pairs());
        v
    }
}

/// The keys of the path segments of an endpoint: the season and round segments have no key text,
/// the others name what follows them, e.g. `"/drivers"`.
#[derive(PartialEq, Eq, Structural, Clone, Copy, Debug)]
pub enum PathKey {
    /// The season segment, e.g. `"/2023"`.
    Season,
    /// The round segment, e.g. `"/4"`.
    Round,
    /// The drivers segment, `"/drivers"`.
    Drivers,
    /// The constructors segment, `"/constructors"`.
    Constructors,
    /// The circuits segment, `"/circuits"`.
    Circuits,
    /// The qualifying positions segment, `"/qualifying"`.
    Qualifying,
    /// The grid positions segment, `"/grid"`.
    Grid,
    /// The sprint positions segment, `"/sprint"`.
    Sprint,
    /// The race results segment, `"/results"`.
    Results,
    /// The fastest lap ranks segment, `"/fastest"`.
    Fastest,
    /// The finishing statuses segment, `"/status"`.
    Status,
    /// The laps segment, `"/laps"`.
    Laps,
    /// The pit stops segment, `"/pitstops"`.
    PitStops,
    /// The seasons segment, `"/seasons"`.
    Seasons,
    /// The races segment, `"/races"`.
    Races,
}

/// The text of a path key.
pub open spec fn key_text(k: PathKey) -> Seq<char> {
    match k {
        PathKey::Season => ""@,
        PathKey::Round => ""@,
        PathKey::Drivers => "/drivers"@,
        PathKey::Constructors => "/constructors"@,
        PathKey::Circuits => "/circuits"@,
        PathKey::Qualifying => "/qualifying"@,
        PathKey::Grid => "/grid"@,
        PathKey::Sprint => "/sprint"@,
        PathKey::Results => "/results"@,
        PathKey::Fastest => "/fastest"@,
        PathKey::Status => "/status"@,
        PathKey::Laps => "/laps"@,
        PathKey::PitStops => "/pitstops"@,
        PathKey::Seasons => "/seasons"@,
        PathKey::Races => "/races"@,
    }
}

fn key_str(k: PathKey) -> (r: &'static str)
    ensures
        r@ == key_text(k),
{
    match k {
        PathKey::Season => "",
        PathKey::Round => "",
        PathKey::Drivers => "/drivers",
        PathKey::Constructors => "/constructors",
        PathKey::Circuits => "/circuits",
        PathKey::Qualifying => "/qualifying",
        PathKey::Grid => "/grid",
        PathKey::Sprint => "/sprint",
        PathKey::Results => "/results",
        PathKey::Fastest => "/fastest",
        PathKey::Status => "/status",
        PathKey::Laps => "/laps",
        PathKey::PitStops => "/pitstops",
        PathKey::Seasons => "/seasons",
        PathKey::Races => "/races",
    }
}

/// `None` formatted as the empty text, and `Some(val)` as `"/{val}"`.
pub open spec fn opt_u32_text(v: Option<u32>) -> Seq<char> {
    match v {
        Some(x) => "/"@ + decimal_text(x as nat),
        None => Seq::empty(),
    }
}

/// `None` formatted as the empty text, and `Some(val)` as `"/{val}"`.
pub open spec fn opt_string_text(v: Option<String>) -> Seq<char> {
    match v {
        Some(x) => "/"@ + x@,
        None => Seq::empty(),
    }
}

/// The `(key, value text)` view of formatted pairs.
pub open spec fn pairs_view(v: Seq<(PathKey, String)>) -> Seq<(PathKey, Seq<char>)> {
    v.map_values(|p: (PathKey, String)| (p.0, p.1@))
}

fn fmt_opt_u32(v: &Option<u32>) -> (r: String)
    ensures
        r@ == opt_u32_text(*v),
{
    match v {
        Some(x) => {
            let mut s = String::from_str("/");
            let digits = u32_to_text(*x);
            s.append(digits.as_str());
            s
        },
        None => String::new(),
    }
}

fn fmt_opt_string(v: &Option<String>) -> (r: String)
    ensures
        r@ == opt_string_text(*v),
{
    match v {
        Some(x) => {
            let mut s = String::from_str("/");
            s.append(x.as_str());
            s
        },
        None => String::new(),
    }
}

/// Index of the first pair with key `k`, or `-1` when there is none.
pub open spec fn key_index(pairs: Seq<(PathKey, Seq<char>)>, k: PathKey) -> int
    decreases pairs.len(),
{
    if pairs.len() == 0 {
        -1
    } else if pairs[0].0 == k {
        0
    } else {
        let j = key_index(pairs.skip(1), k);
        if j < 0 {
            -1
        } else {
            j + 1
        }
    }
}

/// The pairs with the one of key `k` moved to the end, or with an empty one of key `k` added at
/// the end when there is none: the API expects the resource key last.
pub open spec fn resource_last(pairs: Seq<(PathKey, Seq<char>)>, k: PathKey) -> Seq<(PathKey, Seq<char>)> {
    let i = key_index(pairs, k);
    if i >= 0 {
        pairs.remove(i).push(pairs[i])
    } else {
        pairs.push((k, Seq::empty()))
    }
}

/// The concatenated key texts and values of the pairs, leaving out those with an empty value
/// except the one of key `k`.
pub open spec fn joined_segments(segs: Seq<(PathKey, Seq<char>)>, k: PathKey) -> Seq<char>
    decreases segs.len(),
{
    if segs.len() == 0 {
        Seq::empty()
    } else {
        let last = segs.last();
        joined_segments(segs.drop_last(), k) + if last.1.len() > 0 || last.0 == k {
            key_text(last.0) + last.1
        } else {
            Seq::empty()
        }
    }
}

/// The endpoint path for the given filter pairs and resource key.
pub open spec fn endpoint_text(pairs: Seq<(PathKey, Seq<char>)>, k: PathKey) -> Seq<char> {
    joined_segments(resource_last(pairs, k), k)
}

proof fn lemma_key_index(pairs: Seq<(PathKey, Seq<char>)>, k: PathKey, i: int)
    requires
        0 <= i <= pairs.len(),
        forall|j: int| 0 <= j < i ==> pairs[j].0 != k,
    ensures
        i < pairs.len() && pairs[i].0 == k ==> key_index(pairs, k) == i,
        i == pairs.len() ==> key_index(pairs, k) == -1,
    decreases pairs.len(),
{
    if pairs.len() > 0 && i > 0 {
        lemma_key_index(pairs.skip(1), k, i - 1);
    }
}

/// Whether `t` appears in `s`: `s` is some text, then `t`, then some text.
pub open spec fn has_segment(s: Seq<char>, t: Seq<char>) -> bool {
    exists|a: Seq<char>, b: Seq<char>| s == a + t + b
}

/// A key found by [`key_index`] is at a position of the pairs, and that pair has the key.
proof fn lemma_key_index_found(pairs: Seq<(PathKey, Seq<char>)>, k: PathKey)
    ensures
        key_index(pairs, k) >= -1,
        key_index(pairs, k) < pairs.len(),
        key_index(pairs, k) >= 0 ==> pairs[key_index(pairs, k)].0 == k,
    decreases pairs.len(),
{
    if pairs.len() > 0 && pairs[0].0 != k {
        lemma_key_index_found(pairs.skip(1), k);
    }
}

/// Moving the pair of the resource key last keeps every pair: pair `i` is at some position of
/// the result.
proof fn lemma_resource_last_keeps(pairs: Seq<(PathKey, Seq<char>)>, k: PathKey, i: int) -> (j: int)
    requires
        0 <= i < pairs.len(),
    ensures
        0 <= j < resource_last(pairs, k).len(),
        resource_last(pairs, k)[j] == pairs[i],
{
    lemma_key_index_found(pairs, k);
    let ki = key_index(pairs, k);
    if ki >= 0 {
        if i < ki {
            i
        } else if i == ki {
            pairs.len() - 1
        } else {
            i - 1
        }
    } else {
        i
    }
}

/// The text of the segments holds the key text and value of every pair with a value.
proof fn lemma_joined_segments_has(segs: Seq<(PathKey, Seq<char>)>, k: PathKey, j: int)
    requires
        0 <= j < segs.len(),
        segs[j].1.len() > 0,
    ensures
        has_segment(joined_segments(segs, k), key_text(segs[j].0) + segs[j].1),
    decreases segs.len(),
{
    let t = key_text(segs[j].0) + segs[j].1;
    let last = segs.last();
    let tail = if last.1.len() > 0 || last.0 == k {
        key_text(last.0) + last.1
    } else {
        Seq::empty()
    };
    assert(joined_segments(segs, k) == joined_segments(segs.drop_last(), k) + tail);
    if j == segs.len() - 1 {
        let a = joined_segments(segs.drop_last(), k);
        assert(joined_segments(segs, k) =~= a + t + Seq::<char>::empty());
    } else {
        assert(segs.drop_last()[j] == segs[j]);
        lemma_joined_segments_has(segs.drop_last(), k, j);
        let (a, b) = choose|a: Seq<char>, b: Seq<char>| joined_segments(segs.drop_last(), k) == a + t + b;
        assert(joined_segments(segs, k) =~= a + t + (b + tail));
    }
}

/// The endpoint of a resource holds the key text and value of every filter that is set.
pub proof fn law_endpoint_has_filter_segments(r: Resource, i: int)
    requires
        0 <= i < r.filter_pairs().len(),
        r.filter_pairs()[i].1.len() > 0,
    ensures
        has_segment(r.endpoint(), key_text(r.filter_pairs()[i].0) + r.filter_pairs()[i].1),
{
    let j = lemma_resource_last_keeps(r.filter_pairs(), r.resource_key(), i);
    lemma_joined_segments_has(resource_last(r.filter_pairs(), r.resource_key()), r.resource_key(), j);
}

/// The text of the first `n` segments starts the text of all of them.
proof fn lemma_joined_segments_prefix(segs: Seq<(PathKey, Seq<char>)>, k: PathKey, n: int)
    requires
        0 <= n <= segs.len(),
    ensures
        joined_segments(segs.take(n), k).is_prefix_of(joined_segments(segs, k)),
    decreases segs.len(),
{
    if n == segs.len() {
        assert(segs.take(n) =~= segs);
    } else {
        lemma_joined_segments_prefix(segs.drop_last(), k, n);
        assert(segs.drop_last().take(n) =~= segs.take(n));
    }
}

/// The endpoint of a resource starts with its season and round segments, the first two of its
/// filter pairs, whose key texts are empty: moving the resource key last never moves them.
proof fn lemma_endpoint_starts_with_season_round(r: Resource)
    requires
        r.filter_pairs().len() >= 2,
        r.filter_pairs()[0].0 == PathKey::Season,
        r.filter_pairs()[1].0 == PathKey::Round,
        r.resource_key() != PathKey::Season,
        r.resource_key() != PathKey::Round,
    ensures
        (r.filter_pairs()[0].1 + r.filter_pairs()[1].1).is_prefix_of(r.endpoint()),
{
    let ps = r.filter_pairs();
    let k = r.resource_key();
    lemma_key_index_found(ps, k);
    let segs = resource_last(ps, k);
    assert(segs.take(2) =~= ps.take(2));
    lemma_joined_segments_prefix(segs, k, 2);
    let t = segs.take(2);
    let t0 = seq![ps[0]];
    assert(t.drop_last() =~= t0);
    assert(t0.drop_last() =~= Seq::<(PathKey, Seq<char>)>::empty());
    reveal_strlit("");
    assert(key_text(ps[0].0) == Seq::<char>::empty());
    assert(key_text(ps[1].0) == Seq::<char>::empty());
    assert(joined_segments(t0, k) =~= ps[0].1) by {
        assert(joined_segments(t0, k) == joined_segments(t0.drop_last(), k) + if ps[0].1.len() > 0 {
            key_text(ps[0].0) + ps[0].1
        } else {
            Seq::empty()
        });
        assert(Seq::<char>::empty() + ps[0].1 =~= ps[0].1);
    }
    assert(joined_segments(t, k) =~= ps[0].1 + ps[1].1) by {
        assert(joined_segments(t, k) == joined_segments(t0, k) + if ps[1].1.len() > 0 {
            key_text(ps[1].0) + ps[1].1
        } else {
            Seq::empty()
        });
        assert(Seq::<char>::empty() + ps[1].1 =~= ps[1].1);
    }
}

/// Whether `r` is a resource whose filters are `f`.
pub open spec fn filtered_by(r: Resource, f: Filters) -> bool {
    ||| r == Resource::SeasonList(f)
    ||| r == Resource::DriverInfo(f)
    ||| r == Resource::ConstructorInfo(f)
    ||| r == Resource::CircuitInfo(f)
    ||| r == Resource::RaceSchedule(f)
    ||| r == Resource::QualifyingResults(f)
    ||| r == Resource::SprintResults(f)
    ||| r == Resource::RaceResults(f)
    ||| r == Resource::FinishingStatus(f)
}

/// The endpoint of a resource with filters `f` and a season starts with `/{season}`, followed by
/// `/{round}` when a round is set, e.g. `"/2023/4/results"`.
pub proof fn law_filters_endpoint_starts_with_season(r: Resource, f: Filters)
    requires
        filtered_by(r, f),
    ensures
        f.season matches Some(y) ==> (f.round matches Some(n) ==> ("/"@ + decimal_text(y as nat)
            + "/"@ + decimal_text(n as nat)).is_prefix_of(r.endpoint())),
        f.season matches Some(y) ==> (f.round is None ==> ("/"@ + decimal_text(y as nat)).is_prefix_of(
            r.endpoint(),
        )),
{
    assert(r.filter_pairs() == f.pairs());
    let ps = f.pairs();
    lemma_endpoint_starts_with_season_round(r);
    reveal_strlit("/");
    if let Some(n) = f.season {
        if let Some(m) = f.round {
            assert(ps[0].1 + ps[1].1 =~= "/"@ + decimal_text(n as nat) + "/"@ + decimal_text(m as nat));
        } else {
            assert(ps[0].1 + ps[1].1 =~= "/"@ + decimal_text(n as nat));
        }
    }
}

/// The endpoint of a resource with filters `f` holds each filter that is set under its own key:
/// the season and round as `/{n}`, then `/drivers/{id}`, `/constructors/{id}`,
/// `/circuits/{id}`, `/qualifying/{n}`, `/grid/{n}`, `/sprint/{n}`, `/results/{n}`,
/// `/fastest/{n}` and `/status/{n}`, e.g. `"/grid/1"` for a grid position of 1.
#[verifier::spinoff_prover]
pub proof fn law_filters_in_endpoint(r: Resource, f: Filters)
    requires
        filtered_by(r, f),
    ensures
        f.season matches Some(n) ==> has_segment(r.endpoint(), "/"@ + decimal_text(n as nat)),
        f.round matches Some(n) ==> has_segment(r.endpoint(), "/"@ + decimal_text(n as nat)),
        f.driver_id matches Some(d) ==> has_segment(r.endpoint(), "/drivers/"@ + d@),
        f.constructor_id matches Some(d) ==> has_segment(r.endpoint(), "/constructors/"@ + d@),
        f.circuit_id matches Some(d) ==> has_segment(r.endpoint(), "/circuits/"@ + d@),
        f.qualifying_pos matches Some(n) ==> has_segment(
            r.endpoint(),
            "/qualifying/"@ + decimal_text(n as nat),
        ),
        f.grid_pos matches Some(n) ==> has_segment(r.endpoint(), "/grid/"@ + decimal_text(n as nat)),
        f.sprint_pos matches Some(n) ==> has_segment(r.endpoint(), "/sprint/"@ + decimal_text(n as nat)),
        f.finish_pos matches Some(n) ==> has_segment(r.endpoint(), "/results/"@ + decimal_text(n as nat)),
        f.fastest_lap_rank matches Some(n) ==> has_segment(
            r.endpoint(),
            "/fastest/"@ + decimal_text(n as nat),
        ),
        f.finishing_status matches Some(n) ==> has_segment(
            r.endpoint(),
            "/status/"@ + decimal_text(n as nat),
        ),
{
    assert(r.filter_pairs() == f.pairs());
    let ps = f.pairs();
    reveal_strlit("/");
    reveal_strlit("");
    reveal_strlit("/drivers");
    reveal_strlit("/drivers/");
    reveal_strlit("/constructors");
    reveal_strlit("/constructors/");
    reveal_strlit("/circuits");
    reveal_strlit("/circuits/");
    reveal_strlit("/qualifying");
    reveal_strlit("/qualifying/");
    reveal_strlit("/grid");
    reveal_strlit("/grid/");
    reveal_strlit("/sprint");
    reveal_strlit("/sprint/");
    reveal_strlit("/results");
    reveal_strlit("/results/");
    reveal_strlit("/fastest");
    reveal_strlit("/fastest/");
    reveal_strlit("/status");
    reveal_strlit("/status/");
    if let Some(n) = f.season {
        assert(key_text(ps[0].0) + ps[0].1 =~= "/"@ + decimal_text(n as nat));
        law_endpoint_has_filter_segments(r, 0);
    }
    if let Some(n) = f.round {
        assert(key_text(ps[1].0) + ps[1].1 =~= "/"@ + decimal_text(n as nat));
        law_endpoint_has_filter_segments(r, 1);
    }
    if let Some(d) = f.driver_id {
        assert(key_text(ps[2].0) + ps[2].1 =~= "/drivers/"@ + d@);
        law_endpoint_has_filter_segments(r, 2);
    }
    if let Some(d) = f.constructor_id {
        assert(key_text(ps[3].0) + ps[3].1 =~= "/constructors/"@ + d@);
        law_endpoint_has_filter_segments(r, 3);
    }
    if let Some(d) = f.circuit_id {
        assert(key_text(ps[4].0) + ps[4].1 =~= "/circuits/"@ + d@);
        law_endpoint_has_filter_segments(r, 4);
    }
    if let Some(n) = f.qualifying_pos {
        assert(key_text(ps[5].0) + ps[5].1 =~= "/qualifying/"@ + decimal_text(n as nat));
        law_endpoint_has_filter_segments(r, 5);
    }
    if let Some(n) = f.grid_pos {
        assert(key_text(ps[6].0) + ps[6].1 =~= "/grid/"@ + decimal_text(n as nat));
        law_endpoint_has_filter_segments(r, 6);
    }
    if let Some(n) = f.sprint_pos {
        assert(key_text(ps[7].0) + ps[7].1 =~= "/sprint/"@ + decimal_text(n as nat));
        law_endpoint_has_filter_segments(r, 7);
    }
    if let Some(n) = f.finish_pos {
        assert(key_text(ps[8].0) + ps[8].1 =~= "/results/"@ + decimal_text(n as nat));
        law_endpoint_has_filter_segments(r, 8);
    }
    if let Some(n) = f.fastest_lap_rank {
        assert(key_text(ps[9].0) + ps[9].1 =~= "/fastest/"@ + decimal_text(n as nat));
        law_endpoint_has_filter_segments(r, 9);
    }
    if let Some(n) = f.finishing_status {
        assert(key_text(ps[10].0) + ps[10].1 =~= "/status/"@ + decimal_text(n as nat));
        law_endpoint_has_filter_segments(r, 10);
    }
}

/// The endpoint of the lap times of a race starts with `/{season}/{round}`, and holds
/// `/laps/{n}` and `/drivers/{id}` for the lap and driver that are set, e.g.
/// `"/2023/4/drivers/leclerc/laps"` or `"/2023/4/laps/1"`.
pub proof fn law_lap_time_filters_in_endpoint(f: LapTimeFilters)
    ensures
        ("/"@ + decimal_text(f.season as nat) + "/"@ + decimal_text(f.round as nat)).is_prefix_of(
            Resource::LapTimes(f).endpoint(),
        ),
        f.lap matches Some(n) ==> has_segment(
            Resource::LapTimes(f).endpoint(),
            "/laps/"@ + decimal_text(n as nat),
        ),
        f.driver_id matches Some(d) ==> has_segment(Resource::LapTimes(f).endpoint(), "/drivers/"@ + d@),
{
    let r = Resource::LapTimes(f);
    let ps = f.pairs();
    lemma_endpoint_starts_with_season_round(r);
    reveal_strlit("/");
    reveal_strlit("/laps");
    reveal_strlit("/laps/");
    reveal_strlit("/drivers");
    reveal_strlit("/drivers/");
    assert(ps[0].1 + ps[1].1 =~= "/"@ + decimal_text(f.season as nat) + "/"@ + decimal_text(
        f.round as nat,
    ));
    if let Some(n) = f.lap {
        law_endpoint_has_filter_segments(r, 2);
        assert(key_text(ps[2].0) + ps[2].1 =~= "/laps/"@ + decimal_text(n as nat));
    }
    if let Some(d) = f.driver_id {
        law_endpoint_has_filter_segments(r, 3);
        assert(key_text(ps[3].0) + ps[3].1 =~= "/drivers/"@ + d@);
    }
}

/// The endpoint of the pit stops of a race starts with `/{season}/{round}`, and holds
/// `/laps/{n}`, `/drivers/{id}` and `/pitstops/{n}` for the lap, driver and stop that are set.
pub proof fn law_pit_stop_filters_in_endpoint(f: PitStopFilters)
    ensures
        ("/"@ + decimal_text(f.season as nat) + "/"@ + decimal_text(f.round as nat)).is_prefix_of(
            Resource::PitStops(f).endpoint(),
        ),
        f.lap matches Some(n) ==> has_segment(
            Resource::PitStops(f).endpoint(),
            "/laps/"@ + decimal_text(n as nat),
        ),
        f.driver_id matches Some(d) ==> has_segment(Resource::PitStops(f).endpoint(), "/drivers/"@ + d@),
        f.pit_stop matches Some(n) ==> has_segment(
            Resource::PitStops(f).endpoint(),
            "/pitstops/"@ + decimal_text(n as nat),
        ),
{
    let r = Resource::PitStops(f);
    let ps = f.pairs();
    lemma_endpoint_starts_with_season_round(r);
    reveal_strlit("/");
    reveal_strlit("/laps");
    reveal_strlit("/laps/");
    reveal_strlit("/drivers");
    reveal_strlit("/drivers/");
    reveal_strlit("/pitstops");
    reveal_strlit("/pitstops/");
    assert(ps[0].1 + ps[1].1 =~= "/"@ + decimal_text(f.season as nat) + "/"@ + decimal_text(
        f.round as nat,
    ));
    if let Some(n) = f.lap {
        law_endpoint_has_filter_segments(r, 2);
        assert(key_text(ps[2].0) + ps[2].1 =~= "/laps/"@ + decimal_text(n as nat));
    }
    if let Some(d) = f.driver_id {
        law_endpoint_has_filter_segments(r, 3);
        assert(key_text(ps[3].0) + ps[3].1 =~= "/drivers/"@ + d@);
    }
    if let Some(n) = f.pit_stop {
        law_endpoint_has_filter_segments(r, 4);
        assert(key_text(ps[4].0) + ps[4].1 =~= "/pitstops/"@ + decimal_text(n as nat));
    }
}

/// Name for what `url::Url::parse` gives back for a text, as its serialization, when it parses.
pub uninterp spec fn parsed_url(text: Seq<char>) -> Option<Seq<char>>;

/// Name for the serialization of the URL that `url::Url::parse` gives back for a text, after the
/// query pairs `limit` and `offset` with the given values are appended to it, when it parses.
pub uninterp spec fn parsed_url_with_page(text: Seq<char>, limit: Seq<char>, offset: Seq<char>) -> Option<
    Seq<char>,
>;

/// The view of an optional text.
pub open spec fn opt_text_view(r: Option<String>) -> Option<Seq<char>> {
    match r {
        Some(s) => Some(s@),
        None => None,
    }
}

/// `url::Url::parse`, then the URL's serialization. Claims that the result is a function of the
/// text alone, named [`parsed_url`].
#[verifier::external_body]
fn parse_url(text: &str) -> (r: Option<String>)
    ensures
        opt_text_view(r) == parsed_url(text@),
{
    match url::Url::parse(text) {
        Ok(u) => Some(String::from(u)),
        Err(_) => None,
    }
}

/// Whether a serialized URL without a query is `head` followed by `tail`, its fragment: `head`
/// holds no `'?'` and no `'#'`, and `tail` is empty or starts with the `'#'` of the fragment.
/// Before the fragment a serialization only holds a `'?'` where the query starts, and a `'#'`
/// where the fragment starts, so a URL splits this way at most once, and exactly when it has no
/// query.
pub open spec fn fragment_split(u: Seq<char>, head: Seq<char>, tail: Seq<char>) -> bool {
    &&& u == head + tail
    &&& !head.contains('?')
    &&& !head.contains('#')
    &&& tail.len() == 0 || tail[0] == '#'
}

/// The query that `query_pairs_mut().extend_pairs` inserts for a page, with texts of digits only,
/// into a URL without a query: `"?limit="`, the limit, `"&offset="`, the offset.
pub open spec fn page_query(limit: Seq<char>, offset: Seq<char>) -> Seq<char> {
    "?limit="@ + limit + "&offset="@ + offset
}

/// `url::Url::parse`, then `query_pairs_mut().extend_pairs` with `limit` and `offset`, then the
/// URL's serialization. Claims that the result is a function of the arguments alone, named
/// [`parsed_url_with_page`]; that it is `None` exactly when the text does not parse, as for
/// [`parsed_url`]; and that for a parsed URL without a query and values of digits only (which the
/// form encoding leaves as they are), the pairs are inserted before the fragment, if there is one,
/// after a `'?'` that starts the query, joined by `'&'`, each as name, `'='` and value: the
/// fragment is taken off, the query appended, and the fragment put back.
#[verifier::external_body]
fn parse_url_with_page(text: &str, limit: String, offset: String) -> (r: Option<String>)
    ensures
        opt_text_view(r) == parsed_url_with_page(text@, limit@, offset@),
        parsed_url(text@) is None ==> r is None,
        parsed_url(text@) matches Some(u) ==> (all_digits(limit@) && all_digits(offset@) ==> forall|
            head: Seq<char>,
            tail: Seq<char>,
        |
            #[trigger] fragment_split(u, head, tail) ==> opt_text_view(r) == Some(
                head + page_query(limit@, offset@) + tail,
            )),
{
    match url::Url::parse(text) {
        Ok(mut u) => {
            let _pairs = u.query_pairs_mut().extend_pairs([("limit", limit), ("offset", offset)]);
            Some(String::from(u))
        },
        Err(_) => None,
    }
}

impl Resource {
    /// Resources that the API supports, with a round only ever set together with a season.
    pub open spec fn is_supported(self) -> bool {
        match self {
            Resource::SeasonList(f) => f.is_consistent(),
            Resource::DriverInfo(f) => f.is_consistent(),
            Resource::ConstructorInfo(f) => f.is_consistent(),
            Resource::CircuitInfo(f) => f.is_consistent(),
            Resource::RaceSchedule(f) => f.is_consistent(),
            Resource::QualifyingResults(f) => f.is_consistent(),
            Resource::SprintResults(f) => f.is_consistent(),
            Resource::RaceResults(f) => f.is_consistent(),
            Resource::FinishingStatus(f) => f.is_consistent(),
            Resource::LapTimes(_) => true,
            Resource::PitStops(_) => true,
            Resource::DriverStandings => false,
            Resource::ConstructorStandings => false,
        }
    }

    /// Whether this resource can be requested: it is one that the API supports, and a round is
    /// only set together with a season.
    pub fn is_requestable(&self) -> (r: bool)
        ensures
            r == self.is_supported(),
    {
        match self {
            Resource::SeasonList(f) => !(f.round.is_some() && f.season.is_none()),
            Resource::DriverInfo(f) => !(f.round.is_some() && f.season.is_none()),
            Resource::ConstructorInfo(f) => !(f.round.is_some() && f.season.is_none()),
            Resource::CircuitInfo(f) => !(f.round.is_some() && f.season.is_none()),
            Resource::RaceSchedule(f) => !(f.round.is_some() && f.season.is_none()),
            Resource::QualifyingResults(f) => !(f.round.is_some() && f.season.is_none()),
            Resource::SprintResults(f) => !(f.round.is_some() && f.season.is_none()),
            Resource::RaceResults(f) => !(f.round.is_some() && f.season.is_none()),
            Resource::FinishingStatus(f) => !(f.round.is_some() && f.season.is_none()),
            Resource::LapTimes(_) => true,
            Resource::PitStops(_) => true,
            Resource::DriverStandings => false,
            Resource::ConstructorStandings => false,
        }
    }

    /// The key of the path segment that names this resource.
    pub open spec fn resource_key(self) -> PathKey {
        match self {
            Resource::SeasonList(_) => PathKey::Seasons,
            Resource::DriverInfo(_) => PathKey::Drivers,
            Resource::ConstructorInfo(_) => PathKey::Constructors,
            Resource::CircuitInfo(_) => PathKey::Circuits,
            Resource::RaceSchedule(_) => PathKey::Races,
            Resource::QualifyingResults(_) => PathKey::Qualifying,
            Resource::SprintResults(_) => PathKey::Sprint,
            Resource::RaceResults(_) => PathKey::Results,
            Resource::FinishingStatus(_) => PathKey::Status,
            Resource::LapTimes(_) => PathKey::Laps,
            Resource::PitStops(_) => PathKey::PitStops,
            _ => PathKey::Seasons,
        }
    }

    /// The path segments of the filters of this resource.
    pub open spec fn filter_pairs(self) -> Seq<(PathKey, Seq<char>)> {
        match self {
            Resource::SeasonList(f) => f.pairs(),
            Resource::DriverInfo(f) => f.pairs(),
            Resource::ConstructorInfo(f) => f.pairs(),
            Resource::CircuitInfo(f) => f.pairs(),
            Resource::RaceSchedule(f) => f.pairs(),
            Resource::QualifyingResults(f) => f.pairs(),
            Resource::SprintResults(f) => f.pairs(),
            Resource::RaceResults(f) => f.pairs(),
            Resource::FinishingStatus(f) => f.pairs(),
            Resource::LapTimes(f) => f.pairs(),
            Resource::PitStops(f) => f.pairs(),
            _ => Seq::empty(),
        }
    }

    /// The endpoint path of this resource: every filter that is set, in the API's order, with
    /// the segment of the resource itself moved, or added, last.
    pub open spec fn endpoint(self) -> Seq<char> {
        endpoint_text(self.filter_pairs(), self.resource_key())
    }

    /// The text of the URL of this resource below `base`, before any page query is added.
    pub open spec fn url_text(self, base: Seq<char>) -> Seq<char> {
        base + self.endpoint() + ".json"@
    }

    /// The serialized URL of this resource below `base`, optionally for a given page, as the
    /// URL parser gives it back; `None` when the text does not parse as a URL.
    pub open spec fn url_of(self, base: Seq<char>, page: Option<Page>) -> Option<Seq<char>> {
        match page {
            None => parsed_url(self.url_text(base)),
            Some(p) => parsed_url_with_page(
                self.url_text(base),
                decimal_text(p.limit_view() as nat),
                decimal_text(p.offset_view() as nat),
            ),
        }
    }

    /// Produces the endpoint path to request the given [`Resource`] from the jolpica-f1 API,
    /// including any filters that may have been requested, e.g.
    /// `"/constructors/ferrari/drivers/leclerc"`.
    pub fn to_endpoint(&self) -> (r: String)
        requires
            self.is_supported(),
        ensures
            r@ == self.endpoint(),
    {
        let (resource_key, mut pairs) = match self {
            Resource::SeasonList(f) => (PathKey::Seasons, f.to_formatted_pairs()),
            Resource::DriverInfo(f) => (PathKey::Drivers, f.to_formatted_pairs()),
            Resource::ConstructorInfo(f) => (PathKey::Constructors, f.to_formatted_pairs()),
            Resource::CircuitInfo(f) => (PathKey::Circuits, f.to_formatted_pairs()),
            Resource::RaceSchedule(f) => (PathKey::Races, f.to_formatted_pairs()),
            Resource::QualifyingResults(f) => (PathKey::Qualifying, f.to_formatted_pairs()),
            Resource::SprintResults(f) => (PathKey::Sprint, f.to_formatted_pairs()),
            Resource::RaceResults(f) => (PathKey::Results, f.to_formatted_pairs()),
            Resource::FinishingStatus(f) => (PathKey::Status, f.to_formatted_pairs()),
            Resource::LapTimes(f) => (PathKey::Laps, f.to_formatted_pairs()),
            Resource::PitStops(f) => (PathKey::PitStops, f.to_formatted_pairs()),
            _ => {
                assert(false);
                unreached()
            },
        };
        let ghost pv = pairs_view(pairs@);
        assert(pv == self.filter_pairs());
        let mut i: usize = 0;
        let mut found: Option<usize> = None;
        while i < pairs.len()
            invariant_except_break
                found is None,
                forall|j: int| 0 <= j < i ==> pv[j].0 != resource_key,
            invariant
                i <= pairs@.len(),
                pv == pairs_view(pairs@),
            ensures
                found matches Some(k) ==> k < pairs@.len() && pv[k as int].0 == resource_key
                    && forall|j: int| 0 <= j < k ==> pv[j].0 != resource_key,
                found is None ==> forall|j: int| 0 <= j < pv.len() ==> pv[j].0 != resource_key,
            decreases pairs.len() - i,
        {
            if pairs[i].0 == resource_key {
                found = Some(i);
                break;
            }
            i = i + 1;
        }
        let resource = match found {
            Some(k) => {
                proof {
                    lemma_key_index(pv, resource_key, k as int);
                }
                pairs.remove(k)
            },
            None => {
                proof {
                    lemma_key_index(pv, resource_key, pv.len() as int);
                }
                (resource_key, String::new())
            },
        };
        pairs.push(resource);
        let ghost segs = pairs_view(pairs@);
        assert(segs =~= resource_last(pv, resource_key));
        let mut out = String::new();
        let mut j: usize = 0;
        while j < pairs.len()
            invariant
                j <= pairs@.len(),
                segs == pairs_view(pairs@),
                out@ == joined_segments(segs.take(j as int), resource_key),
            decreases pairs.len() - j,
        {
            assert(segs.take(j + 1).drop_last() =~= segs.take(j as int));
            let (key, ref val) = pairs[j];
            if !val.as_str().is_empty() || key == resource_key {
                out.append(key_str(key));
                out.append(val.as_str());
            }
            j = j + 1;
        }
        assert(segs.take(pairs.len() as int) =~= segs);
        out
    }

    /// The URL text of this resource below `base`, before any page query is added.
    fn url_base_string(&self, base: &str) -> (r: String)
        requires
            self.is_supported(),
        ensures
            r@ == self.url_text(base@),
    {
        let mut s = String::from_str(base);
        let endpoint = self.to_endpoint();
        s.append(endpoint.as_str());
        s.append(".json");
        s
    }

    /// Parses the URL of this resource below `base`, optionally for a given page.
    fn parse_resource_url(&self, base: &str, page: Option<Page>) -> (r: Option<String>)
        requires
            self.is_supported(),
        ensures
            opt_text_view(r) == self.url_of(base@, page),
            page is Some ==> (self.url_of(base@, None) is None ==> r is None),
            page matches Some(p) ==> (self.url_of(base@, None) matches Some(u) ==> forall|
                head: Seq<char>,
                tail: Seq<char>,
            | #[trigger] fragment_split(u, head, tail) ==> (r matches Some(s) && s@ == head + p.query() + tail)),
    {
        let text = self.url_base_string(base);
        match page {
            None => parse_url(text.as_str()),
            Some(p) => {
                proof {
                    lemma_decimal_text_digits(p.limit_view() as nat);
                    lemma_decimal_text_digits(p.offset_view() as nat);
                }
                parse_url_with_page(text.as_str(), u32_to_text(p.limit()), u32_to_text(p.offset()))
            },
        }
    }

    /// Produces the URL with which to request, optionally a given [`Page`] of, a given
    /// [`Resource`] from a specified base URL, including any filters that may have been requested,
    /// as the URL parser serializes it, e.g.
    /// `"https://example.com/drivers/leclerc.json?limit=100&offset=0"`.
    /// For a page, when the URL without a page has no query, the URL is that one with the page's
    /// query inserted before its fragment, if it has one.
    pub fn to_url_with_base_and_opt_page(&self, base: &str, page: Option<Page>) -> (r: String)
        requires
            self.is_supported(),
            self.url_of(base@, page) is Some,
        ensures
            Some(r@) == self.url_of(base@, page),
            page matches Some(p) ==> (self.url_of(base@, None) matches Some(u) ==> forall|
                head: Seq<char>,
                tail: Seq<char>,
            | #[trigger] fragment_split(u, head, tail) ==> r@ == head + p.query() + tail),
    {
        match self.parse_resource_url(base, page) {
            Some(u) => u,
            None => {
                assert(false);
                unreached()
            },
        }
    }

    /// Produces the URL with which to request a given [`Resource`] from the jolpica-f1 API,
    /// including any filters that may have been requested.
    pub fn to_url(&self) -> (r: String)
        requires
            self.is_supported(),
            self.url_of(JOLPICA_API_BASE_URL@, None) is Some,
        ensures
            Some(r@) == self.url_of(JOLPICA_API_BASE_URL@, None),
    {
        self.to_url_with_base_and_opt_page(JOLPICA_API_BASE_URL, None)
    }

    /// Produces the URL with which to request a specific [`Page`] of a given [`Resource`] from the
    /// jolpica-f1 API, including any filters that may have been requested.
    /// When the URL of [`Resource::to_url`] has no query, this is that URL with the page's query,
    /// `?limit=..&offset=..`, inserted before its fragment, if it has one.
    pub fn to_url_with(&self, page: Page) -> (r: String)
        requires
            self.is_supported(),
            self.url_of(JOLPICA_API_BASE_URL@, Some(page)) is Some,
        ensures
            Some(r@) == self.url_of(JOLPICA_API_BASE_URL@, Some(page)),
            self.url_of(JOLPICA_API_BASE_URL@, None) matches Some(u) ==> forall|
                head: Seq<char>,
                tail: Seq<char>,
            | #[trigger] fragment_split(u, head, tail) ==> r@ == head + page.query() + tail,
    {
        self.to_url_with_base_and_opt_page(JOLPICA_API_BASE_URL, Some(page))
    }

    /// Like [`Resource::to_url_with_base_and_opt_page`], but gives `None` when the URL text does
    /// not parse, e.g. for a base that is no URL.
    pub fn try_to_url_with_base_and_opt_page(&self, base: &str, page: Option<Page>) -> (r: Option<String>)
        requires
            self.is_supported(),
        ensures
            opt_text_view(r) == self.url_of(base@, page),
    {
        match self.parse_resource_url(base, page) {
            Some(_) => Some(self.to_url_with_base_and_opt_page(base, page)),
            None => None,
        }
    }

    /// Like [`Resource::to_url`], but gives `None` when the URL text does not parse.
    pub fn try_to_url(&self) -> (r: Option<String>)
        requires
            self.is_supported(),
        ensures
            opt_text_view(r) == self.url_of(JOLPICA_API_BASE_URL@, None),
    {
        match self.parse_resource_url(JOLPICA_API_BASE_URL, None) {
            Some(_) => Some(self.to_url()),
            None => None,
        }
    }

    /// Like [`Resource::to_url_with`], but gives `None` when the URL text does not parse.
    pub fn try_to_url_with(&self, page: Page) -> (r: Option<String>)
        requires
            self.is_supported(),
        ensures
            opt_text_view(r) == self.url_of(JOLPICA_API_BASE_URL@, Some(page)),
            self.url_of(JOLPICA_API_BASE_URL@, None) is None ==> r is None,
            self.url_of(JOLPICA_API_BASE_URL@, None) matches Some(u) ==> forall|
                head: Seq<char>,
                tail: Seq<char>,
            | #[trigger] fragment_split(u, head, tail) ==> opt_text_view(r) == Some(
                head + page.query() + tail,
            ),
    {
        match self.parse_resource_url(JOLPICA_API_BASE_URL, Some(page)) {
            Some(_) => Some(self.to_url_with(page)),
            None => None,
        }
    }
}

/// Identifies a specific pagination page for a given [`Resource`] from the jolpica-f1 API.
#[derive(PartialEq, Eq, Structural, Clone, Copy, Debug)]
pub struct Page {
    limit: u32,
    offset: u32,
}

impl Page {
    /// The limit of this page: the number of items it holds at most.
    pub closed spec fn limit_view(self) -> u32 {
        self.limit
    }

    /// The offset of this page: the number of items before its first one.
    pub closed spec fn offset_view(self) -> u32 {
        self.offset
    }

    /// The query of this page in a URL: `"?limit="`, the limit, `"&offset="`, the offset, e.g.
    /// `"?limit=30&offset=0"`.
    pub open spec fn query(self) -> Seq<char> {
        page_query(decimal_text(self.limit_view() as nat), decimal_text(self.offset_view() as nat))
    }

    /// A page never holds more than the API's maximum limit.
    #[verifier::type_invariant]
    spec fn within_max_limit(self) -> bool {
        self.limit <= JOLPICA_API_MAX_LIMIT
    }

    /// Create an instance of [`Page`] with the given limit and offset; the limit is at most the
    /// API's maximum limit.
    pub fn with(limit: u32, offset: u32) -> (r: Page)
        requires
            limit <= JOLPICA_API_MAX_LIMIT,
        ensures
            r.limit_view() == limit,
            r.offset_view() == offset,
    {
        Page { limit, offset }
    }

    /// Create an instance of [`Page`] with the given offset and the default limit.
    pub fn with_offset(offset: u32) -> (r: Page)
        ensures
            r.limit_view() == JOLPICA_API_DEFAULT_LIMIT,
            r.offset_view() == offset,
    {
        Page::with(JOLPICA_API_DEFAULT_LIMIT, offset)
    }

    /// Create an instance of [`Page`] with the given limit and the default offset.
    pub fn with_limit(limit: u32) -> (r: Page)
        requires
            limit <= JOLPICA_API_MAX_LIMIT,
        ensures
            r.limit_view() == limit,
            r.offset_view() == JOLPICA_API_DEFAULT_OFFSET,
    {
        Page::with(limit, JOLPICA_API_DEFAULT_OFFSET)
    }

    /// Create an instance of [`Page`] with the maximum limit and default offset.
    pub fn with_max_limit() -> (r: Page)
        ensures
            r.limit_view() == JOLPICA_API_MAX_LIMIT,
            r.offset_view() == JOLPICA_API_DEFAULT_OFFSET,
    {
        Page::with_limit(JOLPICA_API_MAX_LIMIT)
    }

    /// Access the limit of this [`Page`].
    pub fn limit(&self) -> (r: u32)
        ensures
            r == self.limit_view(),
            r <= JOLPICA_API_MAX_LIMIT,
    {
        proof {
            use_type_invariant(self);
        }
        self.limit
    }

    /// Access the offset of this [`Page`].
    pub fn offset(&self) -> (r: u32)
        ensures
            r == self.offset_view(),
    {
        self.offset
    }

    /// Create the [`Page`] of a response's [`Pagination`], with its limit and offset; the limit
    /// is at most the API's maximum limit.
    pub fn from(pagination: Pagination) -> (r: Page)
        requires
            pagination.limit <= JOLPICA_API_MAX_LIMIT,
        ensures
            r.limit_view() == pagination.limit,
            r.offset_view() == pagination.offset,
    {
        Page::with(pagination.limit, pagination.offset)
    }

    /// Return the next [`Page`] in the sequence, with the same limit, by incrementing the offset.
    pub fn next(&self) -> (r: Page)
        requires
            self.offset_view() + self.limit_view() <= u32::MAX,
        ensures
            r.limit_view() == self.limit_view(),
            r.offset_view() == self.offset_view() + self.limit_view(),
    {
        proof {
            use_type_invariant(self);
        }
        Page { limit: self.limit, offset: self.offset + self.limit }
    }
}

/// The page of the page that follows a pagination is the next page of its page: with the same
/// limit, and an offset one limit further.
pub proof fn law_page_of_following_page(p: Pagination, page: Page, next: Page)
    requires
        page.limit_view() == p.limit,
        page.offset_view() == p.offset,
        following_page(p) matches Some(q) && next.limit_view() == q.limit && next.offset_view()
            == q.offset,
    ensures
        next.limit_view() == page.limit_view(),
        next.offset_view() == page.offset_view() + page.limit_view(),
{
}

impl Default for Page {
    /// The page with the API's default limit and offset.
    fn default() -> (r: Page)
        ensures
            r.limit_view() == JOLPICA_API_DEFAULT_LIMIT,
            r.offset_view() == JOLPICA_API_DEFAULT_OFFSET,
    {
        Page::with(JOLPICA_API_DEFAULT_LIMIT, JOLPICA_API_DEFAULT_OFFSET)
    }
}

impl Default for Filters {
    /// The filters that request no filtering.
    fn default() -> (r: Filters)
        ensures
            r == Filters::none_spec(),
    {
        Filters::new()
    }
}

} // verus!
