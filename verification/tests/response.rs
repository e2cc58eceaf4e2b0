use std::convert::Infallible;

use f1_data::concat::{concat_response_multi_pages, PageVerify};
use f1_data::error::F1Error as Error;
use f1_data::response::{
    possible_no_number, verify_has_one_element, verify_has_one_element_and_extract, AverageSpeed,
    Circuit, Constructor, Driver, DriverLap, FastestLap, Lap, Location, Pagination, Payload,
    PayloadInnerList, PitStop, Position, QualifyingResult, Race, RaceResult, Response, Schedule,
    Season, SpeedUnits, SprintResult, Table, Timing,
};
use f1_data::time::{duration_m_s_ms, duration_millis, Date, DateTime, QualifyingTime, RaceTime, Time};

// Assets
// ------

fn season(year: u32, url: &str) -> Season {
    Season { season: year, url: url.to_string() }
}

fn season_2000() -> Season {
    season(2000, "https://en.wikipedia.org/wiki/2000_Formula_One_World_Championship")
}

fn season_2023() -> Season {
    season(2023, "https://en.wikipedia.org/wiki/2023_Formula_One_World_Championship")
}

fn seasons_all() -> Vec<Season> {
    vec![
        season(1950, "https://en.wikipedia.org/wiki/1950_Formula_One_season"),
        season(1979, "https://en.wikipedia.org/wiki/1979_Formula_One_season"),
        season(1980, "https://en.wikipedia.org/wiki/1980_Formula_One_season"),
        season(1981, "https://en.wikipedia.org/wiki/1981_Formula_One_World_Championship"),
        season_2000(),
        season_2023(),
    ]
}

fn date(year: i32, month: u8, day: u8) -> Date {
    Date { year, month, day }
}

fn driver(
    id: &str,
    number: Option<u32>,
    code: Option<&str>,
    url: &str,
    given: &str,
    family: &str,
    born: Date,
    nationality: &str,
) -> Driver {
    Driver {
        driver_id: id.to_string(),
        permanent_number: number,
        code: code.map(|c| c.to_string()),
        url: url.to_string(),
        given_name: given.to_string(),
        family_name: family.to_string(),
        date_of_birth: born,
        nationality: nationality.to_string(),
    }
}

fn driver_max() -> Driver {
    driver(
        "max_verstappen",
        Some(33),
        Some("VER"),
        "http://en.wikipedia.org/wiki/Max_Verstappen",
        "Max",
        "Verstappen",
        date(1997, 9, 30),
        "Dutch",
    )
}

fn driver_leclerc() -> Driver {
    driver(
        "leclerc",
        Some(16),
        Some("LEC"),
        "http://en.wikipedia.org/wiki/Charles_Leclerc",
        "Charles",
        "Leclerc",
        date(1997, 10, 16),
        "Monegasque",
    )
}

fn driver_perez() -> Driver {
    driver(
        "perez",
        Some(11),
        Some("PER"),
        "http://en.wikipedia.org/wiki/Sergio_P%C3%A9rez",
        "Sergio",
        "Pérez",
        date(1990, 1, 26),
        "Mexican",
    )
}

fn driver_fangio() -> Driver {
    driver(
        "fangio",
        None,
        None,
        "http://en.wikipedia.org/wiki/Juan_Manuel_Fangio",
        "Juan",
        "Fangio",
        date(1911, 6, 24),
        "Argentine",
    )
}

fn drivers_all() -> Vec<Driver> {
    let mut drivers = Vec::new();
    for i in 0..15u32 {
        let mut d = driver_fangio();
        d.driver_id = format!("driver_{i}");
        d.permanent_number = Some(i);
        drivers.push(d);
    }
    drivers
}

fn constructor(id: &str, url: &str, name: &str, nationality: &str) -> Constructor {
    Constructor {
        constructor_id: id.to_string(),
        url: url.to_string(),
        name: name.to_string(),
        nationality: nationality.to_string(),
    }
}

fn constructor_red_bull() -> Constructor {
    constructor("red_bull", "http://en.wikipedia.org/wiki/Red_Bull_Racing", "Red Bull", "Austrian")
}

fn constructor_ferrari() -> Constructor {
    constructor("ferrari", "http://en.wikipedia.org/wiki/Scuderia_Ferrari", "Ferrari", "Italian")
}

fn circuit_baku() -> Circuit {
    Circuit {
        circuit_id: "baku".to_string(),
        url: "https://en.wikipedia.org/wiki/Baku_City_Circuit".to_string(),
        circuit_name: "Baku City Circuit".to_string(),
        location: Location {
            lat: 40.3725f64.to_bits(),
            long: 49.8533f64.to_bits(),
            locality: "Baku".to_string(),
            country: "Azerbaijan".to_string(),
        },
    }
}

fn circuit_spa() -> Circuit {
    Circuit {
        circuit_id: "spa".to_string(),
        url: "http://en.wikipedia.org/wiki/Circuit_de_Spa-Francorchamps".to_string(),
        circuit_name: "Circuit de Spa-Francorchamps".to_string(),
        location: Location {
            lat: 50.4372f64.to_bits(),
            long: 5.97139f64.to_bits(),
            locality: "Spa".to_string(),
            country: "Belgium".to_string(),
        },
    }
}

fn schedule_none() -> Schedule {
    Schedule {
        first_practice: None,
        second_practice: None,
        third_practice: None,
        qualifying: None,
        sprint: None,
        sprint_shootout: None,
        sprint_qualifying: None,
    }
}

fn race_none() -> Race {
    Race {
        season: 0,
        round: 0,
        url: "https://empty.org/".to_string(),
        race_name: "".to_string(),
        circuit: Circuit {
            circuit_id: "".to_string(),
            url: "https://empty.org/".to_string(),
            circuit_name: "".to_string(),
            location: Location {
                lat: f64::NAN.to_bits(),
                long: f64::NAN.to_bits(),
                locality: "".to_string(),
                country: "".to_string(),
            },
        },
        date: date(-9999, 1, 1),
        time: None,
        payload: Payload::Schedule(schedule_none()),
    }
}

fn race_2023_4() -> Race {
    Race {
        season: 2023,
        round: 4,
        url: "https://en.wikipedia.org/wiki/2023_Azerbaijan_Grand_Prix".to_string(),
        race_name: "Azerbaijan Grand Prix".to_string(),
        circuit: circuit_baku(),
        date: date(2023, 4, 30),
        time: Some(Time { hour: 11, minute: 0, second: 0 }),
        ..race_none()
    }
}

fn race_2021_12() -> Race {
    Race {
        season: 2021,
        round: 12,
        url: "http://en.wikipedia.org/wiki/2021_Belgian_Grand_Prix".to_string(),
        race_name: "Belgian Grand Prix".to_string(),
        circuit: circuit_spa(),
        date: date(2021, 8, 29),
        time: Some(Time { hour: 13, minute: 0, second: 0 }),
        ..race_none()
    }
}

fn race_2023_4_schedule() -> Race {
    Race {
        payload: Payload::Schedule(Schedule {
            first_practice: Some(DateTime { date: date(2023, 4, 28), time: Some(Time { hour: 9, minute: 30, second: 0 }) }),
            qualifying: Some(DateTime { date: date(2023, 4, 28), time: Some(Time { hour: 13, minute: 0, second: 0 }) }),
            sprint: Some(DateTime { date: date(2023, 4, 29), time: Some(Time { hour: 13, minute: 30, second: 0 }) }),
            sprint_shootout: Some(DateTime { date: date(2023, 4, 29), time: Some(Time { hour: 9, minute: 30, second: 0 }) }),
            ..schedule_none()
        }),
        ..race_2023_4()
    }
}

fn qualifying_result(number: u32, position: u32, driver: Driver, constructor: Constructor, q1: (i64, i64, i64)) -> QualifyingResult {
    QualifyingResult {
        number,
        position,
        driver,
        constructor,
        q1: Some(QualifyingTime::Time(duration_m_s_ms(q1.0, q1.1, q1.2))),
        q2: None,
        q3: Some(QualifyingTime::NoTimeSet),
    }
}

fn race_2023_4_qualifying_results() -> Race {
    Race {
        payload: Payload::QualifyingResults(vec![
            qualifying_result(16, 1, driver_leclerc(), constructor_ferrari(), (1, 41, 269)),
            qualifying_result(1, 2, driver_max(), constructor_red_bull(), (1, 41, 398)),
        ]),
        ..race_2023_4()
    }
}

fn sprint_result_2023_4_p1() -> SprintResult {
    SprintResult {
        number: 11,
        position: 1,
        position_text: Position::Finished(1),
        points: 8.0f32.to_bits(),
        driver: driver_perez(),
        constructor: constructor_red_bull(),
        grid: 2,
        laps: 17,
        status: "Finished".to_string(),
        time: Some(RaceTime::lead(duration_millis(1997667))),
        fastest_lap: Some(FastestLap { rank: None, lap: 11, time: duration_m_s_ms(1, 43, 616), average_speed: None }),
    }
}

fn race_2023_4_sprint_results() -> Race {
    let mut p2 = sprint_result_2023_4_p1();
    p2.position = 2;
    p2.position_text = Position::Finished(2);
    p2.driver = driver_leclerc();
    Race { payload: Payload::SprintResults(vec![sprint_result_2023_4_p1(), p2]), ..race_2023_4() }
}

fn race_result(number: u32, position: u32, points: f32, driver: Driver, time: Option<RaceTime>) -> RaceResult {
    RaceResult {
        number,
        position,
        position_text: Position::Finished(position),
        points: points.to_bits(),
        driver,
        constructor: constructor_red_bull(),
        grid: 3,
        laps: 51,
        status: "Finished".to_string(),
        time,
        fastest_lap: Some(FastestLap {
            rank: Some(5),
            lap: 50,
            time: duration_m_s_ms(1, 44, 589),
            average_speed: Some(AverageSpeed { units: SpeedUnits::Kph, speed: 206.625f32.to_bits() }),
        }),
    }
}

fn race_results_2023_4() -> Vec<RaceResult> {
    vec![
        race_result(11, 1, 25.0, driver_perez(), Some(RaceTime::lead(duration_millis(5562436)))),
        race_result(1, 2, 18.0, driver_max(), None),
        race_result(16, 3, 15.0, driver_leclerc(), None),
    ]
}

fn race_results_2021_12() -> Vec<RaceResult> {
    vec![
        race_result(33, 1, 12.5, driver_max(), None),
        race_result(63, 2, 9.0, driver_leclerc(), None),
        race_result(44, 3, 7.5, driver_perez(), None),
        race_result(RaceResult::NO_NUMBER, 10, 0.5, driver_fangio(), None),
    ]
}

fn race_2023_4_race_results() -> Race {
    Race { payload: Payload::RaceResults(race_results_2023_4()), ..race_2023_4() }
}

fn timing(driver_id: &str, position: u32, time: f1_data::time::Duration) -> Timing {
    Timing { driver_id: driver_id.to_string(), position, time }
}

fn lap(number: u32, timings: Vec<Timing>) -> Lap {
    Lap { number, timings }
}

fn pagination(limit: u32, offset: u32, total: u32) -> Pagination {
    Pagination { limit, offset, total }
}

fn response_none() -> Response {
    Response {
        xmlns: "".to_string(),
        series: "f1".to_string(),
        url: "https://api.jolpi.ca/ergast/f1/".to_string(),
        pagination: pagination(30, 0, 0),
        table: Table::Seasons { seasons: vec![] },
    }
}

fn make_response_with_table(table: Table) -> Response {
    Response { table, ..response_none() }
}

fn response_seasons_none() -> Response {
    make_response_with_table(Table::Seasons { seasons: vec![] })
}

fn response_seasons_one() -> Response {
    make_response_with_table(Table::Seasons { seasons: vec![season_2000()] })
}

fn response_seasons_two() -> Response {
    make_response_with_table(Table::Seasons { seasons: vec![season_2000(), season_2023()] })
}

fn response_drivers_none() -> Response {
    make_response_with_table(Table::Drivers { drivers: vec![] })
}

fn response_drivers_one() -> Response {
    make_response_with_table(Table::Drivers { drivers: vec![driver_max()] })
}

fn response_drivers_two() -> Response {
    make_response_with_table(Table::Drivers { drivers: vec![driver_max(), driver_leclerc()] })
}

fn response_races(races: Vec<Race>) -> Response {
    make_response_with_table(Table::Races { races })
}

// Pagination
// ----------

#[test]
fn response_pagination_is_last_page() {
    assert!(Pagination { limit: 30, offset: 0, total: 16 }.is_last_page());
    assert!(Pagination { limit: 10, offset: 5, total: 15 }.is_last_page());
    assert!(!Pagination { limit: 10, offset: 4, total: 15 }.is_last_page());
}

#[test]
fn response_pagination_is_single_page() {
    assert!(Pagination { limit: 30, offset: 0, total: 16 }.is_single_page());
    assert!(!Pagination { limit: 10, offset: 5, total: 15 }.is_single_page())
}

#[test]
fn pagination_is_last_page() {
    assert!(pagination(30, 0, 16).is_last_page());
    assert!(pagination(10, 5, 15).is_last_page());
    assert!(!pagination(10, 4, 15).is_last_page());
}

#[test]
fn pagination_is_single_page() {
    assert!(pagination(30, 0, 16).is_single_page());
    assert!(!pagination(10, 5, 15).is_single_page());
}

#[test]
fn response_pagination_next_page() {
    assert_eq!(
        Pagination { limit: 10, offset: 0, total: 15 }.next_page().unwrap(),
        Pagination { limit: 10, offset: 10, total: 15 }
    );

    assert!(Pagination { limit: 10, offset: 10, total: 15 }.next_page().is_none());
}

// Drivers and positions
// ---------------------

#[test]
fn driver_full_name() {
    assert_eq!(driver_max().full_name(), "Max Verstappen");
    assert_eq!(driver_leclerc().full_name(), "Charles Leclerc");
    assert_eq!(driver_perez().full_name(), "Sergio Pérez");
}

#[test]
fn response_position() {
    assert_eq!(Position::Retired, Position::r());
    assert_ne!(Position::Retired, Position::e());

    let pos = Position::Finished(10);
    assert!(matches!(pos, Position::Finished(_)));
    assert!(!matches!(pos, Position::Excluded));

    match pos {
        Position::Finished(pos) => assert_eq!(pos, 10),
        _ => panic!("Expected Finished variant"),
    };
}

#[test]
fn response_position_deserialize() {
    assert_eq!(Position::from_text("R"), Some(Position::r()));
    assert_eq!(Position::from_text("D"), Some(Position::d()));
    assert_eq!(Position::from_text("E"), Some(Position::e()));
    assert_eq!(Position::from_text("W"), Some(Position::w()));
    assert_eq!(Position::from_text("F"), Some(Position::f()));
    assert_eq!(Position::from_text("N"), Some(Position::n()));
    assert_eq!(Position::from_text("10"), Some(Position::Finished(10)));
    assert_eq!(Position::from_text("unknown"), None);
    assert_eq!(Position::from_text(""), None);
}

#[test]
fn response_deserialize_possible_no_number() {
    assert_eq!(possible_no_number("10"), Some(10));
    assert_eq!(possible_no_number("None"), Some(RaceResult::NO_NUMBER));
    assert_eq!(possible_no_number("none"), None);
}

// Races
// -----

#[test]
fn race_as_to_info() {
    let lhs = race_2023_4();

    assert_eq!(lhs.as_info(), lhs.as_info());
    assert_eq!(lhs.as_info(), Race::from(lhs.clone(), true).as_info());
    assert_eq!(lhs.to_info(), lhs.to_info());
    assert_eq!(lhs.to_info(), Race::from(lhs.clone(), true).to_info());

    let mut rhs = lhs.clone();
    rhs.season = race_none().season;
    assert_ne!(lhs.to_info(), rhs.to_info());
    let mut rhs = lhs.clone();
    rhs.round = race_none().round;
    assert_ne!(lhs.to_info(), rhs.to_info());
    let mut rhs = lhs.clone();
    rhs.url = race_none().url;
    assert_ne!(lhs.as_info(), rhs.as_info());
    let mut rhs = lhs.clone();
    rhs.race_name = race_none().race_name;
    assert_ne!(lhs.as_info(), rhs.as_info());
    let mut rhs = lhs.clone();
    rhs.circuit = race_none().circuit;
    assert_ne!(lhs.to_info(), rhs.to_info());
    let mut rhs = lhs.clone();
    rhs.date = race_none().date;
    assert_ne!(lhs.to_info(), rhs.to_info());
    let mut rhs = lhs.clone();
    rhs.time = race_none().time;
    assert_ne!(lhs.to_info(), rhs.to_info());
}

#[test]
fn race_info_as_hash_key() {
    let mut map = indexmap::IndexMap::new();
    let race_2021 = race_2021_12();
    let race_2023 = race_2023_4();

    assert!(map.insert(race_2021.to_info(), race_2021.clone()).is_none());
    assert!(map.contains_key(&race_2021.to_info()));
    assert!(!map.contains_key(&race_2023.to_info()));

    assert!(map.insert(race_2023.to_info(), race_2023.clone()).is_none());
    assert!(map.contains_key(&race_2021.to_info()));
    assert!(map.contains_key(&race_2023.to_info()));

    assert_ne!(race_2021, race_2023);
    assert_ne!(&race_2021.to_info(), &race_2023.to_info());
    assert_eq!(map[&race_2021.to_info()], race_2021);
    assert_eq!(map[&race_2023.to_info()], race_2023);
}

#[test]
fn response_race_try_map() {
    let from = Race::from(race_2023_4(), true);

    let into = from.clone().try_map::<_, _, Infallible>(|_| Ok(String::from("true")));
    assert_eq!(into.as_ref().unwrap().as_info(), from.as_info());
    assert_eq!(into.unwrap().payload, String::from("true"));

    #[derive(Debug)]
    struct DummyError;

    let into = from.clone().try_map::<Infallible, _, _>(|_| Err(DummyError));
    assert!(into.is_err());
}

#[test]
fn response_race_map() {
    let from = Race::from(race_2023_4(), 1);

    let into = from.clone().map(|payload_i32| payload_i32.to_string());
    assert_eq!(into.as_info(), from.as_info());
    assert_eq!(into.payload, String::from("1"));
}

#[test]
fn response_race_from() {
    let from = race_2023_4();

    let into = Race::from(from.clone(), String::from("some"));
    assert_eq!(into.as_info(), from.as_info());
    assert_eq!(into.payload, String::from("some"));
}

fn map_race_schedule(race: Race<Payload>) -> Race<Schedule> {
    race.map(|payload| payload.into_schedule().unwrap())
}

fn map_race_multi_results<T: PayloadInnerList>(race: Race<Payload>) -> Race<Vec<T>> {
    race.map(|payload| T::try_into_inner_from(payload).unwrap())
}

fn map_race_single_result<T: PayloadInnerList>(race: Race<Payload>) -> Race<T> {
    map_race_multi_results(race).map(|payload| payload.into_iter().next().unwrap())
}

#[test]
fn response_race_schedule_accessors() {
    let reference = race_2023_4_schedule();
    let expected = reference.clone().payload.into_schedule().unwrap();

    let actual = map_race_schedule(reference.clone());
    assert_eq!(actual.schedule(), &expected);
    assert_eq!(actual.into_schedule(), expected);
}

#[test]
fn response_race_qualifying_result_accessors() {
    let reference = race_2023_4_qualifying_results();
    let expected = reference.clone().payload.into_qualifying_results().unwrap();

    let actual = map_race_multi_results(reference.clone());
    assert_eq!(actual.qualifying_results(), &expected);
    assert_eq!(actual.into_qualifying_results(), expected);

    let actual = map_race_single_result(reference.clone());
    assert_eq!(actual.qualifying_result(), &expected[0]);
    assert_eq!(actual.into_qualifying_result(), expected[0]);
}

#[test]
fn response_race_sprint_result_accessors() {
    let reference = race_2023_4_sprint_results();
    let expected = reference.clone().payload.into_sprint_results().unwrap();

    let actual = map_race_multi_results(reference.clone());
    assert_eq!(actual.sprint_results(), &expected);
    assert_eq!(actual.into_sprint_results(), expected);

    let actual = map_race_single_result(reference.clone());
    assert_eq!(actual.sprint_result(), &expected[0]);
    assert_eq!(actual.into_sprint_result(), expected[0]);
}

#[test]
fn response_race_race_result_accessors() {
    let reference = race_2023_4_race_results();
    let expected = reference.clone().payload.into_race_results().unwrap();

    let actual = map_race_multi_results(reference.clone());
    assert_eq!(actual.race_results(), &expected);
    assert_eq!(actual.into_race_results(), expected);

    let actual = map_race_single_result(reference.clone());
    assert_eq!(actual.race_result(), &expected[0]);
    assert_eq!(actual.into_race_result(), expected[0]);
}

// Tables and payloads
// -------------------

#[test]
fn table_and_payload_accessors() {
    let table = Table::Seasons { seasons: seasons_all() };
    assert!(table.is_seasons());
    assert!(!table.is_races());
    assert_eq!(table.as_seasons().unwrap().len(), 6);
    assert!(table.as_drivers().is_none());
    assert!(table.clone().into_drivers().is_err());
    assert_eq!(table.into_seasons().unwrap(), seasons_all());

    let payload = race_2023_4_race_results().payload;
    assert!(payload.is_race_results());
    assert!(!payload.is_laps());
    assert_eq!(payload.as_race_results().unwrap().len(), 3);
    assert!(payload.as_schedule().is_none());
    assert!(payload.clone().into_pit_stops().is_err());
    assert_eq!(payload.into_race_results().unwrap(), race_results_2023_4());
}

#[test]
fn verify_one_element() {
    assert!(matches!(verify_has_one_element::<u32>(&[]), Err(Error::NotFound)));
    assert_eq!(verify_has_one_element(&[7u32]).unwrap(), &[7u32]);
    assert!(matches!(verify_has_one_element(&[7u32, 8]), Err(Error::TooMany)));

    assert!(matches!(verify_has_one_element_and_extract::<u32>(vec![]), Err(Error::NotFound)));
    assert_eq!(verify_has_one_element_and_extract(vec![7u32]).unwrap(), 7);
    assert!(matches!(verify_has_one_element_and_extract(vec![7u32, 8]), Err(Error::TooMany)));
}

// Response::as_info() and .to_info()
// ----------------------------------

#[test]
fn response_as_to_info() {
    let lhs = response_seasons_none();

    let rhs_diff_pagination = Response { pagination: pagination(30, 10, 0), ..lhs.clone() };
    let rhs_diff_table = response_drivers_none();

    assert_eq!(lhs.as_info(), lhs.as_info());
    assert_eq!(lhs.as_info(), rhs_diff_pagination.as_info());
    assert_eq!(lhs.as_info(), rhs_diff_table.as_info());
    assert_eq!(lhs.to_info(), lhs.to_info());
    assert_eq!(lhs.to_info(), rhs_diff_pagination.to_info());
    assert_eq!(lhs.to_info(), rhs_diff_table.to_info());

    let mut rhs = lhs.clone();
    rhs.xmlns = "other".into();
    assert_ne!(lhs.as_info(), rhs.as_info());
    let mut rhs = lhs.clone();
    rhs.series = "f2".into();
    assert_ne!(lhs.to_info(), rhs.to_info());
    let mut rhs = lhs.clone();
    rhs.url = "https://example.com/".into();
    assert_ne!(lhs.as_info(), rhs.as_info());
}

// ::into/as_season(s)
// -------------------

#[test]
fn response_response_into_seasons() {
    let seasons = response_seasons_two().into_seasons().unwrap();
    assert_eq!(seasons.len(), 2);
    assert_eq!(seasons, vec![season_2000(), season_2023()]);
}

#[test]
fn response_response_into_seasons_error_bad_table_variant() {
    assert!(matches!(response_drivers_none().into_seasons(), Err(Error::BadTableVariant)));
}

#[test]
fn response_response_into_season() {
    assert_eq!(response_seasons_one().into_season().unwrap(), season_2000());
}

#[test]
fn response_response_into_season_error_bad_table_variant() {
    assert!(matches!(response_drivers_none().into_season(), Err(Error::BadTableVariant)));
}

#[test]
fn response_response_into_season_error_not_found() {
    assert!(matches!(response_seasons_none().into_season(), Err(Error::NotFound)));
}

#[test]
fn response_response_into_season_error_too_many() {
    assert!(matches!(response_seasons_two().into_season(), Err(Error::TooMany)));
}

#[test]
fn response_response_as_seasons() {
    let response = response_seasons_two();
    assert_eq!(response.as_seasons().unwrap().len(), 2);
    assert_eq!(response.as_seasons().unwrap(), &vec![season_2000(), season_2023()]);
}

#[test]
fn response_response_as_seasons_error_bad_table_variant() {
    assert!(matches!(response_drivers_none().as_seasons(), Err(Error::BadTableVariant)));
}

#[test]
fn response_response_as_season() {
    let response = response_seasons_one();
    assert_eq!(response.as_season().unwrap(), &season_2000());
}

#[test]
fn response_response_as_season_error_bad_table_variant() {
    assert!(matches!(response_drivers_none().as_season(), Err(Error::BadTableVariant)));
}

#[test]
fn response_response_as_season_error_not_found() {
    assert!(matches!(response_seasons_none().as_season(), Err(Error::NotFound)));
}

#[test]
fn response_response_as_season_error_too_many() {
    assert!(matches!(response_seasons_two().as_season(), Err(Error::TooMany)));
}

// ::into/as_driver(s)
// -------------------

#[test]
fn response_response_into_drivers() {
    let drivers = response_drivers_two().into_drivers().unwrap();
    assert_eq!(drivers.len(), 2);
    assert_eq!(drivers, vec![driver_max(), driver_leclerc()]);
}

#[test]
fn response_response_into_drivers_error_bad_table_variant() {
    assert!(matches!(response_none().into_drivers(), Err(Error::BadTableVariant)));
}

#[test]
fn response_response_into_driver() {
    assert_eq!(response_drivers_one().into_driver().unwrap(), driver_max());
}

#[test]
fn response_response_into_driver_error_bad_table_variant() {
    assert!(matches!(response_none().into_driver(), Err(Error::BadTableVariant)));
}

#[test]
fn response_response_into_driver_error_not_found() {
    assert!(matches!(response_drivers_none().into_driver(), Err(Error::NotFound)));
}

#[test]
fn response_response_into_driver_error_too_many() {
    assert!(matches!(response_drivers_two().into_driver(), Err(Error::TooMany)));
}

#[test]
fn response_response_as_drivers() {
    let response = response_drivers_two();
    assert_eq!(response.as_drivers().unwrap().len(), 2);
    assert_eq!(response.as_drivers().unwrap(), &vec![driver_max(), driver_leclerc()]);
}

#[test]
fn response_response_as_drivers_error_bad_table_variant() {
    assert!(matches!(response_none().as_drivers(), Err(Error::BadTableVariant)));
}

#[test]
fn response_response_as_driver() {
    let response = response_drivers_one();
    assert_eq!(response.as_driver().unwrap(), &driver_max());
}

#[test]
fn response_response_as_driver_error_bad_table_variant() {
    assert!(matches!(response_none().as_driver(), Err(Error::BadTableVariant)));
}

#[test]
fn response_response_as_driver_error_not_found() {
    assert!(matches!(response_drivers_none().as_driver(), Err(Error::NotFound)));
}

#[test]
fn response_response_as_driver_error_too_many() {
    assert!(matches!(response_drivers_two().as_driver(), Err(Error::TooMany)));
}

// Races, session results, laps and pit stops
// ------------------------------------------

#[test]
fn response_into_race_schedules() {
    let races = response_races(vec![race_2023_4_schedule(), race_2021_12()]).into_race_schedules().unwrap();
    assert_eq!(races.len(), 2);
    assert_eq!(races[0].as_info(), race_2023_4().as_info());
    assert_eq!(races[0].schedule(), &race_2023_4_schedule().payload.into_schedule().unwrap());
    assert_eq!(races[1].schedule(), &schedule_none());

    assert!(matches!(
        response_races(vec![race_2023_4_race_results()]).into_race_schedules(),
        Err(Error::BadPayloadVariant)
    ));
    assert!(matches!(response_seasons_one().into_race_schedules(), Err(Error::BadTableVariant)));
    assert!(matches!(response_races(vec![]).into_race_schedule(), Err(Error::NotFound)));
    assert_eq!(response_races(vec![race_2021_12()]).into_race_schedule().unwrap().as_info(), race_2021_12().as_info());
}

#[test]
fn response_session_results() {
    let races = response_races(vec![race_2023_4_race_results()])
        .into_many_races_with_many_session_results::<RaceResult>()
        .unwrap();
    assert_eq!(races.len(), 1);
    assert_eq!(races[0].race_results(), &race_results_2023_4()[..]);

    let race = response_races(vec![race_2023_4_race_results()])
        .into_one_race_with_many_session_results::<RaceResult>()
        .unwrap();
    assert_eq!(race.race_results().len(), 3);

    assert!(matches!(
        response_races(vec![race_2023_4_race_results()]).into_many_races_with_many_session_results::<SprintResult>(),
        Err(Error::BadPayloadVariant)
    ));
    assert!(matches!(
        response_races(vec![race_2023_4_race_results()]).into_many_races_with_one_session_result::<RaceResult>(),
        Err(Error::TooMany)
    ));

    let single = Race { payload: Payload::RaceResults(vec![race_results_2023_4()[0].clone()]), ..race_2023_4() };
    let empty = Race { payload: Payload::RaceResults(vec![]), ..race_2021_12() };
    let race = response_races(vec![single.clone()])
        .into_one_race_with_one_session_result::<RaceResult>()
        .unwrap();
    assert_eq!(race.race_result(), &race_results_2023_4()[0]);
    assert!(matches!(
        response_races(vec![single.clone(), empty.clone()]).into_many_races_with_one_session_result::<RaceResult>(),
        Err(Error::NotFound)
    ));
    assert!(matches!(
        response_races(vec![single.clone(), single.clone()]).into_one_race_with_one_session_result::<RaceResult>(),
        Err(Error::TooMany)
    ));
    assert!(matches!(
        response_seasons_one().into_one_race_with_one_session_result::<QualifyingResult>(),
        Err(Error::BadTableVariant)
    ));
}

#[test]
fn response_driver_laps() {
    let laps = vec![
        lap(1, vec![timing("max_verstappen", 1, duration_m_s_ms(1, 50, 0))]),
        lap(2, vec![timing("max_verstappen", 2, duration_m_s_ms(1, 49, 500))]),
    ];
    let response = response_races(vec![Race { payload: Payload::Laps(laps.clone()), ..race_2023_4() }]);
    let driver_laps = response.into_driver_laps(&"max_verstappen".to_string()).unwrap();
    assert_eq!(
        driver_laps,
        vec![
            DriverLap { number: 1, position: 1, time: duration_m_s_ms(1, 50, 0) },
            DriverLap { number: 2, position: 2, time: duration_m_s_ms(1, 49, 500) },
        ]
    );

    let response = response_races(vec![Race { payload: Payload::Laps(laps.clone()), ..race_2023_4() }]);
    match response.into_driver_laps(&"leclerc".to_string()) {
        Err(Error::UnexpectedData(message)) => {
            assert_eq!(message, "Expected driver_id 'leclerc' but got 'max_verstappen'")
        },
        _ => panic!("Expected UnexpectedData"),
    }

    let two = vec![lap(1, vec![timing("a", 1, duration_millis(1)), timing("b", 2, duration_millis(2))])];
    let response = response_races(vec![Race { payload: Payload::Laps(two), ..race_2023_4() }]);
    assert!(matches!(response.into_driver_laps(&"a".to_string()), Err(Error::TooMany)));

    assert!(matches!(
        response_races(vec![race_2023_4_race_results()]).into_driver_laps(&"a".to_string()),
        Err(Error::BadPayloadVariant)
    ));
}

#[test]
fn response_lap_timings_and_pit_stops() {
    let timings = vec![timing("a", 1, duration_millis(1)), timing("b", 2, duration_millis(2))];
    let response = response_races(vec![Race { payload: Payload::Laps(vec![lap(7, timings.clone())]), ..race_2023_4() }]);
    assert_eq!(response.into_lap_timings().unwrap(), timings);

    let response = response_races(vec![Race { payload: Payload::Laps(vec![]), ..race_2023_4() }]);
    assert!(matches!(response.into_lap_timings(), Err(Error::NotFound)));

    let stops = vec![PitStop {
        driver_id: "a".to_string(),
        lap: 12,
        stop: 1,
        time: Time { hour: 14, minute: 20, second: 5 },
        duration: duration_millis(21345),
    }];
    let response = response_races(vec![Race { payload: Payload::PitStops(stops.clone()), ..race_2023_4() }]);
    assert_eq!(response.into_pit_stops().unwrap(), stops);
    assert!(matches!(response_races(vec![]).into_pit_stops(), Err(Error::NotFound)));
    assert!(matches!(
        response_races(vec![race_2023_4(), race_2021_12()]).into_pit_stops(),
        Err(Error::TooMany)
    ));
}

#[test]
fn driver_lap_try_from() {
    let ok = lap(3, vec![timing("a", 4, duration_millis(90000))]);
    assert_eq!(
        DriverLap::try_from(ok, &"a".to_string()).unwrap(),
        DriverLap { number: 3, position: 4, time: duration_millis(90000) }
    );
    assert!(matches!(DriverLap::try_from(lap(3, vec![]), &"a".to_string()), Err(Error::NotFound)));
}

// Concatenation
// -------------

fn responses_seasons() -> Vec<Response> {
    let all = seasons_all();
    vec![
        Response { pagination: pagination(2, 0, 6), table: Table::Seasons { seasons: all[0..2].to_vec() }, ..response_none() },
        Response { pagination: pagination(2, 2, 6), table: Table::Seasons { seasons: all[2..4].to_vec() }, ..response_none() },
        Response { pagination: pagination(2, 4, 6), table: Table::Seasons { seasons: all[4..6].to_vec() }, ..response_none() },
    ]
}

fn responses_drivers() -> Vec<Response> {
    let all = drivers_all();
    vec![
        Response { pagination: pagination(5, 0, 15), table: Table::Drivers { drivers: all[0..5].to_vec() }, ..response_none() },
        Response { pagination: pagination(3, 5, 15), table: Table::Drivers { drivers: all[5..8].to_vec() }, ..response_none() },
        // `limit` purposely goes > `total` to test that case
        Response { pagination: pagination(30, 8, 15), table: Table::Drivers { drivers: all[8..15].to_vec() }, ..response_none() },
    ]
}

fn response_races_concatenated() -> Response {
    Response {
        pagination: pagination(10, 0, 10),
        table: Table::Races {
            races: vec![
                Race { payload: Payload::RaceResults(race_results_2021_12()), ..race_2021_12() },
                Race { payload: Payload::RaceResults(race_results_2023_4()), ..race_2023_4() },
            ],
        },
        ..response_none()
    }
}

fn responses_races_race_results() -> Vec<Response> {
    let r2021 = race_results_2021_12();
    let r2023 = race_results_2023_4();
    vec![
        Response {
            pagination: pagination(5, 0, 10),
            table: Table::Races { races: vec![Race { payload: Payload::RaceResults(r2021[0..2].to_vec()), ..race_2021_12() }] },
            ..response_none()
        },
        Response {
            pagination: pagination(5, 5, 10),
            table: Table::Races {
                races: vec![
                    Race { payload: Payload::RaceResults(r2021[2..4].to_vec()), ..race_2021_12() },
                    Race { payload: Payload::RaceResults(r2023.clone()), ..race_2023_4() },
                ],
            },
            ..response_none()
        },
    ]
}

fn contiguous_and_first() -> PageVerify {
    PageVerify::contiguous().union(PageVerify::start_at_first_page())
}

#[test]
fn concat_responses_seasons() {
    let response = concat_response_multi_pages(responses_seasons(), PageVerify::all()).unwrap();
    assert_eq!(response.as_info(), response_none().as_info());
    assert_eq!(response.as_seasons().unwrap().len(), 6);
    assert_eq!(response.as_seasons().unwrap(), &seasons_all()[..]);
    assert_eq!(response.pagination, pagination(6, 0, 6));

    let response = concat_response_multi_pages(responses_seasons()[..2].to_vec(), contiguous_and_first()).unwrap();
    assert_eq!(response.as_info(), response_none().as_info());
    assert_eq!(response.as_seasons().unwrap().len(), 4);
    assert_eq!(response.as_seasons().unwrap(), &seasons_all()[..4]);
    assert_eq!(response.pagination, pagination(4, 0, 6));

    let response = concat_response_multi_pages(vec![responses_seasons()[0].clone()], contiguous_and_first()).unwrap();
    assert_eq!(response.as_info(), response_none().as_info());
    assert_eq!(response.as_seasons().unwrap().len(), 2);
    assert_eq!(response.as_seasons().unwrap(), &seasons_all()[..2]);
    assert_eq!(response.pagination, pagination(2, 0, 6));
}

#[test]
fn concat_responses_drivers() {
    let response = concat_response_multi_pages(responses_drivers(), PageVerify::all()).unwrap();
    assert_eq!(response.as_info(), response_none().as_info());
    assert_eq!(response.as_drivers().unwrap().len(), 15);
    assert_eq!(response.as_drivers().unwrap(), &drivers_all()[..]);
    // Note the accumulated `limit` > `total` to test that case
    assert_eq!(response.pagination, pagination(38, 0, 15));

    let response = concat_response_multi_pages(responses_drivers()[..2].to_vec(), contiguous_and_first()).unwrap();
    assert_eq!(response.as_drivers().unwrap().len(), 8);
    assert_eq!(response.as_drivers().unwrap(), &drivers_all()[..8]);
    assert_eq!(response.pagination, pagination(8, 0, 15));

    let response = concat_response_multi_pages(vec![responses_drivers()[0].clone()], contiguous_and_first()).unwrap();
    assert_eq!(response.as_drivers().unwrap().len(), 5);
    assert_eq!(response.as_drivers().unwrap(), &drivers_all()[..5]);
    assert_eq!(response.pagination, pagination(5, 0, 15));
}

#[test]
fn concat_responses_races_race_results() {
    assert_eq!(
        concat_response_multi_pages(responses_races_race_results(), PageVerify::all()).unwrap(),
        response_races_concatenated()
    );
}

#[test]
fn concat_responses_races_mixed_payloads() {
    let mut responses = responses_races_race_results();
    responses[1].table = Table::Races { races: vec![Race { payload: Payload::Laps(vec![]), ..race_2021_12() }] };
    assert!(matches!(concat_response_multi_pages(responses, PageVerify::all()), Err(Error::BadPayloadVariant)));
}

#[test]
fn concat_responses_error_empty_list() {
    assert!(matches!(concat_response_multi_pages(vec![], PageVerify::none()), Err(Error::EmptyResponseList)));
}

#[test]
fn concat_responses_error_different_info() {
    let mut responses = responses_seasons();
    responses[1].series = "f2".into();
    match concat_response_multi_pages(responses, PageVerify::none()) {
        Err(Error::BadResponseInfo(message)) => {
            let url = url::Url::parse("https://api.jolpi.ca/ergast/f1/").unwrap();
            assert_eq!(
                message,
                format!("Inconsistent response info: {:?} != {:?}", ("", "f1", url.clone()), ("", "f2", url))
            );
            assert!(message.contains("Url { scheme: \"https\""));
        },
        _ => panic!("Expected BadResponseInfo"),
    }
}

#[test]
fn concat_responses_error_different_table_variant() {
    let mut responses = responses_seasons();
    responses[2].table = Table::Drivers { drivers: vec![] };
    assert!(matches!(concat_response_multi_pages(responses, PageVerify::all()), Err(Error::BadTableVariant)));
}

#[test]
fn concat_responses_error_page_verify_contiguous() {
    let responses = |page_verify| {
        concat_response_multi_pages(vec![responses_seasons()[0].clone(), responses_seasons()[2].clone()], page_verify)
    };

    let enforce_expect_err = vec![
        (PageVerify::none(), false),
        (PageVerify::contiguous(), true),
        (PageVerify::start_at_first_page(), false),
        (PageVerify::finish_at_last_page(), false),
        (PageVerify::all(), true),
    ];

    for (page_verify, expect_err) in enforce_expect_err {
        assert!(expect_err == matches!(responses(page_verify), Err(Error::BadPagination(_))));
    }

    match responses(PageVerify::contiguous()) {
        Err(Error::BadPagination(message)) => assert_eq!(
            message,
            "Response pages are not contiguous: Pagination { limit: 2, offset: 0, total: 6 } and Pagination { limit: 2, offset: 4, total: 6 }"
        ),
        _ => panic!("Expected BadPagination"),
    }
}

#[test]
fn concat_responses_error_page_verify_start_at_first_page() {
    let responses = |page_verify| concat_response_multi_pages(responses_seasons()[1..].to_vec(), page_verify);

    let enforce_expect_err = vec![
        (PageVerify::none(), false),
        (PageVerify::contiguous(), false),
        (PageVerify::start_at_first_page(), true),
        (PageVerify::finish_at_last_page(), false),
        (PageVerify::all(), true),
    ];

    for (page_verify, expect_err) in enforce_expect_err {
        assert!(expect_err == matches!(responses(page_verify), Err(Error::BadPagination(_))));
    }

    match responses(PageVerify::start_at_first_page()) {
        Err(Error::BadPagination(message)) => assert_eq!(message, "First response page offset 2 is not 0"),
        _ => panic!("Expected BadPagination"),
    }
}

#[test]
fn concat_responses_error_page_verify_finish_at_last_page() {
    let responses = |page_verify| concat_response_multi_pages(responses_seasons()[..2].to_vec(), page_verify);

    let enforce_expect_err = vec![
        (PageVerify::none(), false),
        (PageVerify::contiguous(), false),
        (PageVerify::start_at_first_page(), false),
        (PageVerify::finish_at_last_page(), true),
        (PageVerify::all(), true),
    ];

    for (page_verify, expect_err) in enforce_expect_err {
        assert!(expect_err == matches!(responses(page_verify), Err(Error::BadPagination(_))));
    }

    match responses(PageVerify::finish_at_last_page()) {
        Err(Error::BadPagination(message)) => assert_eq!(
            message,
            "Last response in sequence is not last page: Pagination { limit: 2, offset: 2, total: 6 }"
        ),
        _ => panic!("Expected BadPagination"),
    }
}

#[test]
fn page_verify_flags() {
    assert_eq!(PageVerify::none().bits(), 0);
    assert_eq!(PageVerify::all().bits(), 7);
    assert!(PageVerify::all().contains(PageVerify::contiguous()));
    assert!(PageVerify::all().contains(PageVerify::finish_at_last_page()));
    assert!(!contiguous_and_first().contains(PageVerify::finish_at_last_page()));
    assert!(PageVerify::none().contains(PageVerify::none()));
}

#[test]
fn concat_single_page_of_distinct_races_unchanged() {
    let response = response_races_concatenated();
    assert_eq!(concat_response_multi_pages(vec![response.clone()], PageVerify::all()).unwrap(), response);
}

#[test]
fn concat_keeps_every_result() {
    let response = concat_response_multi_pages(responses_races_race_results(), PageVerify::all()).unwrap();
    let count: usize = response.as_races().unwrap().iter().map(|race| race.payload.as_race_results().unwrap().len()).sum();
    assert_eq!(count, race_results_2021_12().len() + race_results_2023_4().len());
}

#[test]
fn limits_fit_of_pages() {
    assert!(f1_data::concat::limits_fit(&responses_drivers()));
    let mut responses = responses_drivers();
    responses[0].pagination.limit = u32::MAX;
    assert!(!f1_data::concat::limits_fit(&responses));
}

#[test]
fn eq_race_info_ignores_payload() {
    assert!(f1_data::response::eq_race_info(&race_2023_4(), &race_2023_4_race_results()));
    assert!(!f1_data::response::eq_race_info(&race_2023_4(), &race_2021_12()));
}

#[test]
fn verify_is_single_page_of_responses() {
    assert!(f1_data::response::verify_is_single_page(response_seasons_one()).is_ok());
    let multi = Response { pagination: pagination(2, 0, 6), ..response_seasons_one() };
    assert!(matches!(f1_data::response::verify_is_single_page(multi), Err(Error::MultiPage)));
}

#[test]
fn concat_without_contiguous_keeps_first_pagination() {
    for page_verify in [PageVerify::none(), PageVerify::start_at_first_page(), PageVerify::finish_at_last_page()] {
        let response = concat_response_multi_pages(responses_seasons(), page_verify).unwrap();
        assert_eq!(response.pagination, pagination(2, 0, 6));
        assert_eq!(response.as_seasons().unwrap(), &seasons_all()[0..6]);
    }
    let response = concat_response_multi_pages(responses_seasons(), PageVerify::contiguous()).unwrap();
    assert_eq!(response.pagination, pagination(6, 0, 6));
}

#[test]
fn concat_single_page_checks_last_page() {
    let first = vec![responses_seasons()[0].clone()];
    match concat_response_multi_pages(first.clone(), PageVerify::finish_at_last_page()) {
        Err(Error::BadPagination(message)) => assert_eq!(
            message,
            "Last response in sequence is not last page: Pagination { limit: 2, offset: 0, total: 6 }"
        ),
        _ => panic!("Expected BadPagination"),
    }
    assert!(matches!(concat_response_multi_pages(first.clone(), PageVerify::all()), Err(Error::BadPagination(_))));
    assert_eq!(concat_response_multi_pages(first.clone(), PageVerify::contiguous()).unwrap(), first[0]);
    let last = vec![responses_seasons()[2].clone()];
    assert_eq!(concat_response_multi_pages(last.clone(), PageVerify::finish_at_last_page()).unwrap(), last[0]);
}

#[test]
fn eq_race_info_compares_coordinates_as_ordered_floats() {
    let mut lhs = race_2023_4();
    let mut rhs = race_2023_4();
    lhs.circuit.location.lat = 0.0f64.to_bits();
    rhs.circuit.location.lat = (-0.0f64).to_bits();
    assert!(f1_data::response::eq_race_info(&lhs, &rhs));

    lhs.circuit.location.long = f64::NAN.to_bits();
    rhs.circuit.location.long = f64::NAN.to_bits() | 1;
    assert!(f1_data::response::eq_race_info(&lhs, &rhs));

    rhs.circuit.location.long = 1.5f64.to_bits();
    assert!(!f1_data::response::eq_race_info(&lhs, &rhs));

    assert_eq!(f1_data::response::canonical_coordinate((-0.0f64).to_bits()), 0);
    assert_eq!(f1_data::response::canonical_coordinate(f64::INFINITY.to_bits()), f64::INFINITY.to_bits());
    assert_eq!(f1_data::response::canonical_coordinate((-f64::NAN).to_bits()), 0x7ff8_0000_0000_0000);
}

#[test]
fn concat_merges_races_at_zero_and_negative_zero() {
    let mut pages = responses_races_race_results();
    if let Table::Races { races } = &mut pages[0].table {
        races[0].circuit.location.lat = 0.0f64.to_bits();
    }
    if let Table::Races { races } = &mut pages[1].table {
        races[0].circuit.location.lat = (-0.0f64).to_bits();
    }
    let response = concat_response_multi_pages(pages, PageVerify::all()).unwrap();
    let races = response.as_races().unwrap();
    assert_eq!(races.len(), 2);
    assert_eq!(races[0].payload.as_race_results().unwrap().len(), 4);
}
