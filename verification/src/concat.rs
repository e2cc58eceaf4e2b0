//! Concatenation of the pages of a multi-page response into a single [`Response`], verifying that
//! the pages follow each other as requested, and merging the pages' entries for the same race.

use vstd::prelude::*;

use indexmap::IndexMap;

use crate::error::{F1Error, Result};
use crate::get::{is_page_sequence, lemma_page_sequence_offsets};
use crate::response::{
    canonical_coordinate, coordinate_key,
    last_page, race_info, Pagination, Payload, PayloadView, Race, Response, Table, TableView,
};
use crate::text::{decimal_text, u32_to_text};

verus! {

/// Which relations between the pages of a multi-page response [`concat_response_multi_pages`]
/// verifies, as a set of flags.
#[derive(PartialEq, Eq, Structural, Clone, Copy, Debug)]
pub struct PageVerify {
    bits: u32,
}

/// The flag that asks for contiguous pages: each starts where the one before it ends.
pub open spec fn contiguous_bit() -> u32 {
    1
}

/// The flag that asks for the first page to start at offset zero.
pub open spec fn start_at_first_page_bit() -> u32 {
    2
}

/// The flag that asks for the last page to be the last page of the response.
pub open spec fn finish_at_last_page_bit() -> u32 {
    4
}

impl PageVerify {
    /// The flags of this set.
    pub closed spec fn bits_view(self) -> u32 {
        self.bits
    }

    /// Whether this set holds every flag of `other`.
    pub open spec fn holds(self, other: PageVerify) -> bool {
        self.bits_view() & other.bits_view() == other.bits_view()
    }

    /// Whether this set asks for contiguous pages.
    pub open spec fn asks_contiguous(self) -> bool {
        self.bits_view() & contiguous_bit() == contiguous_bit()
    }

    /// Whether this set asks for the first page to start at offset zero.
    pub open spec fn asks_start_at_first_page(self) -> bool {
        self.bits_view() & start_at_first_page_bit() == start_at_first_page_bit()
    }

    /// Whether this set asks for the last page to be the last page of the response.
    pub open spec fn asks_finish_at_last_page(self) -> bool {
        self.bits_view() & finish_at_last_page_bit() == finish_at_last_page_bit()
    }

    /// No verification at all.
    pub fn none() -> (r: PageVerify)
        ensures
            r.bits_view() == 0,
    {
        PageVerify { bits: 0 }
    }

    /// Verify that the pages are contiguous: each starts where the one before it ends, and all
    /// have the same total.
    pub fn contiguous() -> (r: PageVerify)
        ensures
            r.bits_view() == contiguous_bit(),
    {
        PageVerify { bits: 1 }
    }

    /// Verify that the first page starts at offset zero.
    pub fn start_at_first_page() -> (r: PageVerify)
        ensures
            r.bits_view() == start_at_first_page_bit(),
    {
        PageVerify { bits: 2 }
    }

    /// Verify that the last page is the last page of the response.
    pub fn finish_at_last_page() -> (r: PageVerify)
        ensures
            r.bits_view() == finish_at_last_page_bit(),
    {
        PageVerify { bits: 4 }
    }

    /// Every verification: contiguous pages, from the first page to the last.
    pub fn all() -> (r: PageVerify)
        ensures
            r.bits_view() == contiguous_bit() | start_at_first_page_bit() | finish_at_last_page_bit(),
    {
        assert(1u32 | 2u32 | 4u32 == 7u32) by (bit_vector);
        PageVerify { bits: 7 }
    }

    /// The flags of this set, as bits.
    pub fn bits(&self) -> (r: u32)
        ensures
            r == self.bits_view(),
    {
        self.bits
    }

    /// The set of the flags of both sets.
    pub fn union(self, other: PageVerify) -> (r: PageVerify)
        ensures
            r.bits_view() == self.bits_view() | other.bits_view(),
    {
        PageVerify { bits: self.bits | other.bits }
    }

    /// Whether this set holds every flag of `other`.
    pub fn contains(&self, other: PageVerify) -> (r: bool)
        ensures
            r == self.holds(other),
    {
        (self.bits & other.bits) == other.bits
    }
}

/// The text of a pagination as its `Debug` formatting writes it, e.g.
/// `Pagination { limit: 30, offset: 0, total: 100 }`.
pub open spec fn pagination_text(p: Pagination) -> Seq<char> {
    "Pagination { limit: "@ + decimal_text(p.limit as nat) + ", offset: "@ + decimal_text(
        p.offset as nat,
    ) + ", total: "@ + decimal_text(p.total as nat) + " }"@
}

/// Builds the text of a pagination as its `Debug` formatting writes it.
pub fn pagination_to_text(p: Pagination) -> (r: String)
    ensures
        r@ == pagination_text(p),
{
    let mut s = String::from_str("Pagination { limit: ");
    s.append(u32_to_text(p.limit).as_str());
    s.append(", offset: ");
    s.append(u32_to_text(p.offset).as_str());
    s.append(", total: ");
    s.append(u32_to_text(p.total).as_str());
    s.append(" }");
    proof {
        reveal_strlit("Pagination { limit: ");
        reveal_strlit(", offset: ");
        reveal_strlit(", total: ");
        reveal_strlit(" }");
    }
    s
}

/// The message of the error for a first page that does not start at offset zero.
pub open spec fn first_page_message(offset: u32) -> Seq<char> {
    "First response page offset "@ + decimal_text(offset as nat) + " is not 0"@
}

/// The message of the error for a last page that is not the last page of the response.
pub open spec fn last_page_message(p: Pagination) -> Seq<char> {
    "Last response in sequence is not last page: "@ + pagination_text(p)
}

/// The message of the error for two pages that do not follow each other.
pub open spec fn contiguity_message(lhs: Pagination, rhs: Pagination) -> Seq<char> {
    "Response pages are not contiguous: "@ + pagination_text(lhs) + " and "@ + pagination_text(rhs)
}

/// The `Debug` text of the information of a response, e.g. `("", "f1", Url { scheme: .. })`.
pub uninterp spec fn info_debug_text(xmlns: Seq<char>, series: Seq<char>, url: Seq<char>) -> Seq<char>;

/// Formats the information of a response with its `Debug` formatting: the tuple of its XML
/// namespace and series, each text quoted and escaped, and its URL as the `Debug` text of the
/// `url::Url` that `Url::parse` makes of it (the quoted text, for a URL that does not parse). The
/// contract only names the text, as a function of the three texts.
#[verifier::external_body]
fn info_to_debug_text(xmlns: &str, series: &str, url: &str) -> (r: String)
    ensures
        r@ == info_debug_text(xmlns@, series@, url@),
{
    match url::Url::parse(url) {
        Ok(parsed) => format!("{:?}", (xmlns, series, parsed)),
        Err(_) => format!("{:?}", (xmlns, series, url)),
    }
}

/// The message of the error for two responses with different information.
pub open spec fn info_message(lhs: Response, rhs: Response) -> Seq<char> {
    "Inconsistent response info: "@ + info_debug_text(lhs.xmlns@, lhs.series@, lhs.url@) + " != "@
        + info_debug_text(rhs.xmlns@, rhs.series@, rhs.url@)
}

/// The variant of a table, as a number.
pub open spec fn table_kind(t: TableView) -> int {
    match t {
        TableView::Seasons(_) => 0,
        TableView::Drivers(_) => 1,
        TableView::Constructors(_) => 2,
        TableView::Circuits(_) => 3,
        TableView::Races(_) => 4,
        TableView::Status(_) => 5,
    }
}

/// Whether two tables are of the same variant.
pub open spec fn same_variant(a: TableView, b: TableView) -> bool {
    table_kind(a) == table_kind(b)
}

/// The table with the items of `a` followed by those of `b`, for tables of the same variant.
pub open spec fn table_concat(a: TableView, b: TableView) -> TableView {
    match (a, b) {
        (TableView::Seasons(x), TableView::Seasons(y)) => TableView::Seasons(x + y),
        (TableView::Drivers(x), TableView::Drivers(y)) => TableView::Drivers(x + y),
        (TableView::Constructors(x), TableView::Constructors(y)) => TableView::Constructors(x + y),
        (TableView::Circuits(x), TableView::Circuits(y)) => TableView::Circuits(x + y),
        (TableView::Races(x), TableView::Races(y)) => TableView::Races(x + y),
        (TableView::Status(x), TableView::Status(y)) => TableView::Status(x + y),
        _ => a,
    }
}

/// Concatenates the items of two tables of the same variant; [`F1Error::BadTableVariant`] for
/// tables of different variants.
fn concat_tables(lhs_table: Table, rhs_table: Table) -> (r: Result<Table>)
    ensures
        same_variant(lhs_table@, rhs_table@) ==> (r matches Ok(t) && t@ == table_concat(
            lhs_table@,
            rhs_table@,
        )),
        !same_variant(lhs_table@, rhs_table@) ==> r matches Err(F1Error::BadTableVariant),
{
    match (lhs_table, rhs_table) {
        (Table::Seasons { seasons: mut lhs }, Table::Seasons { seasons: mut rhs }) => {
            lhs.append(&mut rhs);
            Ok(Table::Seasons { seasons: lhs })
        },
        (Table::Drivers { drivers: mut lhs }, Table::Drivers { drivers: mut rhs }) => {
            lhs.append(&mut rhs);
            Ok(Table::Drivers { drivers: lhs })
        },
        (Table::Constructors { constructors: mut lhs }, Table::Constructors { constructors: mut rhs }) => {
            lhs.append(&mut rhs);
            Ok(Table::Constructors { constructors: lhs })
        },
        (Table::Circuits { circuits: mut lhs }, Table::Circuits { circuits: mut rhs }) => {
            lhs.append(&mut rhs);
            Ok(Table::Circuits { circuits: lhs })
        },
        (Table::Races { races: mut lhs }, Table::Races { races: mut rhs }) => {
            lhs.append(&mut rhs);
            Ok(Table::Races { races: lhs })
        },
        (Table::Status { status: mut lhs }, Table::Status { status: mut rhs }) => {
            lhs.append(&mut rhs);
            Ok(Table::Status { status: lhs })
        },
        _ => Err(F1Error::BadTableVariant),
    }
}

/// Whether `rhs` follows `lhs`: the same total, and an offset where `lhs` ends.
pub open spec fn follows(lhs: Pagination, rhs: Pagination) -> bool {
    lhs.total == rhs.total && lhs.offset + lhs.limit == rhs.offset
}

/// Combines the pagination of a page with that of the page after it. If `page_verify` asks for
/// contiguous pages: [`F1Error::BadPagination`] when `rhs` does not follow `lhs`, and otherwise
/// the limits add up. Without that check the pagination of `lhs` stays as it is.
fn concat_pagination(lhs: Pagination, rhs: Pagination, page_verify: PageVerify) -> (r: Result<
    Pagination,
>)
    requires
        page_verify.asks_contiguous() ==> lhs.limit + rhs.limit <= u32::MAX,
    ensures
        page_verify.asks_contiguous() && !follows(lhs, rhs) ==> (r matches Err(
            F1Error::BadPagination(m),
        ) && m@ == contiguity_message(lhs, rhs)),
        page_verify.asks_contiguous() && follows(lhs, rhs) ==> r == Ok::<Pagination, F1Error>(
            Pagination { limit: (lhs.limit + rhs.limit) as u32, offset: lhs.offset, total: lhs.total },
        ),
        !page_verify.asks_contiguous() ==> r == Ok::<Pagination, F1Error>(lhs),
{
    if !page_verify.contains(PageVerify::contiguous()) {
        return Ok(lhs);
    }
    if !((lhs.total == rhs.total) && (lhs.offset as u64 + lhs.limit as u64 == rhs.offset as u64)) {
        let mut message = String::from_str("Response pages are not contiguous: ");
        message.append(pagination_to_text(lhs).as_str());
        message.append(" and ");
        message.append(pagination_to_text(rhs).as_str());
        proof {
            reveal_strlit("Response pages are not contiguous: ");
            reveal_strlit(" and ");
        }
        return Err(F1Error::BadPagination(message));
    }
    Ok(Pagination { limit: lhs.limit + rhs.limit, offset: lhs.offset, total: lhs.total })
}

/// The key by which the entries of a race are found again in [`concat_races`]: the information
/// of the race as plain values, with texts as `String`s, the circuit as its identifier, URL,
/// name and location (its coordinates by [`coordinate_key`]), the date as year, month and day,
/// and the time as hour, minute and second.
pub type RaceKey = (u32, u32, String, String, (String, String, String, (u64, u64, String, String)), (i32, u8, u8), Option<(u8, u8, u8)>);

/// A [`RaceKey`] with its texts as sequences of characters.
pub type RaceKeyView = (u32, u32, Seq<char>, Seq<char>, (Seq<char>, Seq<char>, Seq<char>, (u64, u64, Seq<char>, Seq<char>)), (i32, u8, u8), Option<(u8, u8, u8)>);

/// The key of the information of a race.
pub open spec fn race_key_view(info: Race<()>) -> RaceKeyView {
    (
        info.season,
        info.round,
        info.url@,
        info.race_name@,
        (
            info.circuit.circuit_id@,
            info.circuit.url@,
            info.circuit.circuit_name@,
            (
                coordinate_key(info.circuit.location.lat),
                coordinate_key(info.circuit.location.long),
                info.circuit.location.locality@,
                info.circuit.location.country@,
            ),
        ),
        (info.date.year, info.date.month, info.date.day),
        match info.time {
            Some(t) => Some((t.hour, t.minute, t.second)),
            None => None,
        },
    )
}

/// Builds the key of the information of a race.
fn race_key(race: &Race) -> (k: RaceKey)
    ensures
        k@ == race_key_view(race_info(*race)),
{
    let location = &race.circuit.location;
    (
        race.season,
        race.round,
        race.url.clone(),
        race.race_name.clone(),
        (
            race.circuit.circuit_id.clone(),
            race.circuit.url.clone(),
            race.circuit.circuit_name.clone(),
            (
                canonical_coordinate(location.lat),
                canonical_coordinate(location.long),
                location.locality.clone(),
                location.country.clone(),
            ),
        ),
        (race.date.year, race.date.month, race.date.day),
        match race.time {
            Some(t) => Some((t.hour, t.minute, t.second)),
            None => None,
        },
    )
}

/// A map of the `indexmap` crate, which keeps its entries in the order of insertion.
#[verifier::external_type_specification]
#[verifier::external_body]
#[verifier::reject_recursive_types(K)]
#[verifier::reject_recursive_types(V)]
#[verifier::reject_recursive_types(S)]
pub struct ExIndexMap<K, V, S>(IndexMap<K, V, S>);

/// A map from the keys of races to their positions in a list.
pub type RacePositions = IndexMap<RaceKey, usize>;

/// The entries of a map from race keys to positions, by the keys' texts.
pub uninterp spec fn race_positions(m: RacePositions) -> Map<RaceKeyView, usize>;

/// The entries of a map without entries.
pub open spec fn no_race_positions() -> Map<RaceKeyView, usize> {
    Map::empty()
}

/// `IndexMap::new`: a map without entries.
#[verifier::external_body]
fn race_positions_new() -> (r: RacePositions)
    ensures
        race_positions(r) == no_race_positions(),
{
    IndexMap::new()
}

/// `IndexMap::get`: the value of the entry whose key equals `key`, if there is one; keys of
/// texts, integers and options of integers are equal when their views are.
#[verifier::external_body]
fn race_positions_get(m: &RacePositions, key: &RaceKey) -> (r: Option<usize>)
    ensures
        race_positions(*m).dom().contains(key@) ==> r == Some(race_positions(*m)[key@]),
        !race_positions(*m).dom().contains(key@) ==> r is None,
{
    m.get(key).copied()
}

/// `IndexMap::insert`: sets the value of the entry whose key equals `key`, adding the entry when
/// there is none.
#[verifier::external_body]
fn race_positions_insert(m: &mut RacePositions, key: RaceKey, value: usize)
    ensures
        race_positions(*final(m)) == race_positions(*old(m)).insert(key@, value),
{
    let _previous = m.insert(key, value);
}

/// The payload of the merged entries of a race: two schedules give the first one, two lists of
/// the same variant give the first list followed by the second; `None` for payloads of different
/// variants.
pub open spec fn merge_payloads(a: PayloadView, b: PayloadView) -> Option<PayloadView> {
    match (a, b) {
        (PayloadView::Schedule(x), PayloadView::Schedule(_)) => Some(PayloadView::Schedule(x)),
        (PayloadView::QualifyingResults(x), PayloadView::QualifyingResults(y)) => Some(
            PayloadView::QualifyingResults(x + y),
        ),
        (PayloadView::SprintResults(x), PayloadView::SprintResults(y)) => Some(
            PayloadView::SprintResults(x + y),
        ),
        (PayloadView::RaceResults(x), PayloadView::RaceResults(y)) => Some(
            PayloadView::RaceResults(x + y),
        ),
        (PayloadView::Laps(x), PayloadView::Laps(y)) => Some(PayloadView::Laps(x + y)),
        (PayloadView::PitStops(x), PayloadView::PitStops(y)) => Some(PayloadView::PitStops(x + y)),
        _ => None,
    }
}

/// Whether `z` is the items of `x` followed by those of `y`: item `i` of `z` is item `i` of `x`
/// for `i` below the length of `x`, and item `i - x.len()` of `y` after it.
pub open spec fn lists_one_after_other<A>(z: Seq<A>, x: Seq<A>, y: Seq<A>) -> bool {
    &&& z.len() == x.len() + y.len()
    &&& forall|i: int| 0 <= i < x.len() ==> #[trigger] z[i] == x[i]
    &&& forall|j: int| 0 <= j < y.len() ==> #[trigger] z[x.len() + j] == y[j]
}

/// Merging the payloads of two entries of the same race keeps the earlier entry's items first,
/// in their order, then the later entry's, for every list payload; the schedule of the earlier
/// entry is kept; payloads of different variants do not merge.
pub proof fn law_merge_payloads_keeps_page_order(a: PayloadView, b: PayloadView)
    ensures
        a matches PayloadView::QualifyingResults(x) ==> (b matches PayloadView::QualifyingResults(y)
            ==> (merge_payloads(a, b) matches Some(PayloadView::QualifyingResults(z))
            && lists_one_after_other(z, x, y))),
        a matches PayloadView::SprintResults(x) ==> (b matches PayloadView::SprintResults(y) ==> (
        merge_payloads(a, b) matches Some(PayloadView::SprintResults(z)) && lists_one_after_other(
            z,
            x,
            y,
        ))),
        a matches PayloadView::RaceResults(x) ==> (b matches PayloadView::RaceResults(y) ==> (
        merge_payloads(a, b) matches Some(PayloadView::RaceResults(z)) && lists_one_after_other(
            z,
            x,
            y,
        ))),
        a matches PayloadView::Laps(x) ==> (b matches PayloadView::Laps(y) ==> (merge_payloads(a, b)
            matches Some(PayloadView::Laps(z)) && lists_one_after_other(z, x, y))),
        a matches PayloadView::PitStops(x) ==> (b matches PayloadView::PitStops(y) ==> (
        merge_payloads(a, b) matches Some(PayloadView::PitStops(z)) && lists_one_after_other(
            z,
            x,
            y,
        ))),
        a is Schedule && b is Schedule ==> merge_payloads(a, b) == Some(a),
        same_payload_variant(a, b) <==> merge_payloads(a, b) is Some,
{
}

/// Whether two payloads are of the same variant.
pub open spec fn same_payload_variant(a: PayloadView, b: PayloadView) -> bool {
    ||| a is QualifyingResults && b is QualifyingResults
    ||| a is SprintResults && b is SprintResults
    ||| a is RaceResults && b is RaceResults
    ||| a is Laps && b is Laps
    ||| a is PitStops && b is PitStops
    ||| a is Schedule && b is Schedule
}

/// A group of the entries of one race: the information of its first entry, and the merged
/// payload of all of them.
pub type RaceGroup = (Race<()>, PayloadView);

/// The position of the group of `groups` whose key is `key`, if there is one.
pub open spec fn group_position(groups: Seq<RaceGroup>, key: RaceKeyView) -> Option<int>
    decreases groups.len(),
{
    if groups.len() == 0 {
        None
    } else if race_key_view(groups.last().0) == key {
        Some(groups.len() - 1)
    } else {
        group_position(groups.drop_last(), key)
    }
}

/// Adds a race to its group, or as a new group last if no group has its key; `None` if its
/// payload cannot be merged into its group's.
pub open spec fn add_to_groups(groups: Seq<RaceGroup>, race: Race) -> Option<Seq<RaceGroup>> {
    match group_position(groups, race_key_view(race_info(race))) {
        Some(i) => match merge_payloads(groups[i].1, race.payload@) {
            Some(p) => Some(groups.update(i, (groups[i].0, p))),
            None => None,
        },
        None => Some(groups.push((race_info(race), race.payload@))),
    }
}

/// The groups of the entries of the same races in `races`, in the order of each race's first
/// entry; `None` if the payloads of two entries of the same race cannot be merged.
pub open spec fn group_races(races: Seq<Race>) -> Option<Seq<RaceGroup>>
    decreases races.len(),
{
    if races.len() == 0 {
        Some(Seq::empty())
    } else {
        match group_races(races.drop_last()) {
            Some(groups) => add_to_groups(groups, races.last()),
            None => None,
        }
    }
}

/// Merges the payload `rhs` into `lhs`, with [`merge_payloads`]; [`F1Error::BadPayloadVariant`]
/// for payloads of different variants, leaving `lhs` as it was.
fn merge_payload(lhs: &mut Payload, rhs: Payload) -> (r: Result<()>)
    ensures
        match merge_payloads(old(lhs)@, rhs@) {
            Some(p) => r is Ok && final(lhs)@ == p,
            None => r matches Err(F1Error::BadPayloadVariant) && final(lhs)@ == old(lhs)@,
        },
{
    match (lhs, rhs) {
        (Payload::Schedule(_), Payload::Schedule(_)) => Ok(()),
        (Payload::QualifyingResults(l), Payload::QualifyingResults(mut r)) => {
            l.append(&mut r);
            Ok(())
        },
        (Payload::SprintResults(l), Payload::SprintResults(mut r)) => {
            l.append(&mut r);
            Ok(())
        },
        (Payload::RaceResults(l), Payload::RaceResults(mut r)) => {
            l.append(&mut r);
            Ok(())
        },
        (Payload::Laps(l), Payload::Laps(mut r)) => {
            l.append(&mut r);
            Ok(())
        },
        (Payload::PitStops(l), Payload::PitStops(mut r)) => {
            l.append(&mut r);
            Ok(())
        },
        _ => Err(F1Error::BadPayloadVariant),
    }
}

/// Whether `v` holds the races of `groups`, in order: each group's information with its merged
/// payload.
pub open spec fn races_of_groups(v: Seq<Race>, groups: Seq<RaceGroup>) -> bool {
    &&& v.len() == groups.len()
    &&& forall|i: int|
        0 <= i < groups.len() ==> race_info(#[trigger] v[i]) == groups[i].0 && v[i].payload@
            == groups[i].1
}

/// Merges the entries of the same race, e.g. the race results of a race that were split over two
/// pages, keeping the races in the order of their first entries; [`F1Error::BadPayloadVariant`]
/// if the payloads of two entries of the same race are of different variants.
fn concat_races(races: Vec<Race>) -> (r: Result<Vec<Race>>)
    ensures
        match group_races(races@) {
            Some(groups) => r matches Ok(v) && races_of_groups(v@, groups),
            None => r matches Err(F1Error::BadPayloadVariant),
        },
{
    let ghost rs = races@;
    let mut positions = race_positions_new();
    let mut grouped: Vec<Race> = Vec::new();
    let ghost mut groups: Seq<RaceGroup> = Seq::empty();
    for race in it: races.into_iter()
        invariant
            it.seq() == rs,
            group_races(rs.take(it.index() as int)) == Some(groups),
            races_of_groups(grouped@, groups),
            forall|key: RaceKeyView|
                #![trigger race_positions(positions).dom().contains(key)]
                race_positions(positions).dom().contains(key) <==> group_position(groups, key) is Some,
            forall|key: RaceKeyView|
                #![trigger race_positions(positions)[key]]
                race_positions(positions).dom().contains(key) ==> group_position(groups, key) == Some(
                    race_positions(positions)[key] as int,
                ),
    {
        let ghost k = it.index();
        assert(race == rs[k]);
        assert(rs.take(k + 1).drop_last() =~= rs.take(k as int));
        let key = race_key(&race);
        match race_positions_get(&positions, &key) {
            Some(i) => {
                proof {
                    lemma_group_position_bounds(groups, key@);
                    assert(race_info(grouped@[i as int]) == groups[i as int].0);
                }
                let payload = race.payload;
                let merged = merge_payload(&mut grouped[i].payload, payload);
                match merged {
                    Ok(()) => {},
                    Err(e) => {
                        proof {
                            assert(group_races(rs.take(k + 1)) is None);
                            lemma_group_races_none(rs, k + 1);
                        }
                        return Err(e);
                    },
                }
                proof {
                    let g = (groups[i as int].0, grouped@[i as int].payload@);
                    lemma_group_position_update(groups, i as int, g);
                    groups = groups.update(i as int, g);
                    assert(group_races(rs.take(k + 1)) == Some(groups));
                }
            },
            None => {
                proof {
                    lemma_group_position_absent_push(groups, key@, (race_info(race), race.payload@));
                }
                race_positions_insert(&mut positions, key, grouped.len());
                proof {
                    groups = groups.push((race_info(race), race.payload@));
                }
                grouped.push(race);
            },
        }
    }
    assert(rs.take(rs.len() as int) =~= rs);
    Ok(grouped)
}

/// Once the entries of a prefix of `rs` cannot be grouped, neither can those of `rs`.
proof fn lemma_group_races_none(rs: Seq<Race>, n: int)
    requires
        0 <= n <= rs.len(),
        group_races(rs.take(n)) is None,
    ensures
        group_races(rs) is None,
    decreases rs.len(),
{
    if n == rs.len() {
        assert(rs.take(n) =~= rs);
    } else {
        assert(rs.drop_last().take(n) =~= rs.take(n));
        lemma_group_races_none(rs.drop_last(), n);
    }
}

/// Replacing a group by one with the same information leaves the positions of all keys as they
/// were.
proof fn lemma_group_position_update(groups: Seq<RaceGroup>, i: int, g: RaceGroup)
    requires
        0 <= i < groups.len(),
        g.0 == groups[i].0,
    ensures
        forall|key: RaceKeyView|
            #![trigger group_position(groups.update(i, g), key)]
            group_position(groups.update(i, g), key) == group_position(groups, key),
    decreases groups.len(),
{
    let u = groups.update(i, g);
    assert(u.last().0 == groups.last().0);
    if i < groups.len() - 1 {
        assert(u.drop_last() =~= groups.drop_last().update(i, g));
        lemma_group_position_update(groups.drop_last(), i, g);
    } else {
        assert(u.drop_last() =~= groups.drop_last());
    }
    assert forall|key: RaceKeyView| #[trigger] group_position(u, key) == group_position(groups, key) by {
        if race_key_view(u.last().0) != key {
            assert(group_position(u, key) == group_position(u.drop_last(), key));
        }
    }
}

/// The position of a key in groups is that of a group with that key.
proof fn lemma_group_position_bounds(groups: Seq<RaceGroup>, key: RaceKeyView)
    ensures
        group_position(groups, key) matches Some(i) ==> 0 <= i < groups.len() && race_key_view(
            groups[i].0,
        ) == key,
    decreases groups.len(),
{
    if groups.len() > 0 && race_key_view(groups.last().0) != key {
        lemma_group_position_bounds(groups.drop_last(), key);
    }
}

/// Adding a group with a new key makes its key be found at the end, and leaves the positions of
/// the other keys as they were.
proof fn lemma_group_position_absent_push(groups: Seq<RaceGroup>, key: RaceKeyView, g: RaceGroup)
    requires
        group_position(groups, key) is None,
        race_key_view(g.0) == key,
    ensures
        group_position(groups.push(g), key) == Some(groups.len() as int),
        forall|other: RaceKeyView|
            other != key ==> group_position(groups.push(g), other) == group_position(groups, other),
{
    assert(groups.push(g).drop_last() =~= groups);
}

/// The information of a response: its XML namespace, series and URL.
pub open spec fn info_of(r: Response) -> (Seq<char>, Seq<char>, Seq<char>) {
    (r.xmlns@, r.series@, r.url@)
}

/// The sum of the limits of the first `n` pages.
pub open spec fn limits_before(rs: Seq<Response>, n: int) -> int
    decreases n,
{
    if n <= 0 {
        0
    } else {
        limits_before(rs, n - 1) + rs[n - 1].pagination.limit
    }
}

/// The pagination of the first `n` pages combined: the offset and total of the first page, and
/// the sum of the limits.
pub open spec fn combined_pagination(rs: Seq<Response>, n: int) -> Pagination {
    Pagination {
        limit: limits_before(rs, n) as u32,
        offset: rs[0].pagination.offset,
        total: rs[0].pagination.total,
    }
}

/// The table of the first `n` pages combined: the items of each, in order.
pub open spec fn tables_concat(rs: Seq<Response>, n: int) -> TableView
    decreases n,
{
    if n <= 1 {
        rs[0].table@
    } else {
        table_concat(tables_concat(rs, n - 1), rs[n - 1].table@)
    }
}

/// Whether page `i` can be appended to the pages before it: the same information as the first
/// page, a pagination that follows theirs if `page_verify` asks for contiguous pages, and a table
/// of the same variant.
pub open spec fn page_fits(rs: Seq<Response>, i: int, page_verify: PageVerify) -> bool {
    &&& info_of(rs[i]) == info_of(rs[0])
    &&& page_verify.asks_contiguous() ==> follows(combined_pagination(rs, i), rs[i].pagination)
    &&& same_variant(rs[i].table@, rs[0].table@)
}

/// Whether `e` is the error for page `i`, which cannot be appended to the pages before it: the
/// first check that fails, in the order of [`page_fits`].
pub open spec fn page_error(rs: Seq<Response>, i: int, page_verify: PageVerify, e: F1Error) -> bool {
    if info_of(rs[i]) != info_of(rs[0]) {
        e matches F1Error::BadResponseInfo(m) && m@ == info_message(rs[0], rs[i])
    } else if page_verify.asks_contiguous() && !follows(combined_pagination(rs, i), rs[i].pagination) {
        e matches F1Error::BadPagination(m) && m@ == contiguity_message(
            combined_pagination(rs, i),
            rs[i].pagination,
        )
    } else {
        e == F1Error::BadTableVariant
    }
}

/// Whether every page after the first can be appended to the pages before it.
pub open spec fn all_pages_fit(rs: Seq<Response>, page_verify: PageVerify) -> bool {
    forall|i: int| 1 <= i < rs.len() ==> #[trigger] page_fits(rs, i, page_verify)
}

/// Whether `k` is the first page that cannot be appended to the pages before it.
pub open spec fn first_unfit_page(rs: Seq<Response>, page_verify: PageVerify, k: int) -> bool {
    &&& 1 <= k < rs.len()
    &&& !page_fits(rs, k, page_verify)
    &&& forall|j: int| 1 <= j < k ==> #[trigger] page_fits(rs, j, page_verify)
}

/// The pagination of the pages `rs` concatenated: the combined pagination when `page_verify` asks
/// for contiguous pages, and otherwise that of the first page.
pub open spec fn result_pagination(rs: Seq<Response>, page_verify: PageVerify) -> Pagination {
    if page_verify.asks_contiguous() {
        combined_pagination(rs, rs.len() as int)
    } else {
        rs[0].pagination
    }
}

/// Whether `resp` is the response of the pages `rs` combined: the information of the first page,
/// the pagination of [`result_pagination`], and the table `table`.
pub open spec fn combined_response(resp: Response, rs: Seq<Response>, page_verify: PageVerify, table: TableView) -> bool {
    &&& resp.xmlns == rs[0].xmlns
    &&& resp.series == rs[0].series
    &&& resp.url == rs[0].url
    &&& resp.pagination == result_pagination(rs, page_verify)
    &&& resp.table@ == table
}

/// Whether `r` is the outcome of concatenating the pages `rs`, which all fit together: the
/// combined response, with the entries of the same race merged when the table is of races, or
/// [`F1Error::BadPayloadVariant`] when they cannot be merged.
pub open spec fn concat_outcome(rs: Seq<Response>, page_verify: PageVerify, r: Result<Response>) -> bool {
    match tables_concat(rs, rs.len() as int) {
        TableView::Races(races) => match group_races(races) {
            Some(groups) => r matches Ok(resp) && exists|v: Seq<Race>|
                combined_response(resp, rs, page_verify, TableView::Races(v)) && #[trigger] races_of_groups(v, groups),
            None => r matches Err(F1Error::BadPayloadVariant),
        },
        t => r matches Ok(resp) && combined_response(resp, rs, page_verify, t),
    }
}

/// Whether the sum of the limits of all the pages fits in the limit of a single pagination, as
/// [`concat_response_multi_pages`] asks.
pub fn limits_fit(responses: &Vec<Response>) -> (r: bool)
    ensures
        r == (limits_before(responses@, responses@.len() as int) <= u32::MAX),
{
    let mut sum: u64 = 0;
    let mut i: usize = 0;
    while i < responses.len()
        invariant
            i <= responses@.len(),
            sum == limits_before(responses@, i as int),
            sum <= u32::MAX,
        decreases responses.len() - i,
    {
        sum = sum + responses[i].pagination.limit as u64;
        if sum > 0xffff_ffff {
            proof {
                lemma_limits_before_monotone(responses@, i + 1, responses@.len() as int);
            }
            return false;
        }
        i = i + 1;
    }
    true
}

/// The sums of the limits grow with the number of pages.
proof fn lemma_limits_before_monotone(rs: Seq<Response>, a: int, b: int)
    requires
        0 <= a <= b,
    ensures
        limits_before(rs, a) <= limits_before(rs, b),
    decreases b,
{
    if a < b {
        lemma_limits_before_monotone(rs, a, b - 1);
    }
}

/// The combined table of pages is of the variant of the first page's table.
proof fn lemma_tables_concat_kind(rs: Seq<Response>, n: int)
    ensures
        table_kind(tables_concat(rs, n)) == table_kind(rs[0].table@),
    decreases n,
{
    if n > 1 {
        lemma_tables_concat_kind(rs, n - 1);
    }
}

/// Concatenates the pages of a multi-page response into a single [`Response`], in order, after
/// verifying what `page_verify` asks for: [`F1Error::EmptyResponseList`] for no pages;
/// [`F1Error::BadPagination`] if the first page does not start at offset zero, or if the last
/// page is not the last page of the response; then, for the first page that cannot be appended to
/// the ones before it, [`F1Error::BadResponseInfo`] if its information differs,
/// [`F1Error::BadPagination`] if it does not follow them, or [`F1Error::BadTableVariant`] if its
/// table is of another variant. The combined response has the information of the first page, its
/// offset and total, and, when `page_verify` asks for contiguous pages, the sum of the limits;
/// otherwise the pagination of the first page. Entries of the same race are merged, with
/// [`F1Error::BadPayloadVariant`] if their payloads are of different variants.
pub fn concat_response_multi_pages(responses: Vec<Response>, page_verify: PageVerify) -> (r: Result<
    Response,
>)
    requires
        page_verify.asks_contiguous() ==> limits_before(responses@, responses@.len() as int) <= u32::MAX,
    ensures
        ({
            let rs = responses@;
            if rs.len() == 0 {
                r matches Err(F1Error::EmptyResponseList)
            } else if page_verify.asks_start_at_first_page() && rs[0].pagination.offset != 0 {
                r matches Err(F1Error::BadPagination(m)) && m@ == first_page_message(
                    rs[0].pagination.offset,
                )
            } else if page_verify.asks_finish_at_last_page() && !last_page(
                rs.last().pagination,
            ) {
                r matches Err(F1Error::BadPagination(m)) && m@ == last_page_message(
                    rs.last().pagination,
                )
            } else if !all_pages_fit(rs, page_verify) {
                exists|k: int|
                    #![trigger first_unfit_page(rs, page_verify, k)]
                    {
                        &&& first_unfit_page(rs, page_verify, k)
                        &&& r matches Err(e)
                        &&& page_error(rs, k, page_verify, e)
                    }
            } else {
                concat_outcome(rs, page_verify, r)
            }
        }),
{
    let ghost rs = responses@;
    let mut pages = responses;
    let n = pages.len();
    if n == 0 {
        return Err(F1Error::EmptyResponseList);
    }
    let first_offset = pages[0].pagination.offset;
    if page_verify.contains(PageVerify::start_at_first_page()) && first_offset != 0 {
        let mut message = String::from_str("First response page offset ");
        message.append(u32_to_text(first_offset).as_str());
        message.append(" is not 0");
        proof {
            reveal_strlit("First response page offset ");
            reveal_strlit(" is not 0");
        }
        return Err(F1Error::BadPagination(message));
    }
    if page_verify.contains(PageVerify::finish_at_last_page()) {
        let last = pages[n - 1].pagination;
        if !(last.offset as u64 + last.limit as u64 >= last.total as u64) {
            let mut message = String::from_str("Last response in sequence is not last page: ");
            message.append(pagination_to_text(last).as_str());
            proof {
                reveal_strlit("Last response in sequence is not last page: ");
            }
            return Err(F1Error::BadPagination(message));
        }
    }
    let first = pages.remove(0);
    let Response { xmlns, series, url, mut pagination, mut table } = first;
    let ghost rest = pages@;
    assert(rest =~= rs.skip(1));
    assert(limits_before(rs, 1) == rs[0].pagination.limit) by {
        reveal_with_fuel(limits_before, 2);
    }
    for rhs in it: pages.into_iter()
        invariant
            it.seq() == rest,
            rest == rs.skip(1),
            rs == responses@,
            rs.len() == n,
            n >= 1,
            !(page_verify.asks_start_at_first_page() && rs[0].pagination.offset != 0),
            !(page_verify.asks_finish_at_last_page() && !last_page(rs.last().pagination)),
            page_verify.asks_contiguous() ==> limits_before(rs, rs.len() as int) <= u32::MAX,
            xmlns == rs[0].xmlns,
            series == rs[0].series,
            url == rs[0].url,
            pagination == (if page_verify.asks_contiguous() {
                combined_pagination(rs, it.index() + 1)
            } else {
                rs[0].pagination
            }),
            table@ == tables_concat(rs, it.index() + 1),
            forall|j: int| 1 <= j <= it.index() ==> #[trigger] page_fits(rs, j, page_verify),
    {
        let ghost i = it.index() + 1;
        assert(rhs == rs[i]);
        if !(xmlns == rhs.xmlns && series == rhs.series && url == rhs.url) {
            let mut message = String::from_str("Inconsistent response info: ");
            message.append(info_to_debug_text(xmlns.as_str(), series.as_str(), url.as_str()).as_str());
            message.append(" != ");
            message.append(
                info_to_debug_text(rhs.xmlns.as_str(), rhs.series.as_str(), rhs.url.as_str()).as_str(),
            );
            proof {
                reveal_strlit("Inconsistent response info: ");
                reveal_strlit(" != ");
                assert(first_unfit_page(rs, page_verify, i));
            }
            return Err(F1Error::BadResponseInfo(message));
        }
        proof {
            lemma_limits_before_monotone(rs, i + 1, rs.len() as int);
            lemma_limits_before_monotone(rs, 0, i);
        }
        pagination = match concat_pagination(pagination, rhs.pagination, page_verify) {
            Ok(p) => p,
            Err(e) => {
                proof {
                    assert(first_unfit_page(rs, page_verify, i));
                }
                return Err(e);
            },
        };
        proof {
            lemma_tables_concat_kind(rs, i);
        }
        table = match concat_tables(table, rhs.table) {
            Ok(t) => t,
            Err(e) => {
                proof {
                    assert(first_unfit_page(rs, page_verify, i));
                }
                return Err(e);
            },
        };
        assert(page_fits(rs, i, page_verify));
    }
    let table = match table {
        Table::Races { races } => match concat_races(races) {
            Ok(merged) => Table::Races { races: merged },
            Err(e) => {
                return Err(e);
            },
        },
        other => other,
    };
    Ok(Response { xmlns, series, url, pagination, table })
}

/// The sum of the limits of the first `n` pages of a page sequence is `n` limits.
proof fn lemma_limits_of_page_sequence(rs: Seq<Response>, pages: Seq<Pagination>, first: Pagination, n: int)
    requires
        is_page_sequence(pages, first),
        rs.len() == pages.len(),
        forall|i: int| 0 <= i < rs.len() ==> (#[trigger] rs[i]).pagination == pages[i],
        0 <= n <= rs.len(),
    ensures
        limits_before(rs, n) == n * first.limit,
    decreases n,
{
    if n > 0 {
        lemma_limits_of_page_sequence(rs, pages, first, n - 1);
        lemma_page_sequence_offsets(pages, first);
        assert(rs[n - 1].pagination.limit == first.limit);
        assert(limits_before(rs, n) == limits_before(rs, n - 1) + rs[n - 1].pagination.limit);
        assert((n - 1) * first.limit + first.limit == n * first.limit) by (nonlinear_arith);
    } else {
        assert(n * first.limit == 0) by (nonlinear_arith)
            requires
                n == 0,
        ;
    }
}

/// The pages of a response, listed from its first page with `multi_page_plan` and requested one
/// by one, pass every verification of [`concat_response_multi_pages`] when their responses have
/// the same information and tables of the same variant: the first starts at offset zero, each
/// follows the pages before it, and the last is the last page. Their combined pagination is then
/// that of a single page holding every item.
pub proof fn law_planned_pages_fit(rs: Seq<Response>, pages: Seq<Pagination>, first: Pagination)
    requires
        is_page_sequence(pages, first),
        first.offset == 0,
        rs.len() == pages.len(),
        forall|i: int| 0 <= i < rs.len() ==> (#[trigger] rs[i]).pagination == pages[i],
        forall|i: int|
            0 <= i < rs.len() ==> info_of(#[trigger] rs[i]) == info_of(rs[0]) && same_variant(
                rs[i].table@,
                rs[0].table@,
            ),
    ensures
        rs[0].pagination.offset == 0,
        last_page(rs.last().pagination),
        forall|page_verify: PageVerify| all_pages_fit(rs, page_verify),
        limits_before(rs, rs.len() as int) >= rs[0].pagination.total,
{
    lemma_page_sequence_offsets(pages, first);
    assert(rs.last() == rs[rs.len() - 1]);
    assert forall|page_verify: PageVerify| all_pages_fit(rs, page_verify) by {
        assert forall|i: int| 1 <= i < rs.len() implies #[trigger] page_fits(rs, i, page_verify) by {
            lemma_limits_of_page_sequence(rs, pages, first, i);
            assert(rs[i].pagination == pages[i]);
            assert(rs[0].pagination == pages[0]);
        }
    }
    lemma_limits_of_page_sequence(rs, pages, first, rs.len() as int);
    crate::get::law_page_sequence_covers_total(pages, first);
}

/// The groups of races whose entries are each for a different race: every race in its own group,
/// in order.
pub open spec fn ungrouped(races: Seq<Race>) -> Seq<RaceGroup> {
    Seq::new(races.len(), |i: int| (race_info(races[i]), races[i].payload@))
}

/// Whether the entries of `races` are each for a different race.
pub open spec fn distinct_races(races: Seq<Race>) -> bool {
    forall|i: int, j: int|
        0 <= i < j < races.len() ==> race_key_view(race_info(#[trigger] races[i])) != race_key_view(
            race_info(#[trigger] races[j]),
        )
}

/// Merging the entries of races leaves a list whose entries are each for a different race as it
/// is: each race in its own group, in order.
pub proof fn law_group_distinct_races(races: Seq<Race>)
    requires
        distinct_races(races),
    ensures
        group_races(races) == Some(ungrouped(races)),
    decreases races.len(),
{
    if races.len() > 0 {
        let prefix = races.drop_last();
        assert(distinct_races(prefix)) by {
            assert forall|i: int, j: int| 0 <= i < j < prefix.len() implies race_key_view(
                race_info(#[trigger] prefix[i]),
            ) != race_key_view(race_info(#[trigger] prefix[j])) by {
                assert(prefix[i] == races[i] && prefix[j] == races[j]);
            }
        }
        law_group_distinct_races(prefix);
        let groups = ungrouped(prefix);
        let key = race_key_view(race_info(races.last()));
        lemma_group_position_bounds(groups, key);
        if let Some(i) = group_position(groups, key) {
            assert(races[i] == prefix[i]);
            assert(race_key_view(race_info(races[i])) != race_key_view(
                race_info(races[races.len() - 1]),
            ));
        }
        assert(groups.push((race_info(races.last()), races.last().payload@)) =~= ungrouped(races));
    }
}

/// The number of results, laps or pit stops that a payload holds; none for a schedule.
pub open spec fn payload_len(p: PayloadView) -> nat {
    match p {
        PayloadView::QualifyingResults(s) => s.len(),
        PayloadView::SprintResults(s) => s.len(),
        PayloadView::RaceResults(s) => s.len(),
        PayloadView::Laps(s) => s.len(),
        PayloadView::PitStops(s) => s.len(),
        PayloadView::Schedule(_) => 0,
    }
}

/// The number of results, laps or pit stops that the entries of races hold in all.
pub open spec fn races_payload_len(races: Seq<Race>) -> nat
    decreases races.len(),
{
    if races.len() == 0 {
        0
    } else {
        races_payload_len(races.drop_last()) + payload_len(races.last().payload@)
    }
}

/// The number of results, laps or pit stops that groups of races hold in all.
pub open spec fn groups_payload_len(groups: Seq<RaceGroup>) -> nat
    decreases groups.len(),
{
    if groups.len() == 0 {
        0
    } else {
        groups_payload_len(groups.drop_last()) + payload_len(groups.last().1)
    }
}

/// Replacing a group changes the number of items of the groups by the difference of the two
/// groups' numbers.
proof fn lemma_groups_payload_len_update(groups: Seq<RaceGroup>, i: int, g: RaceGroup)
    requires
        0 <= i < groups.len(),
    ensures
        groups_payload_len(groups.update(i, g)) + payload_len(groups[i].1) == groups_payload_len(
            groups,
        ) + payload_len(g.1),
    decreases groups.len(),
{
    let u = groups.update(i, g);
    if i < groups.len() - 1 {
        assert(u.drop_last() =~= groups.drop_last().update(i, g));
        lemma_groups_payload_len_update(groups.drop_last(), i, g);
    } else {
        assert(u.drop_last() =~= groups.drop_last());
    }
}

/// Merging the entries of the same races loses and duplicates nothing: the groups hold as many
/// results, laps or pit stops as the entries did.
pub proof fn law_group_races_keeps_items(races: Seq<Race>)
    requires
        group_races(races) is Some,
    ensures
        groups_payload_len(group_races(races)->0) == races_payload_len(races),
    decreases races.len(),
{
    if races.len() > 0 {
        let prefix = races.drop_last();
        law_group_races_keeps_items(prefix);
        let groups = group_races(prefix)->0;
        let race = races.last();
        match group_position(groups, race_key_view(race_info(race))) {
            Some(i) => {
                lemma_group_position_bounds(groups, race_key_view(race_info(race)));
                let p = merge_payloads(groups[i].1, race.payload@)->0;
                lemma_groups_payload_len_update(groups, i, (groups[i].0, p));
            },
            None => {
                assert(groups.push((race_info(race), race.payload@)).drop_last() =~= groups);
            },
        }
    }
}

/// The number of items that a table holds.
pub open spec fn table_len(t: TableView) -> nat {
    match t {
        TableView::Seasons(s) => s.len(),
        TableView::Drivers(s) => s.len(),
        TableView::Constructors(s) => s.len(),
        TableView::Circuits(s) => s.len(),
        TableView::Races(s) => s.len(),
        TableView::Status(s) => s.len(),
    }
}

/// The number of items that the tables of the first `n` pages hold in all.
pub open spec fn table_lens_before(rs: Seq<Response>, n: int) -> nat
    decreases n,
{
    if n <= 0 {
        0
    } else {
        table_lens_before(rs, n - 1) + table_len(rs[n - 1].table@)
    }
}

/// Concatenating pages loses and duplicates no item: the combined table of pages whose tables
/// are all of one variant holds as many items as the pages do together.
pub proof fn law_tables_concat_keeps_items(rs: Seq<Response>, n: int)
    requires
        1 <= n <= rs.len(),
        forall|i: int| 0 <= i < n ==> same_variant(#[trigger] rs[i].table@, rs[0].table@),
    ensures
        table_len(tables_concat(rs, n)) == table_lens_before(rs, n),
    decreases n,
{
    if n == 1 {
        assert(table_lens_before(rs, 0) == 0);
    } else {
        law_tables_concat_keeps_items(rs, n - 1);
        lemma_tables_concat_kind(rs, n - 1);
        assert(same_variant(rs[n - 1].table@, rs[0].table@));
    }
}

/// A single page is concatenated into itself: its own pagination, its own table, and every
/// verification passes but those on the first page's offset and on the last page.
pub proof fn law_single_page_unchanged(rs: Seq<Response>)
    requires
        rs.len() == 1,
    ensures
        combined_pagination(rs, 1) == rs[0].pagination,
        tables_concat(rs, 1) == rs[0].table@,
        forall|page_verify: PageVerify| all_pages_fit(rs, page_verify),
{
    assert(limits_before(rs, 1) == rs[0].pagination.limit) by {
        reveal_with_fuel(limits_before, 2);
    }
}

} // verus!
