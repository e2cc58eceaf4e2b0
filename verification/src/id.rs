//! Identifiers of drivers, constructors, circuits, seasons, rounds and races.

use vstd::prelude::*;

verus! {

/// Uniquely identifies a driver by a string, e.g. `"max_verstappen"` for _Max Verstappen_
pub type DriverID = String;

/// Uniquely identifies a constructor by a string, e.g. `"mclaren"` for _McLaren_
pub type ConstructorID = String;

/// Uniquely identifies a circuit by a string, e.g. `"spa"` for _Circuit de Spa-Francorchamps_
pub type CircuitID = String;

/// Uniquely identifies a finishing status by a numeric value, e.g. `1` for `"Finished"`
pub type StatusID = u32;

/// Uniquely identifies a season by the numeric year that it took place in, e.g. `2023` for the
/// _2023 FIA Formula One World Championship_.
pub type SeasonID = u32;

/// Uniquely identifies a round (race weekend), in a given season, by an index, with `1` being the
/// first round of the season. A round is only unique within a given season; see [`RaceID`].
pub type RoundID = u32;

/// Uniquely identifies a race by the season that it took place in, and by its round index, e.g.
/// season `2023` round `1` for the first race of the _2023 FIA Formula One World Championship_.
#[derive(PartialEq, Eq, Structural, Clone, Copy, Debug)]
pub struct RaceID {
    /// The season/year that a race took place in, e.g. `2023` for the 2023 season.
    pub season: SeasonID,
    /// The round index for a race within a season, e.g. `1` for the first race.
    pub round: RoundID,
}

impl RaceID {
    /// Create a new [`RaceID`] from a season and round.
    pub fn from(season: SeasonID, round: RoundID) -> (r: RaceID)
        ensures
            r == (RaceID { season, round }),
    {
        RaceID { season, round }
    }
}

} // verus!
