//! The scoring engine: from one entry and the season's tables to its points.
//!
//! The tables hold the values of one season and change with it.

use crate::error::ReportError;
use crate::puller::{RaceResult, RaceResultView};
use crate::text::{key_is, lookup_key, lookup_key_of, same_text};
use vstd::prelude::*;
use vstd::string::*;

verus! {

/// What one place nearer to the target is worth.
pub const TENTH_MULT: u32 = 5;

/// The weight of a finish for a constructor of the top tier.
pub const SCORE_MULT_TOP: u32 = 1;

/// The weight of a finish for a constructor of the middle tier.
pub const SCORE_MULT_MID: u32 = 2;

/// The weight of a finish for a constructor of the bottom tier.
pub const SCORE_MULT_BOT: u32 = 3;

/// The weight of a finish for a driver in their first season.
pub const SCORE_MULT_ROOKIE: u32 = 2;

/// How strong a constructor is. The weaker it is, the more a finish counts.
#[derive(Debug, Clone, Copy, PartialEq, Eq, Structural)]
pub enum ConstructorTier {
    Top,
    Mid,
    Bottom,
}

impl ConstructorTier {
    /// The weight of a finish for a constructor of this tier.
    pub open spec fn weight(self) -> nat {
        match self {
            ConstructorTier::Top => SCORE_MULT_TOP as nat,
            ConstructorTier::Mid => SCORE_MULT_MID as nat,
            ConstructorTier::Bottom => SCORE_MULT_BOT as nat,
        }
    }

    /// The weight of a finish for a constructor of this tier.
    pub fn multiplier(self) -> (r: u32)
        ensures
            r == self.weight(),
    {
        match self {
            ConstructorTier::Top => SCORE_MULT_TOP,
            ConstructorTier::Mid => SCORE_MULT_MID,
            ConstructorTier::Bottom => SCORE_MULT_BOT,
        }
    }
}

/// The season's table of constructors: the tier of each, by name.
pub open spec fn tier_of(name: Seq<char>) -> Option<ConstructorTier> {
    if name == "McLaren"@ || name == "Mercedes"@ || name == "Ferrari"@ || name == "Red Bull"@ {
        Some(ConstructorTier::Top)
    } else if name == "Aston Martin"@ || name == "Alpine F1 Team"@ || name == "RB F1 Team"@ || name
        == "Haas F1 Team"@ {
        Some(ConstructorTier::Mid)
    } else if name == "Williams"@ || name == "Sauber"@ {
        Some(ConstructorTier::Bottom)
    } else {
        None
    }
}

/// The weight that a constructor's name gives a finish: that of its tier;
/// zero for `Retired`, which stands for no constructor; none for a name that
/// the table does not hold.
pub open spec fn tier_multiplier(name: Seq<char>) -> Option<nat> {
    if name == "Retired"@ {
        Some(0)
    } else {
        match tier_of(name) {
            Some(t) => Some(t.weight()),
            None => None,
        }
    }
}

/// The season's roster: whether a driver, by display name, is in their first
/// season; none for a name that the roster does not hold. The name is looked
/// up by its key, so the case of its letters does not matter.
pub open spec fn rookie_status(name: Seq<char>) -> Option<bool> {
    let key = lookup_key(name);
    if key == lookup_key("Lawson"@) || key == lookup_key("Antonelli"@) || key == lookup_key(
        "Doohan"@,
    ) || key == lookup_key("Hadjar"@) || key == lookup_key("Bearman"@) || key == lookup_key(
        "Bortoleto"@,
    ) || key == lookup_key("Colapinto"@) {
        Some(true)
    } else if key == lookup_key("Piastri"@) || key == lookup_key("Norris"@) || key == lookup_key(
        "Leclerc"@,
    ) || key == lookup_key("Hamilton"@) || key == lookup_key("Verstappen"@) || key == lookup_key(
        "Russell"@,
    ) || key == lookup_key("Stroll"@) || key == lookup_key("Alonso"@) || key == lookup_key(
        "Gasly"@,
    ) || key == lookup_key("Tsunoda"@) || key == lookup_key("Ocon"@) || key == lookup_key(
        "Albon"@,
    ) || key == lookup_key("Sainz"@) || key == lookup_key("Hulkenberg"@) {
        Some(false)
    } else {
        None
    }
}

/// The weight that a driver's name gives a finish: one for a driver known to
/// have raced before, two for a rookie and for a name the roster lacks.
pub open spec fn rookie_multiplier(name: Seq<char>) -> nat {
    match rookie_status(name) {
        Some(false) => 1,
        _ => SCORE_MULT_ROOKIE as nat,
    }
}

/// One more than the last rank that earns points.
pub open spec fn ceiling(sprint: bool) -> nat {
    if sprint {
        13
    } else {
        16
    }
}

/// The rank that the proximity bonus rewards most.
pub open spec fn target(sprint: bool) -> nat {
    if sprint {
        8
    } else {
        10
    }
}

/// The points of a rank before any weight: as many as the rank lies below
/// the ceiling, none from the ceiling on, none without a rank.
pub open spec fn raw_points(rank: Option<u32>, sprint: bool) -> nat {
    match rank {
        Some(p) => if p < ceiling(sprint) {
            (ceiling(sprint) - p) as nat
        } else {
            0
        },
        None => 0,
    }
}

/// The base points of an entry whose driver has the given display name: its
/// raw points, weighted for the driver and for the constructor.
pub open spec fn base_points_for(e: RaceResultView, name: Seq<char>) -> nat
    recommends
        tier_multiplier(e.constructor) is Some,
{
    raw_points(e.rank(), e.sprint) * rookie_multiplier(name) * tier_multiplier(e.constructor)->0
}

/// The base points of an entry.
pub open spec fn base_points(e: RaceResultView) -> nat
    recommends
        tier_multiplier(e.constructor) is Some,
{
    base_points_for(e, e.driver.name())
}

/// How far a rank lies from the target.
pub open spec fn distance(rank: u32, sprint: bool) -> nat {
    if rank >= target(sprint) {
        (rank - target(sprint)) as nat
    } else {
        (target(sprint) - rank) as nat
    }
}

/// The proximity bonus of a rank: five for every place by which its distance
/// from the target falls short of the target itself.
pub open spec fn proximity_of(rank: Option<u32>, sprint: bool) -> nat {
    match rank {
        Some(p) => if distance(p, sprint) < target(sprint) {
            ((target(sprint) - distance(p, sprint)) * TENTH_MULT) as nat
        } else {
            0
        },
        None => 0,
    }
}

/// The proximity bonus of an entry.
pub open spec fn proximity_points(e: RaceResultView) -> nat {
    proximity_of(e.rank(), e.sprint)
}

/// Looks a constructor up in the season's table.
pub fn constructor_tier(name: &str) -> (r: Option<ConstructorTier>)
    ensures
        r == tier_of(name@),
{
    if same_text(name, "McLaren") || same_text(name, "Mercedes") || same_text(name, "Ferrari")
        || same_text(name, "Red Bull") {
        Some(ConstructorTier::Top)
    } else if same_text(name, "Aston Martin") || same_text(name, "Alpine F1 Team") || same_text(
        name,
        "RB F1 Team",
    ) || same_text(name, "Haas F1 Team") {
        Some(ConstructorTier::Mid)
    } else if same_text(name, "Williams") || same_text(name, "Sauber") {
        Some(ConstructorTier::Bottom)
    } else {
        None
    }
}

/// The weight that a constructor's name gives a finish.
pub fn constructor_mult(name: &str) -> (r: Option<u32>)
    ensures
        r is Some <==> tier_multiplier(name@) is Some,
        r is Some ==> r->0 == tier_multiplier(name@)->0,
{
    if same_text(name, "Retired") {
        Some(0)
    } else {
        match constructor_tier(name) {
            Some(t) => Some(t.multiplier()),
            None => None,
        }
    }
}

/// Looks a driver up in the season's roster.
pub fn is_rookie(name: &str) -> (r: Option<bool>)
    ensures
        r == rookie_status(name@),
{
    let key = lookup_key_of(name);
    if key_is(&key, "Lawson") || key_is(&key, "Antonelli") || key_is(&key, "Doohan") || key_is(
        &key,
        "Hadjar",
    ) || key_is(&key, "Bearman") || key_is(&key, "Bortoleto") || key_is(&key, "Colapinto") {
        Some(true)
    } else if key_is(&key, "Piastri") || key_is(&key, "Norris") || key_is(&key, "Leclerc")
        || key_is(&key, "Hamilton") || key_is(&key, "Verstappen") || key_is(&key, "Russell")
        || key_is(&key, "Stroll") || key_is(&key, "Alonso") || key_is(&key, "Gasly") || key_is(
        &key,
        "Tsunoda",
    ) || key_is(&key, "Ocon") || key_is(&key, "Albon") || key_is(&key, "Sainz") || key_is(
        &key,
        "Hulkenberg",
    ) {
        Some(false)
    } else {
        None
    }
}

/// Points for the ranks below the ceiling, one more for each place gained.
pub fn base_score(result: &RaceResult) -> (r: u32)
    ensures
        r == raw_points(result@.rank(), result@.sprint),
{
    let top: u32 = if result.sprint {
        13
    } else {
        16
    };
    match result.get_position() {
        Some(position) => top.saturating_sub(position),
        None => 0,
    }
}

/// The weight that a driver's display name gives a finish.
pub fn rookie_weight(name: &str) -> (r: u32)
    ensures
        r == rookie_multiplier(name@),
{
    match is_rookie(name) {
        Some(false) => 1,
        _ => SCORE_MULT_ROOKIE,
    }
}

/// The weight that the entry's driver gives a finish.
pub fn rookie_mult(result: &RaceResult) -> (r: u32)
    ensures
        r == rookie_multiplier(result@.driver.name()),
{
    let name = result.driver.get_name();
    rookie_weight(name.as_str())
}

/// The base points of an entry whose constructor the table holds, for a
/// driver with the given display name.
pub fn score_as(result: &RaceResult, name: &str) -> (points: u32)
    requires
        tier_multiplier(result@.constructor) is Some,
    ensures
        points == base_points_for(result@, name@),
        result@.rank() is None ==> points == 0,
{
    let raw = base_score(result);
    let rookie = rookie_weight(name);
    let tier = match constructor_mult(result.constructor.name.as_str()) {
        Some(t) => t,
        None => 0,
    };
    assert(raw * rookie <= 32 && raw * rookie * tier <= 96 && (raw == 0 ==> raw * rookie * tier
        == 0)) by (nonlinear_arith)
        requires
            raw <= 16,
            rookie <= 2,
            tier <= 3,
    ;
    raw * rookie * tier
}

/// The base points of an entry whose constructor the table holds.
pub fn to_score(result: &RaceResult) -> (points: u32)
    requires
        tier_multiplier(result@.constructor) is Some,
    ensures
        points == base_points(result@),
        result@.rank() is None ==> points == 0,
{
    let name = result.driver.get_name();
    score_as(result, name.as_str())
}

/// The proximity bonus of an entry.
pub fn tenth_score(result: &RaceResult) -> (points: u32)
    ensures
        points == proximity_points(result@),
        result@.rank() is None ==> points == 0,
{
    let top: u32 = if result.sprint {
        8
    } else {
        10
    };
    match result.get_position() {
        Some(position) => {
            let away: u32 = if position >= top {
                position - top
            } else {
                top - position
            };
            top.saturating_sub(away) * TENTH_MULT
        },
        None => 0,
    }
}

/// The points of one entry.
#[derive(Debug, Clone, Copy, PartialEq, Eq, Structural)]
pub struct Score {
    pub base_points: u32,
    pub proximity_points: u32,
}

/// Scores an entry: both kinds of points where the table holds the entry's
/// constructor, and the error where it does not.
pub fn score(entry: &RaceResult) -> (r: Result<Score, ReportError>)
    ensures
        r is Ok <==> tier_multiplier(entry@.constructor) is Some,
        r is Ok ==> r->Ok_0.base_points == base_points(entry@) && r->Ok_0.proximity_points
            == proximity_points(entry@),
        r is Err ==> r->Err_0 == ReportError::UnknownConstructor,
{
    match constructor_mult(entry.constructor.name.as_str()) {
        Some(_) => Ok(
            Score { base_points: to_score(entry), proximity_points: tenth_score(entry) },
        ),
        None => Err(ReportError::UnknownConstructor),
    }
}

/// The season's table of constructors, row by row; `Retired` is none of
/// them and weighs nothing.
pub proof fn lemma_constructor_rows()
    ensures
        tier_of("McLaren"@) == Some(ConstructorTier::Top),
        tier_of("Mercedes"@) == Some(ConstructorTier::Top),
        tier_of("Ferrari"@) == Some(ConstructorTier::Top),
        tier_of("Red Bull"@) == Some(ConstructorTier::Top),
        tier_of("Aston Martin"@) == Some(ConstructorTier::Mid),
        tier_of("Alpine F1 Team"@) == Some(ConstructorTier::Mid),
        tier_of("RB F1 Team"@) == Some(ConstructorTier::Mid),
        tier_of("Haas F1 Team"@) == Some(ConstructorTier::Mid),
        tier_of("Williams"@) == Some(ConstructorTier::Bottom),
        tier_of("Sauber"@) == Some(ConstructorTier::Bottom),
        tier_of("Retired"@) is None,
        tier_multiplier("Retired"@) == Some(0nat),
{
    reveal_strlit("McLaren");
    reveal_strlit("Mercedes");
    reveal_strlit("Ferrari");
    reveal_strlit("Red Bull");
    reveal_strlit("Aston Martin");
    reveal_strlit("Alpine F1 Team");
    reveal_strlit("RB F1 Team");
    reveal_strlit("Haas F1 Team");
    reveal_strlit("Williams");
    reveal_strlit("Sauber");
    reveal_strlit("Retired");
    assert("McLaren"@.len() == 7 && "McLaren"@[0] == 'M' && "McLaren"@[1] == 'c');
    assert("Mercedes"@.len() == 8 && "Mercedes"@[0] == 'M' && "Mercedes"@[1] == 'e');
    assert("Ferrari"@.len() == 7 && "Ferrari"@[0] == 'F' && "Ferrari"@[1] == 'e');
    assert("Red Bull"@.len() == 8 && "Red Bull"@[0] == 'R' && "Red Bull"@[1] == 'e');
    assert("Aston Martin"@.len() == 12 && "Aston Martin"@[0] == 'A' && "Aston Martin"@[1] == 's');
    assert("Alpine F1 Team"@.len() == 14 && "Alpine F1 Team"@[0] == 'A' && "Alpine F1 Team"@[1] == 'l');
    assert("RB F1 Team"@.len() == 10 && "RB F1 Team"@[0] == 'R' && "RB F1 Team"@[1] == 'B');
    assert("Haas F1 Team"@.len() == 12 && "Haas F1 Team"@[0] == 'H' && "Haas F1 Team"@[1] == 'a');
    assert("Williams"@.len() == 8 && "Williams"@[0] == 'W' && "Williams"@[1] == 'i');
    assert("Sauber"@.len() == 6 && "Sauber"@[0] == 'S' && "Sauber"@[1] == 'a');
    assert("Retired"@.len() == 7 && "Retired"@[0] == 'R' && "Retired"@[1] == 'e');
}

/// The season's roster, row by row: whatever is looked up under the key of
/// a driver's name has that driver's status.
pub proof fn lemma_roster_rows()
    ensures
        forall|s: Seq<char>|
            lookup_key(s) == lookup_key("Piastri"@) ==> #[trigger] rookie_status(s) == Some(
                false,
            ),
        forall|s: Seq<char>|
            lookup_key(s) == lookup_key("Norris"@) ==> #[trigger] rookie_status(s) == Some(
                false,
            ),
        forall|s: Seq<char>|
            lookup_key(s) == lookup_key("Leclerc"@) ==> #[trigger] rookie_status(s) == Some(
                false,
            ),
        forall|s: Seq<char>|
            lookup_key(s) == lookup_key("Hamilton"@) ==> #[trigger] rookie_status(s) == Some(
                false,
            ),
        forall|s: Seq<char>|
            lookup_key(s) == lookup_key("Verstappen"@) ==> #[trigger] rookie_status(s) == Some(
                false,
            ),
        forall|s: Seq<char>|
            lookup_key(s) == lookup_key("Lawson"@) ==> #[trigger] rookie_status(s) == Some(
                true,
            ),
        forall|s: Seq<char>|
            lookup_key(s) == lookup_key("Russell"@) ==> #[trigger] rookie_status(s) == Some(
                false,
            ),
        forall|s: Seq<char>|
            lookup_key(s) == lookup_key("Antonelli"@) ==> #[trigger] rookie_status(s) == Some(
                true,
            ),
        forall|s: Seq<char>|
            lookup_key(s) == lookup_key("Stroll"@) ==> #[trigger] rookie_status(s) == Some(
                false,
            ),
        forall|s: Seq<char>|
            lookup_key(s) == lookup_key("Alonso"@) ==> #[trigger] rookie_status(s) == Some(
                false,
            ),
        forall|s: Seq<char>|
            lookup_key(s) == lookup_key("Gasly"@) ==> #[trigger] rookie_status(s) == Some(
                false,
            ),
        forall|s: Seq<char>|
            lookup_key(s) == lookup_key("Doohan"@) ==> #[trigger] rookie_status(s) == Some(
                true,
            ),
        forall|s: Seq<char>|
            lookup_key(s) == lookup_key("Hadjar"@) ==> #[trigger] rookie_status(s) == Some(
                true,
            ),
        forall|s: Seq<char>|
            lookup_key(s) == lookup_key("Tsunoda"@) ==> #[trigger] rookie_status(s) == Some(
                false,
            ),
        forall|s: Seq<char>|
            lookup_key(s) == lookup_key("Ocon"@) ==> #[trigger] rookie_status(s) == Some(
                false,
            ),
        forall|s: Seq<char>|
            lookup_key(s) == lookup_key("Bearman"@) ==> #[trigger] rookie_status(s) == Some(
                true,
            ),
        forall|s: Seq<char>|
            lookup_key(s) == lookup_key("Albon"@) ==> #[trigger] rookie_status(s) == Some(
                false,
            ),
        forall|s: Seq<char>|
            lookup_key(s) == lookup_key("Sainz"@) ==> #[trigger] rookie_status(s) == Some(
                false,
            ),
        forall|s: Seq<char>|
            lookup_key(s) == lookup_key("Hulkenberg"@) ==> #[trigger] rookie_status(s) == Some(
                false,
            ),
        forall|s: Seq<char>|
            lookup_key(s) == lookup_key("Bortoleto"@) ==> #[trigger] rookie_status(s) == Some(
                true,
            ),
        forall|s: Seq<char>|
            lookup_key(s) == lookup_key("Colapinto"@) ==> #[trigger] rookie_status(s) == Some(
                true,
            ),
{
    reveal_strlit("Piastri");
    reveal_strlit("Norris");
    reveal_strlit("Leclerc");
    reveal_strlit("Hamilton");
    reveal_strlit("Verstappen");
    reveal_strlit("Lawson");
    reveal_strlit("Russell");
    reveal_strlit("Antonelli");
    reveal_strlit("Stroll");
    reveal_strlit("Alonso");
    reveal_strlit("Gasly");
    reveal_strlit("Doohan");
    reveal_strlit("Hadjar");
    reveal_strlit("Tsunoda");
    reveal_strlit("Ocon");
    reveal_strlit("Bearman");
    reveal_strlit("Albon");
    reveal_strlit("Sainz");
    reveal_strlit("Hulkenberg");
    reveal_strlit("Bortoleto");
    reveal_strlit("Colapinto");
    assert(lookup_key("Piastri"@).len() == 7 && lookup_key("Piastri"@)[0] == 'p'
        && lookup_key("Piastri"@)[1] == 'i');
    assert(lookup_key("Norris"@).len() == 6 && lookup_key("Norris"@)[0] == 'n'
        && lookup_key("Norris"@)[1] == 'o');
    assert(lookup_key("Leclerc"@).len() == 7 && lookup_key("Leclerc"@)[0] == 'l'
        && lookup_key("Leclerc"@)[1] == 'e');
    assert(lookup_key("Hamilton"@).len() == 8 && lookup_key("Hamilton"@)[0] == 'h'
        && lookup_key("Hamilton"@)[1] == 'a');
    assert(lookup_key("Verstappen"@).len() == 10 && lookup_key("Verstappen"@)[0] == 'v'
        && lookup_key("Verstappen"@)[1] == 'e');
    assert(lookup_key("Lawson"@).len() == 6 && lookup_key("Lawson"@)[0] == 'l'
        && lookup_key("Lawson"@)[1] == 'a');
    assert(lookup_key("Russell"@).len() == 7 && lookup_key("Russell"@)[0] == 'r'
        && lookup_key("Russell"@)[1] == 'u');
    assert(lookup_key("Antonelli"@).len() == 9 && lookup_key("Antonelli"@)[0] == 'a'
        && lookup_key("Antonelli"@)[1] == 'n');
    assert(lookup_key("Stroll"@).len() == 6 && lookup_key("Stroll"@)[0] == 's'
        && lookup_key("Stroll"@)[1] == 't');
    assert(lookup_key("Alonso"@).len() == 6 && lookup_key("Alonso"@)[0] == 'a'
        && lookup_key("Alonso"@)[1] == 'l');
    assert(lookup_key("Gasly"@).len() == 5 && lookup_key("Gasly"@)[0] == 'g'
        && lookup_key("Gasly"@)[1] == 'a');
    assert(lookup_key("Doohan"@).len() == 6 && lookup_key("Doohan"@)[0] == 'd'
        && lookup_key("Doohan"@)[1] == 'o');
    assert(lookup_key("Hadjar"@).len() == 6 && lookup_key("Hadjar"@)[0] == 'h'
        && lookup_key("Hadjar"@)[1] == 'a');
    assert(lookup_key("Tsunoda"@).len() == 7 && lookup_key("Tsunoda"@)[0] == 't'
        && lookup_key("Tsunoda"@)[1] == 's');
    assert(lookup_key("Ocon"@).len() == 4 && lookup_key("Ocon"@)[0] == 'o'
        && lookup_key("Ocon"@)[1] == 'c');
    assert(lookup_key("Bearman"@).len() == 7 && lookup_key("Bearman"@)[0] == 'b'
        && lookup_key("Bearman"@)[1] == 'e');
    assert(lookup_key("Albon"@).len() == 5 && lookup_key("Albon"@)[0] == 'a'
        && lookup_key("Albon"@)[1] == 'l');
    assert(lookup_key("Sainz"@).len() == 5 && lookup_key("Sainz"@)[0] == 's'
        && lookup_key("Sainz"@)[1] == 'a');
    assert(lookup_key("Hulkenberg"@).len() == 10 && lookup_key("Hulkenberg"@)[0] == 'h'
        && lookup_key("Hulkenberg"@)[1] == 'u');
    assert(lookup_key("Bortoleto"@).len() == 9 && lookup_key("Bortoleto"@)[0] == 'b'
        && lookup_key("Bortoleto"@)[1] == 'o');
    assert(lookup_key("Colapinto"@).len() == 9 && lookup_key("Colapinto"@)[0] == 'c'
        && lookup_key("Colapinto"@)[1] == 'o');
}

/// Among the ranks that earn points, a better rank earns strictly more base
/// points, for the same driver and constructor in the same kind of session.
/// This needs a constructor whose weight is not zero: with `Retired` every
/// rank earns nothing.
pub proof fn lemma_base_points_decrease(a: RaceResultView, b: RaceResultView)
    requires
        a.sprint == b.sprint,
        a.driver == b.driver,
        a.constructor == b.constructor,
        tier_multiplier(a.constructor) is Some,
        tier_multiplier(a.constructor)->0 > 0,
        a.rank() is Some,
        b.rank() is Some,
        1 <= a.rank()->0 < b.rank()->0 < ceiling(a.sprint),
    ensures
        base_points(a) > base_points(b),
{
    let ra = raw_points(a.rank(), a.sprint);
    let rb = raw_points(b.rank(), b.sprint);
    let rookie = rookie_multiplier(a.driver.name());
    let tier = tier_multiplier(a.constructor)->0;
    assert(ra * rookie * tier > rb * rookie * tier) by (nonlinear_arith)
        requires
            ra > rb,
            rookie >= 1,
            tier >= 1,
    ;
}

/// The last rank that earns points earns exactly the two weights multiplied.
pub proof fn lemma_base_points_last(e: RaceResultView)
    requires
        tier_multiplier(e.constructor) is Some,
        e.rank() == Some((ceiling(e.sprint) - 1) as u32),
    ensures
        base_points(e) == rookie_multiplier(e.driver.name()) * tier_multiplier(e.constructor)->0,
{
    let rookie = rookie_multiplier(e.driver.name());
    let tier = tier_multiplier(e.constructor)->0;
    assert(raw_points(e.rank(), e.sprint) == 1);
    assert(1 * rookie * tier == rookie * tier) by (nonlinear_arith);
}

/// Two ranks equally far from the target, one before it and one after it,
/// earn the same proximity bonus.
pub proof fn lemma_proximity_symmetric(a: RaceResultView, b: RaceResultView, k: nat)
    requires
        a.sprint == b.sprint,
        k < target(a.sprint),
        a.rank() == Some((target(a.sprint) - k) as u32),
        b.rank() == Some((target(a.sprint) + k) as u32),
    ensures
        proximity_points(a) == proximity_points(b),
{
}

/// The proximity bonus is never more than five times the target, and it is
/// that much exactly at the target.
pub proof fn lemma_proximity_peak(e: RaceResultView)
    ensures
        proximity_points(e) <= target(e.sprint) * TENTH_MULT,
        proximity_points(e) == target(e.sprint) * TENTH_MULT <==> e.rank() == Some(
            target(e.sprint) as u32,
        ),
{
}

/// An entry without a rank earns nothing, whoever drove for whomever.
pub proof fn lemma_unranked_earns_nothing(e: RaceResultView)
    requires
        e.rank() is None,
    ensures
        base_points(e) == 0,
        proximity_points(e) == 0,
{
    let rookie = rookie_multiplier(e.driver.name());
    let tier = tier_multiplier(e.constructor)->0;
    assert(0 * rookie * tier == 0) by (nonlinear_arith);
}

} // verus!
