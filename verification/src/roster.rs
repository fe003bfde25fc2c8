//! The roster resolver: who the drivers of the season are, in which order a
//! report shows them, and how a list of entries is brought into that order.
//!
//! The display order is fixed for the season and does not depend on how a
//! race ended, so that one week's table reads like the next. Drivers who have
//! left the grid stay in it, as retired entries that earn nothing.
//!
//! A driver is looked up by name, with accents taken off and without regard
//! to the case of the letters.

use crate::display_order::lemma_arranged_is_canonical;
use crate::error::ReportError;
use crate::puller::{
    clone_entries, entry_views, lemma_entry_views_push, Driver, RaceResult, RaceResultView,
};
use crate::score::rookie_status;
use crate::text::{deunicode, deunicode_of, key_is, lookup_key, lookup_key_of};
use crate::withdrawn::lemma_resolved_keeps_and_orders;
use vstd::prelude::*;
use vstd::string::*;

verus! {

/// The drivers of the season, in display order.
#[derive(Debug, Clone, Copy, PartialEq, Eq, Structural)]
pub enum DriverId {
    Piastri,
    Norris,
    Leclerc,
    Hamilton,
    Verstappen,
    Lawson,
    Russell,
    Antonelli,
    Stroll,
    Alonso,
    Gasly,
    Doohan,
    Hadjar,
    Tsunoda,
    Ocon,
    Bearman,
    Albon,
    Sainz,
    Hulkenberg,
    Bortoleto,
    Colapinto,
}

/// A name that belongs to no driver of the season.
#[derive(Debug, Clone, Copy, PartialEq, Eq, Structural)]
pub struct ParseDriverIdError;

/// The ordinal of the last driver in display order.
pub const LAST_ORDINAL: u32 = 21;

impl DriverId {
    /// The driver that a display name belongs to. The name is looked up by
    /// its key, so the case of its letters does not matter.
    pub open spec fn of_name(s: Seq<char>) -> Option<DriverId> {
        if lookup_key(s) == lookup_key("Piastri"@) {
            Some(DriverId::Piastri)
        } else if lookup_key(s) == lookup_key("Norris"@) {
            Some(DriverId::Norris)
        } else if lookup_key(s) == lookup_key("Leclerc"@) {
            Some(DriverId::Leclerc)
        } else if lookup_key(s) == lookup_key("Hamilton"@) {
            Some(DriverId::Hamilton)
        } else if lookup_key(s) == lookup_key("Verstappen"@) {
            Some(DriverId::Verstappen)
        } else if lookup_key(s) == lookup_key("Lawson"@) {
            Some(DriverId::Lawson)
        } else if lookup_key(s) == lookup_key("Russell"@) {
            Some(DriverId::Russell)
        } else if lookup_key(s) == lookup_key("Antonelli"@) {
            Some(DriverId::Antonelli)
        } else if lookup_key(s) == lookup_key("Stroll"@) {
            Some(DriverId::Stroll)
        } else if lookup_key(s) == lookup_key("Alonso"@) {
            Some(DriverId::Alonso)
        } else if lookup_key(s) == lookup_key("Gasly"@) {
            Some(DriverId::Gasly)
        } else if lookup_key(s) == lookup_key("Doohan"@) {
            Some(DriverId::Doohan)
        } else if lookup_key(s) == lookup_key("Hadjar"@) {
            Some(DriverId::Hadjar)
        } else if lookup_key(s) == lookup_key("Tsunoda"@) {
            Some(DriverId::Tsunoda)
        } else if lookup_key(s) == lookup_key("Ocon"@) {
            Some(DriverId::Ocon)
        } else if lookup_key(s) == lookup_key("Bearman"@) {
            Some(DriverId::Bearman)
        } else if lookup_key(s) == lookup_key("Albon"@) {
            Some(DriverId::Albon)
        } else if lookup_key(s) == lookup_key("Sainz"@) {
            Some(DriverId::Sainz)
        } else if lookup_key(s) == lookup_key("Hulkenberg"@) {
            Some(DriverId::Hulkenberg)
        } else if lookup_key(s) == lookup_key("Bortoleto"@) {
            Some(DriverId::Bortoleto)
        } else if lookup_key(s) == lookup_key("Colapinto"@) {
            Some(DriverId::Colapinto)
        } else {
            None
        }
    }

    /// The place of the driver in display order, from 1.
    pub open spec fn ordinal(self) -> nat {
        match self {
            DriverId::Piastri => 1,
            DriverId::Norris => 2,
            DriverId::Leclerc => 3,
            DriverId::Hamilton => 4,
            DriverId::Verstappen => 5,
            DriverId::Lawson => 6,
            DriverId::Russell => 7,
            DriverId::Antonelli => 8,
            DriverId::Stroll => 9,
            DriverId::Alonso => 10,
            DriverId::Gasly => 11,
            DriverId::Doohan => 12,
            DriverId::Hadjar => 13,
            DriverId::Tsunoda => 14,
            DriverId::Ocon => 15,
            DriverId::Bearman => 16,
            DriverId::Albon => 17,
            DriverId::Sainz => 18,
            DriverId::Hulkenberg => 19,
            DriverId::Bortoleto => 20,
            DriverId::Colapinto => 21,
        }
    }

    /// Finds the driver that a display name belongs to.
    pub fn from_str(s: &str) -> (r: Result<DriverId, ParseDriverIdError>)
        ensures
            r == match DriverId::of_name(s@) {
                Some(d) => Ok::<DriverId, ParseDriverIdError>(d),
                None => Err::<DriverId, ParseDriverIdError>(ParseDriverIdError),
            },
    {
        let key = lookup_key_of(s);
        if key_is(&key, "Piastri") {
            Ok(DriverId::Piastri)
        } else if key_is(&key, "Norris") {
            Ok(DriverId::Norris)
        } else if key_is(&key, "Leclerc") {
            Ok(DriverId::Leclerc)
        } else if key_is(&key, "Hamilton") {
            Ok(DriverId::Hamilton)
        } else if key_is(&key, "Verstappen") {
            Ok(DriverId::Verstappen)
        } else if key_is(&key, "Lawson") {
            Ok(DriverId::Lawson)
        } else if key_is(&key, "Russell") {
            Ok(DriverId::Russell)
        } else if key_is(&key, "Antonelli") {
            Ok(DriverId::Antonelli)
        } else if key_is(&key, "Stroll") {
            Ok(DriverId::Stroll)
        } else if key_is(&key, "Alonso") {
            Ok(DriverId::Alonso)
        } else if key_is(&key, "Gasly") {
            Ok(DriverId::Gasly)
        } else if key_is(&key, "Doohan") {
            Ok(DriverId::Doohan)
        } else if key_is(&key, "Hadjar") {
            Ok(DriverId::Hadjar)
        } else if key_is(&key, "Tsunoda") {
            Ok(DriverId::Tsunoda)
        } else if key_is(&key, "Ocon") {
            Ok(DriverId::Ocon)
        } else if key_is(&key, "Bearman") {
            Ok(DriverId::Bearman)
        } else if key_is(&key, "Albon") {
            Ok(DriverId::Albon)
        } else if key_is(&key, "Sainz") {
            Ok(DriverId::Sainz)
        } else if key_is(&key, "Hulkenberg") {
            Ok(DriverId::Hulkenberg)
        } else if key_is(&key, "Bortoleto") {
            Ok(DriverId::Bortoleto)
        } else if key_is(&key, "Colapinto") {
            Ok(DriverId::Colapinto)
        } else {
            Err(ParseDriverIdError)
        }
    }

    /// Finds the driver of the season that a driver of the service is.
    pub fn try_from(driver: &Driver) -> (r: Result<DriverId, ParseDriverIdError>)
        ensures
            r == match DriverId::of_name(driver@.name()) {
                Some(d) => Ok::<DriverId, ParseDriverIdError>(d),
                None => Err::<DriverId, ParseDriverIdError>(ParseDriverIdError),
            },
    {
        let name = driver.get_name();
        DriverId::from_str(name.as_str())
    }

    /// The place of the driver in display order, from 1.
    pub fn place(self) -> (r: u32)
        ensures
            r == self.ordinal(),
            1 <= r <= LAST_ORDINAL,
    {
        match self {
            DriverId::Piastri => 1,
            DriverId::Norris => 2,
            DriverId::Leclerc => 3,
            DriverId::Hamilton => 4,
            DriverId::Verstappen => 5,
            DriverId::Lawson => 6,
            DriverId::Russell => 7,
            DriverId::Antonelli => 8,
            DriverId::Stroll => 9,
            DriverId::Alonso => 10,
            DriverId::Gasly => 11,
            DriverId::Doohan => 12,
            DriverId::Hadjar => 13,
            DriverId::Tsunoda => 14,
            DriverId::Ocon => 15,
            DriverId::Bearman => 16,
            DriverId::Albon => 17,
            DriverId::Sainz => 18,
            DriverId::Hulkenberg => 19,
            DriverId::Bortoleto => 20,
            DriverId::Colapinto => 21,
        }
    }
}

/// The display ordinal of the driver with the given display name, if the
/// season has such a driver.
pub open spec fn ordinal_of_name(name: Seq<char>) -> Option<nat> {
    match DriverId::of_name(name) {
        Some(d) => Some(d.ordinal()),
        None => None,
    }
}

/// The display ordinal of an entry's driver.
pub open spec fn ordinal_of(e: RaceResultView) -> Option<nat> {
    ordinal_of_name(e.driver.name())
}

/// Every entry's driver has a place in display order.
pub open spec fn all_ranked(s: Seq<RaceResultView>) -> bool {
    forall|i: int| 0 <= i < s.len() ==> (#[trigger] ordinal_of(s[i])) is Some
}

/// The drivers of the season, name by name: whatever is looked up under the
/// key of a driver's name is that driver.
pub proof fn lemma_driver_names()
    ensures
        forall|s: Seq<char>|
            lookup_key(s) == lookup_key("Piastri"@) ==> #[trigger] DriverId::of_name(s) == Some(
                DriverId::Piastri,
            ),
        forall|s: Seq<char>|
            lookup_key(s) == lookup_key("Norris"@) ==> #[trigger] DriverId::of_name(s) == Some(
                DriverId::Norris,
            ),
        forall|s: Seq<char>|
            lookup_key(s) == lookup_key("Leclerc"@) ==> #[trigger] DriverId::of_name(s) == Some(
                DriverId::Leclerc,
            ),
        forall|s: Seq<char>|
            lookup_key(s) == lookup_key("Hamilton"@) ==> #[trigger] DriverId::of_name(s) == Some(
                DriverId::Hamilton,
            ),
        forall|s: Seq<char>|
            lookup_key(s) == lookup_key("Verstappen"@) ==> #[trigger] DriverId::of_name(s) == Some(
                DriverId::Verstappen,
            ),
        forall|s: Seq<char>|
            lookup_key(s) == lookup_key("Lawson"@) ==> #[trigger] DriverId::of_name(s) == Some(
                DriverId::Lawson,
            ),
        forall|s: Seq<char>|
            lookup_key(s) == lookup_key("Russell"@) ==> #[trigger] DriverId::of_name(s) == Some(
                DriverId::Russell,
            ),
        forall|s: Seq<char>|
            lookup_key(s) == lookup_key("Antonelli"@) ==> #[trigger] DriverId::of_name(s) == Some(
                DriverId::Antonelli,
            ),
        forall|s: Seq<char>|
            lookup_key(s) == lookup_key("Stroll"@) ==> #[trigger] DriverId::of_name(s) == Some(
                DriverId::Stroll,
            ),
        forall|s: Seq<char>|
            lookup_key(s) == lookup_key("Alonso"@) ==> #[trigger] DriverId::of_name(s) == Some(
                DriverId::Alonso,
            ),
        forall|s: Seq<char>|
            lookup_key(s) == lookup_key("Gasly"@) ==> #[trigger] DriverId::of_name(s) == Some(
                DriverId::Gasly,
            ),
        forall|s: Seq<char>|
            lookup_key(s) == lookup_key("Doohan"@) ==> #[trigger] DriverId::of_name(s) == Some(
                DriverId::Doohan,
            ),
        forall|s: Seq<char>|
            lookup_key(s) == lookup_key("Hadjar"@) ==> #[trigger] DriverId::of_name(s) == Some(
                DriverId::Hadjar,
            ),
        forall|s: Seq<char>|
            lookup_key(s) == lookup_key("Tsunoda"@) ==> #[trigger] DriverId::of_name(s) == Some(
                DriverId::Tsunoda,
            ),
        forall|s: Seq<char>|
            lookup_key(s) == lookup_key("Ocon"@) ==> #[trigger] DriverId::of_name(s) == Some(
                DriverId::Ocon,
            ),
        forall|s: Seq<char>|
            lookup_key(s) == lookup_key("Bearman"@) ==> #[trigger] DriverId::of_name(s) == Some(
                DriverId::Bearman,
            ),
        forall|s: Seq<char>|
            lookup_key(s) == lookup_key("Albon"@) ==> #[trigger] DriverId::of_name(s) == Some(
                DriverId::Albon,
            ),
        forall|s: Seq<char>|
            lookup_key(s) == lookup_key("Sainz"@) ==> #[trigger] DriverId::of_name(s) == Some(
                DriverId::Sainz,
            ),
        forall|s: Seq<char>|
            lookup_key(s) == lookup_key("Hulkenberg"@) ==> #[trigger] DriverId::of_name(s) == Some(
                DriverId::Hulkenberg,
            ),
        forall|s: Seq<char>|
            lookup_key(s) == lookup_key("Bortoleto"@) ==> #[trigger] DriverId::of_name(s) == Some(
                DriverId::Bortoleto,
            ),
        forall|s: Seq<char>|
            lookup_key(s) == lookup_key("Colapinto"@) ==> #[trigger] DriverId::of_name(s) == Some(
                DriverId::Colapinto,
            ),
{
    reveal_strlit("Piastri");
    reveal_strlit("Norris");
    reveal_strlit("Leclerc");
    reveal_strlit("Hamilton");
    reveal_strlit("Verstappen");
    reveal_strlit("Lawson");
    reveal_strlit("Russell");
    reveal_strlit("Antonelli");
    reveal_strlit("Stroll");
    reveal_strlit("Alonso");
    reveal_strlit("Gasly");
    reveal_strlit("Doohan");
    reveal_strlit("Hadjar");
    reveal_strlit("Tsunoda");
    reveal_strlit("Ocon");
    reveal_strlit("Bearman");
    reveal_strlit("Albon");
    reveal_strlit("Sainz");
    reveal_strlit("Hulkenberg");
    reveal_strlit("Bortoleto");
    reveal_strlit("Colapinto");
    assert(lookup_key("Piastri"@).len() == 7 && lookup_key("Piastri"@)[0] == 'p'
        && lookup_key("Piastri"@)[1] == 'i');
    assert(lookup_key("Norris"@).len() == 6 && lookup_key("Norris"@)[0] == 'n'
        && lookup_key("Norris"@)[1] == 'o');
    assert(lookup_key("Leclerc"@).len() == 7 && lookup_key("Leclerc"@)[0] == 'l'
        && lookup_key("Leclerc"@)[1] == 'e');
    assert(lookup_key("Hamilton"@).len() == 8 && lookup_key("Hamilton"@)[0] == 'h'
        && lookup_key("Hamilton"@)[1] == 'a');
    assert(lookup_key("Verstappen"@).len() == 10 && lookup_key("Verstappen"@)[0] == 'v'
        && lookup_key("Verstappen"@)[1] == 'e');
    assert(lookup_key("Lawson"@).len() == 6 && lookup_key("Lawson"@)[0] == 'l'
        && lookup_key("Lawson"@)[1] == 'a');
    assert(lookup_key("Russell"@).len() == 7 && lookup_key("Russell"@)[0] == 'r'
        && lookup_key("Russell"@)[1] == 'u');
    assert(lookup_key("Antonelli"@).len() == 9 && lookup_key("Antonelli"@)[0] == 'a'
        && lookup_key("Antonelli"@)[1] == 'n');
    assert(lookup_key("Stroll"@).len() == 6 && lookup_key("Stroll"@)[0] == 's'
        && lookup_key("Stroll"@)[1] == 't');
    assert(lookup_key("Alonso"@).len() == 6 && lookup_key("Alonso"@)[0] == 'a'
        && lookup_key("Alonso"@)[1] == 'l');
    assert(lookup_key("Gasly"@).len() == 5 && lookup_key("Gasly"@)[0] == 'g'
        && lookup_key("Gasly"@)[1] == 'a');
    assert(lookup_key("Doohan"@).len() == 6 && lookup_key("Doohan"@)[0] == 'd'
        && lookup_key("Doohan"@)[1] == 'o');
    assert(lookup_key("Hadjar"@).len() == 6 && lookup_key("Hadjar"@)[0] == 'h'
        && lookup_key("Hadjar"@)[1] == 'a');
    assert(lookup_key("Tsunoda"@).len() == 7 && lookup_key("Tsunoda"@)[0] == 't'
        && lookup_key("Tsunoda"@)[1] == 's');
    assert(lookup_key("Ocon"@).len() == 4 && lookup_key("Ocon"@)[0] == 'o'
        && lookup_key("Ocon"@)[1] == 'c');
    assert(lookup_key("Bearman"@).len() == 7 && lookup_key("Bearman"@)[0] == 'b'
        && lookup_key("Bearman"@)[1] == 'e');
    assert(lookup_key("Albon"@).len() == 5 && lookup_key("Albon"@)[0] == 'a'
        && lookup_key("Albon"@)[1] == 'l');
    assert(lookup_key("Sainz"@).len() == 5 && lookup_key("Sainz"@)[0] == 's'
        && lookup_key("Sainz"@)[1] == 'a');
    assert(lookup_key("Hulkenberg"@).len() == 10 && lookup_key("Hulkenberg"@)[0] == 'h'
        && lookup_key("Hulkenberg"@)[1] == 'u');
    assert(lookup_key("Bortoleto"@).len() == 9 && lookup_key("Bortoleto"@)[0] == 'b'
        && lookup_key("Bortoleto"@)[1] == 'o');
    assert(lookup_key("Colapinto"@).len() == 9 && lookup_key("Colapinto"@)[0] == 'c'
        && lookup_key("Colapinto"@)[1] == 'o');
}

/// The drivers of the season, by their names in small letters.
pub proof fn lemma_driver_names_small()
    ensures
        DriverId::of_name("piastri"@) == Some(DriverId::Piastri),
        DriverId::of_name("norris"@) == Some(DriverId::Norris),
        DriverId::of_name("leclerc"@) == Some(DriverId::Leclerc),
        DriverId::of_name("hamilton"@) == Some(DriverId::Hamilton),
        DriverId::of_name("verstappen"@) == Some(DriverId::Verstappen),
        DriverId::of_name("lawson"@) == Some(DriverId::Lawson),
        DriverId::of_name("russell"@) == Some(DriverId::Russell),
        DriverId::of_name("antonelli"@) == Some(DriverId::Antonelli),
        DriverId::of_name("stroll"@) == Some(DriverId::Stroll),
        DriverId::of_name("alonso"@) == Some(DriverId::Alonso),
        DriverId::of_name("gasly"@) == Some(DriverId::Gasly),
        DriverId::of_name("doohan"@) == Some(DriverId::Doohan),
        DriverId::of_name("hadjar"@) == Some(DriverId::Hadjar),
        DriverId::of_name("tsunoda"@) == Some(DriverId::Tsunoda),
        DriverId::of_name("ocon"@) == Some(DriverId::Ocon),
        DriverId::of_name("bearman"@) == Some(DriverId::Bearman),
        DriverId::of_name("albon"@) == Some(DriverId::Albon),
        DriverId::of_name("sainz"@) == Some(DriverId::Sainz),
        DriverId::of_name("hulkenberg"@) == Some(DriverId::Hulkenberg),
        DriverId::of_name("bortoleto"@) == Some(DriverId::Bortoleto),
        DriverId::of_name("colapinto"@) == Some(DriverId::Colapinto),
{
    assert(lookup_key("piastri"@) == lookup_key("Piastri"@)) by {
        reveal_strlit("piastri");
        reveal_strlit("Piastri");
        assert("piastri"@ =~= seq!['p', 'i', 'a', 's', 't', 'r', 'i']);
        assert("Piastri"@ =~= seq!['P', 'i', 'a', 's', 't', 'r', 'i']);
        assert(lookup_key("piastri"@) =~= lookup_key("Piastri"@));
    }
    assert(lookup_key("norris"@) == lookup_key("Norris"@)) by {
        reveal_strlit("norris");
        reveal_strlit("Norris");
        assert("norris"@ =~= seq!['n', 'o', 'r', 'r', 'i', 's']);
        assert("Norris"@ =~= seq!['N', 'o', 'r', 'r', 'i', 's']);
        assert(lookup_key("norris"@) =~= lookup_key("Norris"@));
    }
    assert(lookup_key("leclerc"@) == lookup_key("Leclerc"@)) by {
        reveal_strlit("leclerc");
        reveal_strlit("Leclerc");
        assert("leclerc"@ =~= seq!['l', 'e', 'c', 'l', 'e', 'r', 'c']);
        assert("Leclerc"@ =~= seq!['L', 'e', 'c', 'l', 'e', 'r', 'c']);
        assert(lookup_key("leclerc"@) =~= lookup_key("Leclerc"@));
    }
    assert(lookup_key("hamilton"@) == lookup_key("Hamilton"@)) by {
        reveal_strlit("hamilton");
        reveal_strlit("Hamilton");
        assert("hamilton"@ =~= seq!['h', 'a', 'm', 'i', 'l', 't', 'o', 'n']);
        assert("Hamilton"@ =~= seq!['H', 'a', 'm', 'i', 'l', 't', 'o', 'n']);
        assert(lookup_key("hamilton"@) =~= lookup_key("Hamilton"@));
    }
    assert(lookup_key("verstappen"@) == lookup_key("Verstappen"@)) by {
        reveal_strlit("verstappen");
        reveal_strlit("Verstappen");
        assert("verstappen"@ =~= seq!['v', 'e', 'r', 's', 't', 'a', 'p', 'p', 'e', 'n']);
        assert("Verstappen"@ =~= seq!['V', 'e', 'r', 's', 't', 'a', 'p', 'p', 'e', 'n']);
        assert(lookup_key("verstappen"@) =~= lookup_key("Verstappen"@));
    }
    assert(lookup_key("lawson"@) == lookup_key("Lawson"@)) by {
        reveal_strlit("lawson");
        reveal_strlit("Lawson");
        assert("lawson"@ =~= seq!['l', 'a', 'w', 's', 'o', 'n']);
        assert("Lawson"@ =~= seq!['L', 'a', 'w', 's', 'o', 'n']);
        assert(lookup_key("lawson"@) =~= lookup_key("Lawson"@));
    }
    assert(lookup_key("russell"@) == lookup_key("Russell"@)) by {
        reveal_strlit("russell");
        reveal_strlit("Russell");
        assert("russell"@ =~= seq!['r', 'u', 's', 's', 'e', 'l', 'l']);
        assert("Russell"@ =~= seq!['R', 'u', 's', 's', 'e', 'l', 'l']);
        assert(lookup_key("russell"@) =~= lookup_key("Russell"@));
    }
    assert(lookup_key("antonelli"@) == lookup_key("Antonelli"@)) by {
        reveal_strlit("antonelli");
        reveal_strlit("Antonelli");
        assert("antonelli"@ =~= seq!['a', 'n', 't', 'o', 'n', 'e', 'l', 'l', 'i']);
        assert("Antonelli"@ =~= seq!['A', 'n', 't', 'o', 'n', 'e', 'l', 'l', 'i']);
        assert(lookup_key("antonelli"@) =~= lookup_key("Antonelli"@));
    }
    assert(lookup_key("stroll"@) == lookup_key("Stroll"@)) by {
        reveal_strlit("stroll");
        reveal_strlit("Stroll");
        assert("stroll"@ =~= seq!['s', 't', 'r', 'o', 'l', 'l']);
        assert("Stroll"@ =~= seq!['S', 't', 'r', 'o', 'l', 'l']);
        assert(lookup_key("stroll"@) =~= lookup_key("Stroll"@));
    }
    assert(lookup_key("alonso"@) == lookup_key("Alonso"@)) by {
        reveal_strlit("alonso");
        reveal_strlit("Alonso");
        assert("alonso"@ =~= seq!['a', 'l', 'o', 'n', 's', 'o']);
        assert("Alonso"@ =~= seq!['A', 'l', 'o', 'n', 's', 'o']);
        assert(lookup_key("alonso"@) =~= lookup_key("Alonso"@));
    }
    assert(lookup_key("gasly"@) == lookup_key("Gasly"@)) by {
        reveal_strlit("gasly");
        reveal_strlit("Gasly");
        assert("gasly"@ =~= seq!['g', 'a', 's', 'l', 'y']);
        assert("Gasly"@ =~= seq!['G', 'a', 's', 'l', 'y']);
        assert(lookup_key("gasly"@) =~= lookup_key("Gasly"@));
    }
    assert(lookup_key("doohan"@) == lookup_key("Doohan"@)) by {
        reveal_strlit("doohan");
        reveal_strlit("Doohan");
        assert("doohan"@ =~= seq!['d', 'o', 'o', 'h', 'a', 'n']);
        assert("Doohan"@ =~= seq!['D', 'o', 'o', 'h', 'a', 'n']);
        assert(lookup_key("doohan"@) =~= lookup_key("Doohan"@));
    }
    assert(lookup_key("hadjar"@) == lookup_key("Hadjar"@)) by {
        reveal_strlit("hadjar");
        reveal_strlit("Hadjar");
        assert("hadjar"@ =~= seq!['h', 'a', 'd', 'j', 'a', 'r']);
        assert("Hadjar"@ =~= seq!['H', 'a', 'd', 'j', 'a', 'r']);
        assert(lookup_key("hadjar"@) =~= lookup_key("Hadjar"@));
    }
    assert(lookup_key("tsunoda"@) == lookup_key("Tsunoda"@)) by {
        reveal_strlit("tsunoda");
        reveal_strlit("Tsunoda");
        assert("tsunoda"@ =~= seq!['t', 's', 'u', 'n', 'o', 'd', 'a']);
        assert("Tsunoda"@ =~= seq!['T', 's', 'u', 'n', 'o', 'd', 'a']);
        assert(lookup_key("tsunoda"@) =~= lookup_key("Tsunoda"@));
    }
    assert(lookup_key("ocon"@) == lookup_key("Ocon"@)) by {
        reveal_strlit("ocon");
        reveal_strlit("Ocon");
        assert("ocon"@ =~= seq!['o', 'c', 'o', 'n']);
        assert("Ocon"@ =~= seq!['O', 'c', 'o', 'n']);
        assert(lookup_key("ocon"@) =~= lookup_key("Ocon"@));
    }
    assert(lookup_key("bearman"@) == lookup_key("Bearman"@)) by {
        reveal_strlit("bearman");
        reveal_strlit("Bearman");
        assert("bearman"@ =~= seq!['b', 'e', 'a', 'r', 'm', 'a', 'n']);
        assert("Bearman"@ =~= seq!['B', 'e', 'a', 'r', 'm', 'a', 'n']);
        assert(lookup_key("bearman"@) =~= lookup_key("Bearman"@));
    }
    assert(lookup_key("albon"@) == lookup_key("Albon"@)) by {
        reveal_strlit("albon");
        reveal_strlit("Albon");
        assert("albon"@ =~= seq!['a', 'l', 'b', 'o', 'n']);
        assert("Albon"@ =~= seq!['A', 'l', 'b', 'o', 'n']);
        assert(lookup_key("albon"@) =~= lookup_key("Albon"@));
    }
    assert(lookup_key("sainz"@) == lookup_key("Sainz"@)) by {
        reveal_strlit("sainz");
        reveal_strlit("Sainz");
        assert("sainz"@ =~= seq!['s', 'a', 'i', 'n', 'z']);
        assert("Sainz"@ =~= seq!['S', 'a', 'i', 'n', 'z']);
        assert(lookup_key("sainz"@) =~= lookup_key("Sainz"@));
    }
    assert(lookup_key("hulkenberg"@) == lookup_key("Hulkenberg"@)) by {
        reveal_strlit("hulkenberg");
        reveal_strlit("Hulkenberg");
        assert("hulkenberg"@ =~= seq!['h', 'u', 'l', 'k', 'e', 'n', 'b', 'e', 'r', 'g']);
        assert("Hulkenberg"@ =~= seq!['H', 'u', 'l', 'k', 'e', 'n', 'b', 'e', 'r', 'g']);
        assert(lookup_key("hulkenberg"@) =~= lookup_key("Hulkenberg"@));
    }
    assert(lookup_key("bortoleto"@) == lookup_key("Bortoleto"@)) by {
        reveal_strlit("bortoleto");
        reveal_strlit("Bortoleto");
        assert("bortoleto"@ =~= seq!['b', 'o', 'r', 't', 'o', 'l', 'e', 't', 'o']);
        assert("Bortoleto"@ =~= seq!['B', 'o', 'r', 't', 'o', 'l', 'e', 't', 'o']);
        assert(lookup_key("bortoleto"@) =~= lookup_key("Bortoleto"@));
    }
    assert(lookup_key("colapinto"@) == lookup_key("Colapinto"@)) by {
        reveal_strlit("colapinto");
        reveal_strlit("Colapinto");
        assert("colapinto"@ =~= seq!['c', 'o', 'l', 'a', 'p', 'i', 'n', 't', 'o']);
        assert("Colapinto"@ =~= seq!['C', 'o', 'l', 'a', 'p', 'i', 'n', 't', 'o']);
        assert(lookup_key("colapinto"@) =~= lookup_key("Colapinto"@));
    }
    lemma_driver_names();
}

/// Every driver with a place in display order is on the season's roster:
/// whether they are a rookie is known.
pub proof fn lemma_ranked_is_on_roster(name: Seq<char>)
    requires
        ordinal_of_name(name) is Some,
    ensures
        rookie_status(name) is Some,
{
}

/// The entries stand in display order; entries of one driver may follow
/// each other.
pub open spec fn ordered(s: Seq<RaceResultView>) -> bool {
    forall|i: int, j: int|
        0 <= i < j < s.len() ==> (#[trigger] ordinal_of(s[i]))->0 <= (#[trigger] ordinal_of(
            s[j],
        ))->0
}

/// The entries stand in display order and no driver has two of them.
pub open spec fn strictly_ordered(s: Seq<RaceResultView>) -> bool {
    forall|i: int, j: int|
        0 <= i < j < s.len() ==> (#[trigger] ordinal_of(s[i]))->0 < (#[trigger] ordinal_of(
            s[j],
        ))->0
}

/// No driver has two entries.
pub open spec fn distinct_drivers(s: Seq<RaceResultView>) -> bool {
    forall|i: int, j: int|
        0 <= i < j < s.len() ==> #[trigger] ordinal_of(s[i]) != #[trigger] ordinal_of(s[j])
}

/// The test that picks the entries of the driver with ordinal `k`.
pub open spec fn has_ordinal(k: nat) -> spec_fn(RaceResultView) -> bool {
    |e: RaceResultView| ordinal_of(e) == Some(k)
}

/// The entries of the driver with ordinal `k`, in the order in which they
/// stand in `s`.
pub open spec fn with_ordinal(s: Seq<RaceResultView>, k: nat) -> Seq<RaceResultView> {
    s.filter(has_ordinal(k))
}

/// The entries of the drivers with ordinals 1 to `k`: first those of the
/// first driver, then those of the second, and so on.
pub open spec fn ranked_upto(s: Seq<RaceResultView>, k: nat) -> Seq<RaceResultView>
    decreases k,
{
    if k == 0 {
        Seq::empty()
    } else {
        ranked_upto(s, (k - 1) as nat) + with_ordinal(s, k)
    }
}

/// The entries in display order: driver by driver, and the entries of one
/// driver in the order in which they came.
pub open spec fn canonical_order(s: Seq<RaceResultView>) -> Seq<RaceResultView> {
    ranked_upto(s, LAST_ORDINAL as nat)
}

/// The entries whose key is `k`, in the order in which they stand in `s`,
/// where `keys` holds the key of each entry of `s`.
pub open spec fn picked(s: Seq<RaceResultView>, keys: Seq<u32>, k: nat) -> Seq<RaceResultView>
    recommends
        keys.len() == s.len(),
    decreases s.len(),
{
    if s.len() == 0 {
        Seq::empty()
    } else {
        let rest = picked(s.drop_last(), keys.drop_last(), k);
        if keys.last() == k {
            rest.push(s.last())
        } else {
            rest
        }
    }
}

/// The entries with keys 1 to `k`: first those with key 1, then those with
/// key 2, and so on.
pub open spec fn picked_upto(s: Seq<RaceResultView>, keys: Seq<u32>, k: nat) -> Seq<
    RaceResultView,
>
    recommends
        keys.len() == s.len(),
    decreases k,
{
    if k == 0 {
        Seq::empty()
    } else {
        picked_upto(s, keys, (k - 1) as nat) + picked(s, keys, k)
    }
}

/// The entries arranged by key, from 1 to the last display ordinal; entries
/// with one key stay in the order in which they came, and an entry with any
/// other key is left out.
pub open spec fn arranged(s: Seq<RaceResultView>, keys: Seq<u32>) -> Seq<RaceResultView>
    recommends
        keys.len() == s.len(),
{
    picked_upto(s, keys, LAST_ORDINAL as nat)
}

/// The texts of a list of strings, in order.
pub open spec fn name_views(names: Seq<String>) -> Seq<Seq<char>> {
    names.map_values(|n: String| n@)
}

/// The texts of a list with one more string are the texts of the list with
/// one more text.
pub proof fn lemma_name_views_push(names: Seq<String>, name: String)
    ensures
        name_views(names.push(name)) == name_views(names).push(name@),
{
    assert(name_views(names.push(name)) =~= name_views(names).push(name@));
}

/// The display names of the drivers of a list of entries, in order.
pub open spec fn driver_names(s: Seq<RaceResultView>) -> Seq<Seq<char>> {
    s.map_values(|e: RaceResultView| e.driver.name())
}

/// Whether some entry belongs to the driver with the given name, whatever
/// accents either spelling has and whatever the case of its letters.
pub open spec fn is_present(s: Seq<RaceResultView>, driver: Seq<char>) -> bool {
    exists|i: int|
        0 <= i < s.len() && lookup_key((#[trigger] s[i]).driver.name()) == lookup_key(
            deunicode_of(driver),
        )
}

/// The entries with one retired entry more for each withdrawn driver who
/// has none yet, in the order of the list of the withdrawn.
pub open spec fn backfilled(s: Seq<RaceResultView>, withdrawn: Seq<Seq<char>>) -> Seq<
    RaceResultView,
>
    decreases withdrawn.len(),
{
    if withdrawn.len() == 0 {
        s
    } else {
        let sofar = backfilled(s, withdrawn.drop_last());
        if is_present(sofar, withdrawn.last()) {
            sofar
        } else {
            sofar.push(RaceResultView::retired(withdrawn.last()))
        }
    }
}

/// What the resolver makes of a list of entries: the withdrawn drivers
/// filled in, and all of it in display order.
pub open spec fn resolved(s: Seq<RaceResultView>, withdrawn: Seq<Seq<char>>) -> Seq<
    RaceResultView,
> {
    canonical_order(backfilled(s, withdrawn))
}

/// The display name of each entry's driver, in the order of the entries.
pub fn display_names(entries: &Vec<RaceResult>) -> (r: Vec<String>)
    ensures
        name_views(r@) == driver_names(entry_views(entries@)),
{
    let ghost s = entry_views(entries@);
    let mut names: Vec<String> = Vec::new();
    let mut i: usize = 0;
    while i < entries.len()
        invariant
            s == entry_views(entries@),
            i <= entries@.len(),
            name_views(names@) == driver_names(s).take(i as int),
        decreases entries@.len() - i,
    {
        let ghost before = names@;
        let name = entries[i].driver.get_name();
        names.push(name);
        proof {
            lemma_name_views_push(before, name);
            assert(driver_names(s).take(i + 1) =~= driver_names(s).take(i as int).push(
                s[i as int].driver.name(),
            ));
        }
        i += 1;
    }
    assert(driver_names(s).take(i as int) =~= driver_names(s));
    names
}

/// Whether a list of names holds the given one, under the key by which
/// names are looked up.
pub fn holds_name(names: &Vec<String>, wanted: &str) -> (r: bool)
    ensures
        r == exists|i: int|
            0 <= i < names@.len() && lookup_key(#[trigger] name_views(names@)[i]) == lookup_key(
                wanted@,
            ),
{
    let ghost s = name_views(names@);
    let key = lookup_key_of(wanted);
    let mut i: usize = 0;
    while i < names.len()
        invariant
            s == name_views(names@),
            key@ == lookup_key(wanted@),
            i <= names@.len(),
            forall|j: int| 0 <= j < i ==> lookup_key(#[trigger] s[j]) != lookup_key(wanted@),
        decreases names@.len() - i,
    {
        if key_is(&key, names[i].as_str()) {
            assert(lookup_key(s[i as int]) == lookup_key(wanted@));
            return true;
        }
        i += 1;
    }
    false
}

/// Whether some entry belongs to the driver with the given name.
pub fn has_driver(entries: &Vec<RaceResult>, driver: &str) -> (r: bool)
    ensures
        r == is_present(entry_views(entries@), driver@),
{
    let names = display_names(entries);
    let wanted = deunicode(driver);
    let found = holds_name(&names, wanted.as_str());
    proof {
        let s = entry_views(entries@);
        let all = driver_names(s);
        assert(name_views(names@).len() == names@.len());
        assert(all.len() == s.len());
        if found {
            let i = choose|i: int|
                0 <= i < names@.len() && lookup_key(#[trigger] name_views(names@)[i])
                    == lookup_key(wanted@);
            assert(all[i] == s[i].driver.name());
        }
        if is_present(s, driver@) {
            let i = choose|i: int|
                0 <= i < s.len() && lookup_key((#[trigger] s[i]).driver.name()) == lookup_key(
                    deunicode_of(driver@),
                );
            assert(all[i] == s[i].driver.name());
            assert(lookup_key(name_views(names@)[i]) == lookup_key(wanted@));
        }
    }
    found
}

/// Fills in the withdrawn: one retired entry for each of them who has no
/// entry yet.
pub fn backfill(results: &Vec<RaceResult>, withdrawn: &Vec<String>) -> (r: Vec<RaceResult>)
    ensures
        entry_views(r@) == backfilled(entry_views(results@), name_views(withdrawn@)),
{
    let mut all = clone_entries(results);
    let ghost s = entry_views(results@);
    let ghost w = name_views(withdrawn@);
    let mut j: usize = 0;
    assert(w.take(0) =~= Seq::<Seq<char>>::empty());
    while j < withdrawn.len()
        invariant
            s == entry_views(results@),
            w == name_views(withdrawn@),
            j <= withdrawn@.len(),
            entry_views(all@) == backfilled(s, w.take(j as int)),
        decreases withdrawn@.len() - j,
    {
        let name = withdrawn[j].as_str();
        proof {
            assert(w.take(j + 1).drop_last() =~= w.take(j as int));
            assert(w.take(j + 1).last() == name@);
        }
        if !has_driver(&all, name) {
            let ghost before = all@;
            let e = RaceResult::retired(name);
            all.push(e);
            proof {
                lemma_entry_views_push(before, e);
            }
        }
        j += 1;
    }
    assert(w.take(j as int) =~= w);
    all
}

/// The display ordinal of each name, in the order of the names; nothing
/// where some name belongs to no driver of the season.
pub fn ordinals_of(names: &Vec<String>) -> (r: Option<Vec<u32>>)
    ensures
        r is Some <==> forall|i: int|
            0 <= i < names@.len() ==> ordinal_of_name(#[trigger] names@[i]@) is Some,
        r is Some ==> r->0@.len() == names@.len() && forall|i: int|
            0 <= i < names@.len() ==> ordinal_of_name(#[trigger] names@[i]@) == Some(
                r->0@[i] as nat,
            ),
{
    let mut out: Vec<u32> = Vec::new();
    let mut i: usize = 0;
    while i < names.len()
        invariant
            i <= names@.len(),
            out@.len() == i,
            forall|j: int|
                0 <= j < i ==> ordinal_of_name(#[trigger] names@[j]@) == Some(out@[j] as nat),
        decreases names@.len() - i,
    {
        match DriverId::from_str(names[i].as_str()) {
            Ok(d) => {
                out.push(d.place());
            },
            Err(_) => {
                assert(ordinal_of_name(names@[i as int]@) is None);
                return None;
            },
        }
        i += 1;
    }
    Some(out)
}

/// The display ordinal of each entry's driver, in the order of the entries;
/// nothing where some driver has none.
pub fn ordinals(results: &Vec<RaceResult>) -> (r: Option<Vec<u32>>)
    ensures
        r is Some <==> all_ranked(entry_views(results@)),
        r is Some ==> r->0@.len() == results@.len() && forall|i: int|
            0 <= i < results@.len() ==> ordinal_of(#[trigger] entry_views(results@)[i]) == Some(
                r->0@[i] as nat,
            ),
{
    let names = display_names(results);
    let r = ordinals_of(&names);
    proof {
        let s = entry_views(results@);
        assert(names@.len() == s.len()) by {
            assert(name_views(names@).len() == driver_names(s).len());
        }
        assert forall|i: int| 0 <= i < s.len() implies #[trigger] ordinal_of(s[i])
            == ordinal_of_name(names@[i]@) by {
            assert(name_views(names@)[i] == driver_names(s)[i]);
        }
        if r is Some {
            assert forall|i: int| 0 <= i < s.len() implies (#[trigger] ordinal_of(s[i])) is Some by {
                assert(ordinal_of_name(names@[i]@) is Some);
            }
        }
        if all_ranked(s) {
            assert forall|i: int| 0 <= i < names@.len() implies ordinal_of_name(
                #[trigger] names@[i]@,
            ) is Some by {
                assert(ordinal_of(s[i]) is Some);
            }
        }
    }
    r
}

/// Arranges entries by the keys given for them, from 1 to the last display
/// ordinal. There has to be one key for each entry: else there is nothing to
/// arrange.
pub fn arrange(results: &Vec<RaceResult>, keys: &Vec<u32>) -> (r: Option<Vec<RaceResult>>)
    ensures
        r is Some <==> keys@.len() == results@.len(),
        r is Some ==> entry_views(r->0@) == arranged(entry_views(results@), keys@),
{
    let ghost s = entry_views(results@);
    let n = results.len();
    if keys.len() != n {
        return None;
    }
    let mut out: Vec<RaceResult> = Vec::new();
    let mut k: u32 = 1;
    assert(entry_views(out@) =~= picked_upto(s, keys@, 0));
    while k <= LAST_ORDINAL
        invariant
            s == entry_views(results@),
            n == results@.len(),
            keys@.len() == n,
            1 <= k <= LAST_ORDINAL + 1,
            entry_views(out@) == picked_upto(s, keys@, (k - 1) as nat),
        decreases LAST_ORDINAL + 1 - k,
    {
        let ghost low = picked_upto(s, keys@, (k - 1) as nat);
        let mut i: usize = 0;
        assert(entry_views(out@) =~= low + picked(s.take(0), keys@.take(0), k as nat));
        while i < n
            invariant
                s == entry_views(results@),
                n == results@.len(),
                keys@.len() == n,
                1 <= k <= LAST_ORDINAL,
                low == picked_upto(s, keys@, (k - 1) as nat),
                i <= n,
                entry_views(out@) == low + picked(s.take(i as int), keys@.take(i as int), k as nat),
            decreases n - i,
        {
            proof {
                assert(s.take(i + 1).drop_last() =~= s.take(i as int));
                assert(keys@.take(i + 1).drop_last() =~= keys@.take(i as int));
            }
            if keys[i] == k {
                let ghost before = out@;
                let e = results[i].clone();
                out.push(e);
                proof {
                    lemma_entry_views_push(before, e);
                    assert(s.take(i + 1).last() == e@);
                    assert(entry_views(out@) =~= low + picked(
                        s.take(i + 1),
                        keys@.take(i + 1),
                        k as nat,
                    ));
                }
            }
            i += 1;
        }
        assert(s.take(n as int) =~= s);
        assert(keys@.take(n as int) =~= keys@);
        k += 1;
    }
    Some(out)
}

/// Puts entries in display order.
pub fn sort_results(results: &Vec<RaceResult>) -> (r: Result<Vec<RaceResult>, ReportError>)
    ensures
        r is Ok <==> all_ranked(entry_views(results@)),
        r is Ok ==> entry_views(r->Ok_0@) == canonical_order(entry_views(results@)),
        r is Err ==> r->Err_0 == ReportError::UnknownCompetitor,
{
    let keys = match ordinals(results) {
        Some(keys) => keys,
        None => {
            return Err(ReportError::UnknownCompetitor);
        },
    };
    proof {
        lemma_arranged_is_canonical(entry_views(results@), keys@);
    }
    match arrange(results, &keys) {
        Some(sorted) => Ok(sorted),
        None => Err(ReportError::UnknownCompetitor),
    }
}

/// Resolves a list of entries against the roster: fills in the withdrawn
/// and puts everything in display order. There is no order for a driver
/// whom the season does not know, so one such entry is an error.
///
/// What comes back holds every entry that was given and stands in display
/// order; where no driver had two entries, none has two afterwards.
pub fn resolve(results: &Vec<RaceResult>, withdrawn: &Vec<String>) -> (r: Result<
    Vec<RaceResult>,
    ReportError,
>)
    ensures
        r is Ok <==> all_ranked(backfilled(entry_views(results@), name_views(withdrawn@))),
        r is Ok ==> {
            let out = entry_views(r->Ok_0@);
            &&& out == resolved(entry_views(results@), name_views(withdrawn@))
            &&& out.len() >= results@.len()
            &&& entry_views(results@).to_multiset().subset_of(out.to_multiset())
            &&& ordered(out)
            &&& distinct_drivers(entry_views(results@)) ==> strictly_ordered(out)
        },
        r is Err ==> r->Err_0 == ReportError::UnknownCompetitor,
{
    let all = backfill(results, withdrawn);
    proof {
        if all_ranked(entry_views(all@)) {
            lemma_resolved_keeps_and_orders(entry_views(results@), name_views(withdrawn@));
        }
    }
    sort_results(&all)
}

} // verus!
