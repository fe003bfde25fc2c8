//! The result model: one race weekend as the results service describes it,
//! and the request paths under which the service publishes it.
//!
//! Each type has a view that holds its texts as `Seq<char>`; the contracts of
//! the whole crate are stated over these views.

use crate::text::{
    decimal, decimal_string, deunicode, deunicode_of, parse_u32, parse_unsigned, plain_ascii,
    trim_end, trim_end_matches,
};
use chrono::NaiveDate;
use vstd::prelude::*;
use vstd::string::*;

verus! {

/// A calendar date of `chrono`. The library carries it along and never looks
/// inside.
#[verifier::external_type_specification]
#[verifier::external_body]
pub struct ExNaiveDate(chrono::NaiveDate);

/// A driver as the service names them.
#[derive(Debug)]
pub struct Driver {
    pub given_name: String,
    pub family_name: String,
}

pub ghost struct DriverView {
    pub given_name: Seq<char>,
    pub family_name: Seq<char>,
}

impl DriverView {
    /// The display name: the family name, transliterated to ASCII.
    pub open spec fn name(self) -> Seq<char> {
        deunicode_of(self.family_name)
    }
}

impl View for Driver {
    type V = DriverView;

    open spec fn view(&self) -> DriverView {
        DriverView { given_name: self.given_name@, family_name: self.family_name@ }
    }
}

impl Clone for Driver {
    fn clone(&self) -> (r: Self)
        ensures
            r@ == self@,
    {
        Driver { given_name: self.given_name.clone(), family_name: self.family_name.clone() }
    }
}

impl Default for Driver {
    fn default() -> (r: Self)
        ensures
            r@ == (DriverView { given_name: Seq::empty(), family_name: Seq::empty() }),
    {
        Driver { given_name: String::new(), family_name: String::new() }
    }
}

impl Driver {
    /// The display name of the driver. A family name in plain ASCII is its
    /// own display name.
    pub fn get_name(&self) -> (r: String)
        ensures
            r@ == self@.name(),
            plain_ascii(self@.family_name) ==> r@ == self@.family_name,
    {
        deunicode(self.family_name.as_str())
    }
}

/// A constructor (team). Its view is its name.
#[derive(Debug)]
pub struct Constructor {
    pub name: String,
}

impl View for Constructor {
    type V = Seq<char>;

    open spec fn view(&self) -> Seq<char> {
        self.name@
    }
}

impl Clone for Constructor {
    fn clone(&self) -> (r: Self)
        ensures
            r@ == self@,
    {
        Constructor { name: self.name.clone() }
    }
}

impl Default for Constructor {
    fn default() -> (r: Self)
        ensures
            r@ == Seq::<char>::empty(),
    {
        Constructor { name: String::new() }
    }
}

/// A finishing time as the service prints it. Its view is that text.
#[derive(Debug)]
pub struct Time {
    pub time: String,
}

impl View for Time {
    type V = Seq<char>;

    open spec fn view(&self) -> Seq<char> {
        self.time@
    }
}

impl Clone for Time {
    fn clone(&self) -> (r: Self)
        ensures
            r@ == self@,
    {
        Time { time: self.time.clone() }
    }
}

/// The rank that a position text stands for: the number it denotes, if it
/// denotes one and that number is at least 1.
pub open spec fn position_rank(text: Seq<char>) -> Option<u32> {
    match parse_u32(text) {
        Some(n) => if n >= 1 {
            Some(n)
        } else {
            None
        },
        None => None,
    }
}

/// One driver's outcome in one session.
#[derive(Debug)]
pub struct RaceResult {
    pub position: String,
    pub position_text: String,
    pub driver: Driver,
    pub constructor: Constructor,
    pub time: Option<Time>,
    pub sprint: bool,
}

pub ghost struct RaceResultView {
    pub position: Seq<char>,
    pub position_text: Seq<char>,
    pub driver: DriverView,
    pub constructor: Seq<char>,
    pub time: Option<Seq<char>>,
    pub sprint: bool,
}

impl RaceResultView {
    /// The finishing rank, absent for an entry that was not classified.
    pub open spec fn rank(self) -> Option<u32> {
        position_rank(self.position_text)
    }

    /// The entry that stands for a driver who has left the grid: position
    /// `R`, no rank, constructor `Retired`, both names the given one.
    pub open spec fn retired(driver: Seq<char>) -> RaceResultView {
        RaceResultView {
            position: "R"@,
            position_text: Seq::empty(),
            driver: DriverView { given_name: driver, family_name: driver },
            constructor: "Retired"@,
            time: None,
            sprint: false,
        }
    }

    /// The same entry, marked as one of a sprint.
    pub open spec fn as_sprint(self) -> RaceResultView {
        RaceResultView { sprint: true, ..self }
    }
}

impl View for RaceResult {
    type V = RaceResultView;

    open spec fn view(&self) -> RaceResultView {
        RaceResultView {
            position: self.position@,
            position_text: self.position_text@,
            driver: self.driver@,
            constructor: self.constructor@,
            time: match self.time {
                Some(t) => Some(t@),
                None => None,
            },
            sprint: self.sprint,
        }
    }
}

impl Clone for RaceResult {
    fn clone(&self) -> (r: Self)
        ensures
            r@ == self@,
    {
        RaceResult {
            position: self.position.clone(),
            position_text: self.position_text.clone(),
            driver: self.driver.clone(),
            constructor: self.constructor.clone(),
            time: match &self.time {
                Some(t) => Some(t.clone()),
                None => None,
            },
            sprint: self.sprint,
        }
    }
}

impl Default for RaceResult {
    fn default() -> (r: Self)
        ensures
            r@ == (RaceResultView {
                position: Seq::empty(),
                position_text: Seq::empty(),
                driver: DriverView { given_name: Seq::empty(), family_name: Seq::empty() },
                constructor: Seq::empty(),
                time: None,
                sprint: false,
            }),
    {
        RaceResult {
            position: String::new(),
            position_text: String::new(),
            driver: Driver::default(),
            constructor: Constructor::default(),
            time: None,
            sprint: false,
        }
    }
}

impl RaceResult {
    /// An entry with the given position, as code and as text, and the given
    /// constructor; everything else is empty.
    pub fn new(position: String, constructor: String) -> (r: Self)
        ensures
            r@ == (RaceResultView {
                position: position@,
                position_text: position@,
                driver: DriverView { given_name: Seq::empty(), family_name: Seq::empty() },
                constructor: constructor@,
                time: None,
                sprint: false,
            }),
    {
        RaceResult {
            position_text: position.clone(),
            position,
            driver: Driver::default(),
            constructor: Constructor { name: constructor },
            time: None,
            sprint: false,
        }
    }

    /// The entry that stands for a driver who has left the grid.
    pub fn retired(driver: &str) -> (r: Self)
        ensures
            r@ == RaceResultView::retired(driver@),
    {
        RaceResult {
            driver: Driver {
                given_name: String::from_str(driver),
                family_name: String::from_str(driver),
            },
            position: String::from_str("R"),
            position_text: String::new(),
            constructor: Constructor { name: String::from_str("Retired") },
            time: None,
            sprint: false,
        }
    }

    /// The finishing rank, if the position text denotes one.
    pub fn get_position(&self) -> (r: Option<u32>)
        ensures
            r == self@.rank(),
    {
        match parse_unsigned(self.position_text.as_str()) {
            Some(n) => if n >= 1 {
                Some(n)
            } else {
                None
            },
            None => None,
        }
    }
}

/// The views of a list of entries, in order.
pub open spec fn entry_views(entries: Seq<RaceResult>) -> Seq<RaceResultView> {
    entries.map_values(|e: RaceResult| e@)
}

/// The views of a list with one more entry are the views of the list with
/// one more view.
pub proof fn lemma_entry_views_push(entries: Seq<RaceResult>, e: RaceResult)
    ensures
        entry_views(entries.push(e)) == entry_views(entries).push(e@),
{
    assert(entry_views(entries.push(e)) =~= entry_views(entries).push(e@));
}

/// Copies a list of entries.
pub fn clone_entries(entries: &Vec<RaceResult>) -> (r: Vec<RaceResult>)
    ensures
        entry_views(r@) == entry_views(entries@),
{
    let mut r: Vec<RaceResult> = Vec::new();
    let mut i: usize = 0;
    while i < entries.len()
        invariant
            i <= entries@.len(),
            entry_views(r@) == entry_views(entries@).take(i as int),
        decreases entries@.len() - i,
    {
        let ghost before = r@;
        let e = entries[i].clone();
        r.push(e);
        proof {
            lemma_entry_views_push(before, e);
            assert(entry_views(entries@).take(i + 1) =~= entry_views(entries@).take(
                i as int,
            ).push(entries@[i as int]@));
        }
        i += 1;
    }
    assert(entry_views(entries@).take(i as int) =~= entry_views(entries@));
    r
}

/// A session of the weekend. Its view is its date.
#[derive(Debug)]
pub struct Session {
    pub date: NaiveDate,
}

impl View for Session {
    type V = NaiveDate;

    open spec fn view(&self) -> NaiveDate {
        self.date
    }
}

impl Clone for Session {
    fn clone(&self) -> (r: Self)
        ensures
            r@ == self@,
    {
        Session { date: self.date }
    }
}

/// Where a circuit lies.
#[derive(Debug)]
pub struct Location {
    pub locality: String,
    pub country: String,
}

pub ghost struct LocationView {
    pub locality: Seq<char>,
    pub country: Seq<char>,
}

impl View for Location {
    type V = LocationView;

    open spec fn view(&self) -> LocationView {
        LocationView { locality: self.locality@, country: self.country@ }
    }
}

impl Clone for Location {
    fn clone(&self) -> (r: Self)
        ensures
            r@ == self@,
    {
        Location { locality: self.locality.clone(), country: self.country.clone() }
    }
}

/// A circuit.
#[derive(Debug)]
pub struct Circuit {
    pub circuit_name: String,
    pub location: Location,
}

pub ghost struct CircuitView {
    pub circuit_name: Seq<char>,
    pub location: LocationView,
}

impl View for Circuit {
    type V = CircuitView;

    open spec fn view(&self) -> CircuitView {
        CircuitView { circuit_name: self.circuit_name@, location: self.location@ }
    }
}

impl Clone for Circuit {
    fn clone(&self) -> (r: Self)
        ensures
            r@ == self@,
    {
        Circuit { circuit_name: self.circuit_name.clone(), location: self.location.clone() }
    }
}

/// The view of an optional session: its date, if there is one.
pub open spec fn session_view(s: Option<Session>) -> Option<NaiveDate> {
    match s {
        Some(s) => Some(s@),
        None => None,
    }
}

/// One race weekend: the race itself and, where one was held, the sprint.
#[derive(Debug)]
pub struct Race {
    pub race_name: String,
    pub date: NaiveDate,
    pub circuit: Circuit,
    pub qualifying: Option<Session>,
    pub sprint_qualifying: Option<Session>,
    pub results: Vec<RaceResult>,
    pub sprint_results: Vec<RaceResult>,
}

pub ghost struct RaceView {
    pub race_name: Seq<char>,
    pub date: NaiveDate,
    pub circuit: CircuitView,
    pub qualifying: Option<NaiveDate>,
    pub sprint_qualifying: Option<NaiveDate>,
    pub results: Seq<RaceResultView>,
    pub sprint_results: Seq<RaceResultView>,
}

impl View for Race {
    type V = RaceView;

    open spec fn view(&self) -> RaceView {
        RaceView {
            race_name: self.race_name@,
            date: self.date,
            circuit: self.circuit@,
            qualifying: session_view(self.qualifying),
            sprint_qualifying: session_view(self.sprint_qualifying),
            results: entry_views(self.results@),
            sprint_results: entry_views(self.sprint_results@),
        }
    }
}

impl Clone for Race {
    fn clone(&self) -> (r: Self)
        ensures
            r@ == self@,
    {
        Race {
            race_name: self.race_name.clone(),
            date: self.date,
            circuit: self.circuit.clone(),
            qualifying: match &self.qualifying {
                Some(s) => Some(s.clone()),
                None => None,
            },
            sprint_qualifying: match &self.sprint_qualifying {
                Some(s) => Some(s.clone()),
                None => None,
            },
            results: clone_entries(&self.results),
            sprint_results: clone_entries(&self.sprint_results),
        }
    }
}

impl RaceView {
    /// The date of the first qualifying session of the weekend: that of the
    /// sprint qualifying where there is one, else that of the qualifying.
    pub open spec fn quali_date(self) -> NaiveDate
        recommends
            self.qualifying is Some,
    {
        match self.sprint_qualifying {
            Some(d) => d,
            None => self.qualifying->0,
        }
    }

    /// The short name of the race: the race name without `Grand Prix` at its
    /// end, transliterated to ASCII.
    pub open spec fn name(self) -> Seq<char> {
        deunicode_of(trim_end(self.race_name, "Grand Prix"@))
    }

    /// The town of the circuit, transliterated to ASCII.
    pub open spec fn location(self) -> Seq<char> {
        deunicode_of(self.circuit.location.locality)
    }
}

impl Race {
    /// The earliest of the qualifying dates.
    pub fn get_quali_date(&self) -> (r: NaiveDate)
        requires
            self.qualifying is Some,
        ensures
            r == self@.quali_date(),
    {
        match &self.sprint_qualifying {
            Some(s) => s.date,
            None => match &self.qualifying {
                Some(q) => q.date,
                None => self.date,
            },
        }
    }

    /// The short name of the race.
    pub fn name(&self) -> (r: String)
        ensures
            r@ == self@.name(),
    {
        let trimmed = trim_end_matches(self.race_name.as_str(), "Grand Prix");
        deunicode(trimmed.as_str())
    }

    /// The town of the circuit.
    pub fn location(&self) -> (r: String)
        ensures
            r@ == self@.location(),
    {
        deunicode(self.circuit.location.locality.as_str())
    }
}

/// The constructors of a season. Its view is their names, in order.
#[derive(Debug)]
pub struct ConstructorTable {
    pub constructors: Vec<Constructor>,
}

impl View for ConstructorTable {
    type V = Seq<Seq<char>>;

    open spec fn view(&self) -> Seq<Seq<char>> {
        self.constructors@.map_values(|c: Constructor| c@)
    }
}

/// The address of the results service.
pub const BASE_URL: &'static str = "https://api.jolpi.ca/ergast/f1";

/// How a request names a season: the year, or `current`.
pub open spec fn season_segment(year: Option<u32>) -> Seq<char> {
    match year {
        Some(y) => decimal(y as nat),
        None => "current"@,
    }
}

/// How a request names a round: its number, or `last`.
pub open spec fn round_segment(round: Option<u32>) -> Seq<char> {
    match round {
        Some(r) => decimal(r as nat),
        None => "last"@,
    }
}

/// The path of a season's calendar.
pub open spec fn races_path(year: Option<u32>) -> Seq<char> {
    BASE_URL@ + "/"@ + season_segment(year) + ".json"@
}

/// The path of what the service holds on one round: `results.json`,
/// `sprint.json`.
pub open spec fn round_path(year: Option<u32>, round: Option<u32>, file: Seq<char>) -> Seq<char> {
    BASE_URL@ + "/"@ + season_segment(year) + "/"@ + round_segment(round) + "/"@ + file
}

/// The path of a season's constructors.
pub open spec fn constructors_path(year: Option<u32>) -> Seq<char> {
    BASE_URL@ + "/"@ + season_segment(year) + "/constructors.json"@
}

fn season_text(year: Option<u32>) -> (r: String)
    ensures
        r@ == season_segment(year),
{
    match year {
        Some(y) => decimal_string(y),
        None => String::from_str("current"),
    }
}

fn round_text(round: Option<u32>) -> (r: String)
    ensures
        r@ == round_segment(round),
{
    match round {
        Some(n) => decimal_string(n),
        None => String::from_str("last"),
    }
}

fn round_url(year: Option<u32>, round: Option<u32>, file: &str) -> (r: String)
    ensures
        r@ == round_path(year, round, file@),
{
    let mut url = String::from_str(BASE_URL);
    url.append("/");
    url.append(season_text(year).as_str());
    url.append("/");
    url.append(round_text(round).as_str());
    url.append("/");
    url.append(file);
    url
}

/// The address to ask for a season's calendar.
pub fn races_url(year: Option<u32>) -> (r: String)
    ensures
        r@ == races_path(year),
{
    let mut url = String::from_str(BASE_URL);
    url.append("/");
    url.append(season_text(year).as_str());
    url.append(".json");
    url
}

/// The address to ask for the results of a race.
pub fn results_url(year: Option<u32>, round: Option<u32>) -> (r: String)
    ensures
        r@ == round_path(year, round, "results.json"@),
{
    round_url(year, round, "results.json")
}

/// The address to ask for the results of a sprint.
pub fn sprint_url(year: Option<u32>, round: Option<u32>) -> (r: String)
    ensures
        r@ == round_path(year, round, "sprint.json"@),
{
    round_url(year, round, "sprint.json")
}

/// The address to ask for a season's constructors.
pub fn constructors_url(year: Option<u32>) -> (r: String)
    ensures
        r@ == constructors_path(year),
{
    let mut url = String::from_str(BASE_URL);
    url.append("/");
    url.append(season_text(year).as_str());
    url.append("/constructors.json");
    url
}

/// The sprint entries that an answer of the service holds: the results of
/// its first race, each marked as a sprint entry; none where it holds no race.
pub open spec fn sprint_entries_of(races: Seq<RaceView>) -> Seq<RaceResultView> {
    if races.len() > 0 {
        races[0].results.map_values(|e: RaceResultView| e.as_sprint())
    } else {
        Seq::empty()
    }
}

/// The views of a list of races, in order.
pub open spec fn race_views(races: Seq<Race>) -> Seq<RaceView> {
    races.map_values(|r: Race| r@)
}

/// Takes the sprint entries out of an answer of the service.
pub fn sprint_entries(races: &Vec<Race>) -> (r: Vec<RaceResult>)
    ensures
        entry_views(r@) == sprint_entries_of(race_views(races@)),
{
    let mut out: Vec<RaceResult> = Vec::new();
    if races.len() == 0 {
        assert(entry_views(out@) =~= Seq::empty());
        return out;
    }
    let first = &races[0];
    let ghost src = first@.results;
    let ghost want = src.map_values(|e: RaceResultView| e.as_sprint());
    let mut i: usize = 0;
    while i < first.results.len()
        invariant
            src == entry_views(first.results@),
            want == src.map_values(|e: RaceResultView| e.as_sprint()),
            i <= first.results@.len(),
            entry_views(out@) == want.take(i as int),
        decreases first.results@.len() - i,
    {
        let ghost before = out@;
        let mut e = first.results[i].clone();
        e.sprint = true;
        out.push(e);
        proof {
            lemma_entry_views_push(before, e);
            assert(want.take(i + 1) =~= want.take(i as int).push(e@));
        }
        i += 1;
    }
    assert(want.take(i as int) =~= want);
    out
}

/// The first race of an answer of the service, with the given sprint
/// entries in place of its own; nothing where the answer holds no race.
pub fn race_with_sprint(races: &Vec<Race>, sprint: Vec<RaceResult>) -> (r: Option<Race>)
    ensures
        races@.len() == 0 ==> r is None,
        races@.len() > 0 ==> r is Some && r->0@ == (RaceView {
            sprint_results: entry_views(sprint@),
            ..races@[0]@
        }),
{
    if races.len() == 0 {
        return None;
    }
    let mut race = races[0].clone();
    race.sprint_results = sprint;
    Some(race)
}

} // verus!
