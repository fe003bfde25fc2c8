use chrono::NaiveDate;
use fantasyf1::puller::{
    clone_entries, constructors_url, race_with_sprint, races_url, results_url, sprint_entries,
    sprint_url, Circuit, Constructor, ConstructorTable, Driver, Location, Race, RaceResult,
    Session, Time, BASE_URL,
};

fn day(y: i32, m: u32, d: u32) -> NaiveDate {
    NaiveDate::from_ymd_opt(y, m, d).unwrap()
}

fn entry(position: &str, family_name: &str, constructor: &str) -> RaceResult {
    RaceResult {
        position: position.to_owned(),
        position_text: position.to_owned(),
        driver: Driver { given_name: "A".to_owned(), family_name: family_name.to_owned() },
        constructor: Constructor { name: constructor.to_owned() },
        time: Some(Time { time: "1:30:00.000".to_owned() }),
        sprint: false,
    }
}

fn race(name: &str, locality: &str, results: Vec<RaceResult>) -> Race {
    Race {
        race_name: name.to_owned(),
        date: day(2025, 3, 16),
        circuit: Circuit {
            circuit_name: "Circuit".to_owned(),
            location: Location { locality: locality.to_owned(), country: "Country".to_owned() },
        },
        qualifying: Some(Session { date: day(2025, 3, 15) }),
        sprint_qualifying: None,
        results,
        sprint_results: Vec::new(),
    }
}

#[test]
fn new_entry_has_position_and_constructor() {
    let e = RaceResult::new("10".to_owned(), "Aston Martin".to_owned());
    assert_eq!(e.position, "10");
    assert_eq!(e.position_text, "10");
    assert_eq!(e.constructor.name, "Aston Martin");
    assert_eq!(e.driver.given_name, "");
    assert_eq!(e.driver.family_name, "");
    assert!(e.time.is_none());
    assert!(!e.sprint);
}

#[test]
fn retired_entry_has_code_r_and_no_rank() {
    let e = RaceResult::retired("Doohan");
    assert_eq!(e.position, "R");
    assert_eq!(e.position_text, "");
    assert_eq!(e.constructor.name, "Retired");
    assert_eq!(e.driver.given_name, "Doohan");
    assert_eq!(e.driver.family_name, "Doohan");
    assert!(e.time.is_none());
    assert!(!e.sprint);
    assert_eq!(e.get_position(), None);
}

#[test]
fn default_entry_is_empty() {
    let e = RaceResult::default();
    assert_eq!(e.position, "");
    assert_eq!(e.position_text, "");
    assert_eq!(e.driver.family_name, "");
    assert_eq!(e.constructor.name, "");
    assert!(e.time.is_none());
    assert!(!e.sprint);
    assert_eq!(Driver::default().given_name, "");
    assert_eq!(Constructor::default().name, "");
}

#[test]
fn get_position_reads_the_position_text() {
    let mut e = entry("3", "Norris", "McLaren");
    assert_eq!(e.get_position(), Some(3));
    e.position_text = "R".to_owned();
    assert_eq!(e.get_position(), None);
    e.position_text = "20".to_owned();
    e.position = "R".to_owned();
    assert_eq!(e.get_position(), Some(20));
}

#[test]
fn get_position_wants_a_positive_number() {
    for (text, rank) in [
        ("1", Some(1)),
        ("+4", Some(4)),
        ("015", Some(15)),
        ("4294967295", Some(4294967295)),
        ("0", None),
        ("000", None),
        ("+0", None),
        ("", None),
        ("R", None),
        ("D", None),
        ("W", None),
        ("-3", None),
        ("3rd", None),
        (" 3", None),
        ("4294967296", None),
    ] {
        let e = RaceResult::new(text.to_owned(), "Ferrari".to_owned());
        assert_eq!(e.get_position(), rank);
    }
}

#[test]
fn get_name_strips_accents() {
    let d = Driver { given_name: "Nico".to_owned(), family_name: "H\u{fc}lkenberg".to_owned() };
    assert_eq!(d.get_name(), "Hulkenberg");
    let p = Driver { given_name: "Sergio".to_owned(), family_name: "P\u{e9}rez".to_owned() };
    assert_eq!(p.get_name(), "Perez");
    let n = Driver { given_name: "Lando".to_owned(), family_name: "Norris".to_owned() };
    assert_eq!(n.get_name(), "Norris");
    assert_eq!(Driver::default().get_name(), "");
}

#[test]
fn race_name_drops_grand_prix() {
    assert_eq!(race("Australian Grand Prix", "Melbourne", Vec::new()).name(), "Australian ");
    assert_eq!(race("S\u{e3}o Paulo Grand Prix", "S\u{e3}o Paulo", Vec::new()).name(), "Sao Paulo ");
    assert_eq!(race("Indianapolis 500", "Speedway", Vec::new()).name(), "Indianapolis 500");
    assert_eq!(race("Grand Prix", "Nowhere", Vec::new()).name(), "");
}

#[test]
fn race_location_strips_accents() {
    assert_eq!(race("Brazilian Grand Prix", "S\u{e3}o Paulo", Vec::new()).location(), "Sao Paulo");
    assert_eq!(race("Canadian Grand Prix", "Montr\u{e9}al", Vec::new()).location(), "Montreal");
    assert_eq!(race("British Grand Prix", "Silverstone", Vec::new()).location(), "Silverstone");
}

#[test]
fn quali_date_prefers_the_sprint_qualifying() {
    let mut r = race("Chinese Grand Prix", "Shanghai", Vec::new());
    assert_eq!(r.get_quali_date(), day(2025, 3, 15));
    r.sprint_qualifying = Some(Session { date: day(2025, 3, 14) });
    assert_eq!(r.get_quali_date(), day(2025, 3, 14));
    r.sprint_qualifying = Some(Session { date: day(2025, 3, 17) });
    assert_eq!(r.get_quali_date(), day(2025, 3, 17));
}

#[test]
fn clone_keeps_everything() {
    let mut r = race("Dutch Grand Prix", "Zandvoort", vec![entry("1", "Piastri", "McLaren")]);
    r.sprint_qualifying = Some(Session { date: day(2025, 8, 29) });
    r.sprint_results = vec![entry("2", "Norris", "McLaren")];
    let c = r.clone();
    assert_eq!(format!("{:?}", c), format!("{:?}", r));
    let e = entry("R", "Stroll", "Aston Martin");
    assert_eq!(format!("{:?}", e.clone()), format!("{:?}", e));
    let list = vec![entry("1", "Piastri", "McLaren"), entry("2", "Norris", "McLaren")];
    assert_eq!(format!("{:?}", clone_entries(&list)), format!("{:?}", list));
    assert_eq!(clone_entries(&Vec::new()).len(), 0);
}

#[test]
fn constructor_table_holds_constructors() {
    let table = ConstructorTable {
        constructors: vec![
            Constructor { name: "Ferrari".to_owned() },
            Constructor { name: "Sauber".to_owned() },
        ],
    };
    assert_eq!(table.constructors.len(), 2);
    assert_eq!(table.constructors[1].name, "Sauber");
}

#[test]
fn request_paths() {
    assert_eq!(BASE_URL, "https://api.jolpi.ca/ergast/f1");
    assert_eq!(races_url(None), "https://api.jolpi.ca/ergast/f1/current.json");
    assert_eq!(races_url(Some(2024)), "https://api.jolpi.ca/ergast/f1/2024.json");
    assert_eq!(
        results_url(None, None),
        "https://api.jolpi.ca/ergast/f1/current/last/results.json"
    );
    assert_eq!(
        results_url(Some(2025), Some(3)),
        "https://api.jolpi.ca/ergast/f1/2025/3/results.json"
    );
    assert_eq!(
        results_url(None, Some(12)),
        "https://api.jolpi.ca/ergast/f1/current/12/results.json"
    );
    assert_eq!(
        sprint_url(Some(2025), None),
        "https://api.jolpi.ca/ergast/f1/2025/last/sprint.json"
    );
    assert_eq!(sprint_url(Some(0), Some(0)), "https://api.jolpi.ca/ergast/f1/0/0/sprint.json");
    assert_eq!(
        constructors_url(None),
        "https://api.jolpi.ca/ergast/f1/current/constructors.json"
    );
    assert_eq!(
        constructors_url(Some(1950)),
        "https://api.jolpi.ca/ergast/f1/1950/constructors.json"
    );
}

#[test]
fn sprint_entries_are_marked() {
    let first = race(
        "Chinese Grand Prix",
        "Shanghai",
        vec![entry("1", "Hamilton", "Ferrari"), entry("2", "Piastri", "McLaren")],
    );
    let second = race("Other Grand Prix", "Elsewhere", vec![entry("1", "Norris", "McLaren")]);
    let out = sprint_entries(&vec![first, second]);
    assert_eq!(out.len(), 2);
    assert!(out[0].sprint);
    assert!(out[1].sprint);
    assert_eq!(out[0].driver.family_name, "Hamilton");
    assert_eq!(out[0].position, "1");
    assert_eq!(out[0].constructor.name, "Ferrari");
    assert_eq!(out[0].time.as_ref().unwrap().time, "1:30:00.000");
    assert_eq!(out[1].driver.family_name, "Piastri");
    assert_eq!(out[1].position_text, "2");
}

#[test]
fn no_race_no_sprint_entries() {
    assert_eq!(sprint_entries(&Vec::new()).len(), 0);
    let empty = race("Quiet Grand Prix", "Nowhere", Vec::new());
    assert_eq!(sprint_entries(&vec![empty]).len(), 0);
}

#[test]
fn race_with_sprint_takes_the_first_race() {
    let first = race("Chinese Grand Prix", "Shanghai", vec![entry("1", "Piastri", "McLaren")]);
    let second = race("Other Grand Prix", "Elsewhere", Vec::new());
    let mut sprint = entry("1", "Hamilton", "Ferrari");
    sprint.sprint = true;
    let got = race_with_sprint(&vec![first, second], vec![sprint]).unwrap();
    assert_eq!(got.race_name, "Chinese Grand Prix");
    assert_eq!(got.date, day(2025, 3, 16));
    assert_eq!(got.circuit.location.locality, "Shanghai");
    assert_eq!(got.results.len(), 1);
    assert_eq!(got.results[0].driver.family_name, "Piastri");
    assert_eq!(got.sprint_results.len(), 1);
    assert_eq!(got.sprint_results[0].driver.family_name, "Hamilton");
    assert!(got.sprint_results[0].sprint);
    assert!(race_with_sprint(&Vec::new(), Vec::new()).is_none());
}
