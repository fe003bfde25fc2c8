use chrono::NaiveDate;
use fantasyf1::error::ReportError;
use fantasyf1::puller::{Circuit, Constructor, Driver, Location, Race, RaceResult, Session};
use fantasyf1::result::{
    check_constructors, format_line, gone, position_text, render_results, report, result_line,
    RaceResults, HEADER, RULE,
};

fn entry(position: &str, family_name: &str, constructor: &str, sprint: bool) -> RaceResult {
    RaceResult {
        position: position.to_owned(),
        position_text: position.to_owned(),
        driver: Driver { given_name: String::new(), family_name: family_name.to_owned() },
        constructor: Constructor { name: constructor.to_owned() },
        time: None,
        sprint,
    }
}

fn weekend(results: Vec<RaceResult>, sprint_results: Vec<RaceResult>) -> Race {
    Race {
        race_name: "Chinese Grand Prix".to_owned(),
        date: NaiveDate::from_ymd_opt(2025, 3, 23).unwrap(),
        circuit: Circuit {
            circuit_name: "Shanghai International Circuit".to_owned(),
            location: Location { locality: "Shanghai".to_owned(), country: "China".to_owned() },
        },
        qualifying: Some(Session { date: NaiveDate::from_ymd_opt(2025, 3, 22).unwrap() }),
        sprint_qualifying: Some(Session { date: NaiveDate::from_ymd_opt(2025, 3, 21).unwrap() }),
        results,
        sprint_results,
    }
}

fn names(entries: &[RaceResult]) -> Vec<String> {
    entries.iter().map(|e| e.driver.family_name.clone()).collect()
}

#[test]
fn the_withdrawn_of_the_season() {
    assert_eq!(gone(), ["Doohan"]);
}

#[test]
fn head_of_a_table() {
    assert_eq!(HEADER, "Driver     \tPosition\tScore\tP10");
    assert_eq!(RULE, "-------------------------------------------");
    assert_eq!(RULE.len(), 43);
}

#[test]
fn position_text_shows_rank_or_code() {
    assert_eq!(position_text(&entry("10", "Norris", "McLaren", false)), "10");
    assert_eq!(position_text(&entry("+7", "Norris", "McLaren", false)), "7");
    assert_eq!(position_text(&entry("R", "Norris", "McLaren", false)), "\tR(R)");
    assert_eq!(position_text(&RaceResult::retired("Doohan")), "\tR()");
    let mut e = entry("18", "Stroll", "Aston Martin", false);
    e.position_text = "D".to_owned();
    assert_eq!(position_text(&e), "\t18(D)");
}

#[test]
fn result_line_lays_out_the_columns() {
    assert_eq!(
        result_line(&entry("10", "Hamilton", "Ferrari", false)),
        "Hamilton    \t10      \t6\t50"
    );
    assert_eq!(
        result_line(&entry("1", "H\u{fc}lkenberg", "Sauber", true)),
        "Hulkenberg  \t1       \t36\t5"
    );
    assert_eq!(
        result_line(&entry("R", "Bortoleto", "Sauber", false)),
        "Bortoleto   \t\tR(R)   \t0\t0"
    );
    assert_eq!(result_line(&RaceResult::retired("Doohan")), "Doohan      \t\tR()    \t0\t0");
    assert_eq!(
        result_line(&entry("12", "Fittipaldi-Smith", "Williams", false)),
        "Fittipaldi-Smith\t12      \t24\t40"
    );
}

#[test]
fn check_constructors_wants_every_constructor_known() {
    assert!(check_constructors(&Vec::new()));
    assert!(check_constructors(&vec![
        entry("1", "Norris", "McLaren", false),
        RaceResult::retired("Doohan"),
    ]));
    assert!(!check_constructors(&vec![
        entry("1", "Norris", "McLaren", false),
        entry("2", "Senna", "Lotus", false),
    ]));
}

#[test]
fn render_results_gives_head_and_lines() {
    let list = vec![entry("2", "Norris", "McLaren", false), entry("1", "Piastri", "McLaren", false)];
    assert_eq!(
        render_results(&list).unwrap(),
        [
            "Driver     \tPosition\tScore\tP10",
            "-------------------------------------------",
            "Norris      \t2       \t14\t10",
            "Piastri     \t1       \t15\t5",
        ]
    );
    assert_eq!(render_results(&Vec::new()).unwrap(), [HEADER, RULE]);
}

#[test]
fn render_results_refuses_unknown_constructors() {
    let list = vec![entry("1", "Piastri", "McLaren", false), entry("2", "Norris", "Lotus", false)];
    assert_eq!(render_results(&list).err(), Some(ReportError::UnknownConstructor));
}

#[test]
fn new_resolves_the_race() {
    let race = weekend(
        vec![
            entry("1", "Verstappen", "Red Bull", false),
            entry("2", "Norris", "McLaren", false),
            entry("R", "Colapinto", "Alpine F1 Team", false),
        ],
        Vec::new(),
    );
    let resolved = RaceResults::new(&race).unwrap();
    let got = resolved.race();
    assert_eq!(got.race_name, "Chinese Grand Prix");
    assert_eq!(got.date, race.date);
    assert_eq!(got.circuit.location.country, "China");
    assert_eq!(names(&got.results), ["Norris", "Verstappen", "Doohan", "Colapinto"]);
    assert_eq!(got.results[2].position, "R");
    assert_eq!(got.results[2].constructor.name, "Retired");
    // no sprint was held, so none is made up
    assert_eq!(got.sprint_results.len(), 0);
    // the weekend that was handed in is as it was
    assert_eq!(names(&race.results), ["Verstappen", "Norris", "Colapinto"]);
}

#[test]
fn new_resolves_the_sprint_where_one_was_held() {
    let race = weekend(
        vec![entry("1", "Piastri", "McLaren", false)],
        vec![entry("1", "Hamilton", "Ferrari", true), entry("2", "Piastri", "McLaren", true)],
    );
    let resolved = RaceResults::new(&race).unwrap();
    assert_eq!(names(&resolved.race().results), ["Piastri", "Doohan"]);
    assert_eq!(names(&resolved.race().sprint_results), ["Piastri", "Hamilton", "Doohan"]);
    assert!(resolved.race().sprint_results[0].sprint);
    assert!(!resolved.race().sprint_results[2].sprint);
}

#[test]
fn new_twice_is_new_once() {
    let race = weekend(
        vec![entry("1", "Sainz", "Williams", false), entry("2", "Albon", "Williams", false)],
        vec![entry("1", "Ocon", "Haas F1 Team", true)],
    );
    let once = RaceResults::new(&race).unwrap();
    let twice = RaceResults::new(once.race()).unwrap();
    assert_eq!(format!("{:?}", twice.race()), format!("{:?}", once.race()));
}

#[test]
fn new_refuses_unknown_drivers() {
    let race = weekend(vec![entry("1", "Senna", "McLaren", false)], Vec::new());
    assert_eq!(RaceResults::new(&race).err(), Some(ReportError::UnknownCompetitor));
    let sprint = weekend(
        vec![entry("1", "Norris", "McLaren", false)],
        vec![entry("1", "Prost", "McLaren", true)],
    );
    assert_eq!(RaceResults::new(&sprint).err(), Some(ReportError::UnknownCompetitor));
}

#[test]
fn report_of_a_race() {
    let race = weekend(
        vec![
            entry("10", "Hamilton", "Ferrari", false),
            entry("1", "Norris", "McLaren", false),
            entry("R", "Hadjar", "RB F1 Team", false),
        ],
        Vec::new(),
    );
    assert_eq!(
        report(&race).unwrap(),
        [
            "Race Results",
            "Driver     \tPosition\tScore\tP10",
            "-------------------------------------------",
            "Norris      \t1       \t15\t5",
            "Hamilton    \t10      \t6\t50",
            "Doohan      \t\tR()    \t0\t0",
            "Hadjar      \t\tR(R)   \t0\t0",
        ]
    );
}

#[test]
fn report_of_a_sprint_weekend() {
    let race = weekend(
        vec![entry("1", "Piastri", "McLaren", false)],
        vec![entry("10", "Norris", "McLaren", true), entry("8", "Antonelli", "Mercedes", true)],
    );
    let lines = RaceResults::new(&race).unwrap().render().unwrap();
    assert_eq!(
        lines,
        [
            "Sprint Results",
            "Driver     \tPosition\tScore\tP10",
            "-------------------------------------------",
            "Norris      \t10      \t3\t30",
            "Antonelli   \t8       \t10\t40",
            "Doohan      \t\tR()    \t0\t0",
            "",
            "Race Results",
            "Driver     \tPosition\tScore\tP10",
            "-------------------------------------------",
            "Piastri     \t1       \t15\t5",
            "Doohan      \t\tR()    \t0\t0",
        ]
    );
    assert_eq!(report(&race).unwrap(), lines);
}

#[test]
fn withdrawn_driver_appears_at_their_ordinal() {
    let race = weekend(
        vec![
            entry("1", "Colapinto", "Alpine F1 Team", false),
            entry("2", "Gasly", "Alpine F1 Team", false),
            entry("3", "Hadjar", "RB F1 Team", false),
            entry("4", "Piastri", "McLaren", false),
        ],
        Vec::new(),
    );
    let lines = report(&race).unwrap();
    let drivers: Vec<&str> = lines[3..].iter().map(|l| l[..12].trim_end()).collect();
    assert_eq!(drivers, ["Piastri", "Gasly", "Doohan", "Hadjar", "Colapinto"]);
    assert_eq!(lines[5], "Doohan      \t\tR()    \t0\t0");
}

#[test]
fn report_is_all_or_nothing() {
    let unknown_team = weekend(
        vec![entry("1", "Piastri", "McLaren", false), entry("2", "Norris", "Lotus", false)],
        Vec::new(),
    );
    assert_eq!(report(&unknown_team).err(), Some(ReportError::UnknownConstructor));
    let resolved = RaceResults::new(&unknown_team).unwrap();
    assert_eq!(resolved.render().err(), Some(ReportError::UnknownConstructor));

    let unknown_team_in_sprint = weekend(
        vec![entry("1", "Piastri", "McLaren", false)],
        vec![entry("1", "Norris", "Lotus", true)],
    );
    assert_eq!(report(&unknown_team_in_sprint).err(), Some(ReportError::UnknownConstructor));

    let unknown_driver = weekend(vec![entry("1", "Senna", "Lotus", false)], Vec::new());
    assert_eq!(report(&unknown_driver).err(), Some(ReportError::UnknownCompetitor));
}

#[test]
fn format_line_pads_name_and_position() {
    assert_eq!(format_line("Norris", "1", 15, 5), "Norris      \t1       \t15\t5");
    assert_eq!(format_line("", "", 0, 0), "            \t        \t0\t0");
    assert_eq!(
        format_line("Hulkenberg-Smith", "\t18(D)", 4294967295, 50),
        "Hulkenberg-Smith\t\t18(D)  \t4294967295\t50"
    );
    assert_eq!(
        format_line("Twelve chars", "Eight ch", 1, 2),
        format!("{:12}\t{:8}\t{}\t{}", "Twelve chars", "Eight ch", 1, 2)
    );
    assert_eq!(
        format_line("Sainz", "7", 27, 35),
        format!("{:12}\t{:8}\t{}\t{}", "Sainz", "7", 27, 35)
    );
}
