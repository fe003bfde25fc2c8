use fantasyf1::error::ReportError;
use fantasyf1::puller::{Constructor, Driver, RaceResult};
use fantasyf1::roster::{
    arrange, backfill, display_names, has_driver, holds_name, ordinals, ordinals_of, resolve,
    sort_results, DriverId, ParseDriverIdError, LAST_ORDINAL,
};

const ORDER: [&str; 21] = [
    "Piastri",
    "Norris",
    "Leclerc",
    "Hamilton",
    "Verstappen",
    "Lawson",
    "Russell",
    "Antonelli",
    "Stroll",
    "Alonso",
    "Gasly",
    "Doohan",
    "Hadjar",
    "Tsunoda",
    "Ocon",
    "Bearman",
    "Albon",
    "Sainz",
    "Hulkenberg",
    "Bortoleto",
    "Colapinto",
];

fn entry(position: &str, family_name: &str, constructor: &str) -> RaceResult {
    RaceResult {
        position: position.to_owned(),
        position_text: position.to_owned(),
        driver: Driver { given_name: String::new(), family_name: family_name.to_owned() },
        constructor: Constructor { name: constructor.to_owned() },
        time: None,
        sprint: false,
    }
}

fn names(entries: &[RaceResult]) -> Vec<String> {
    entries.iter().map(|e| e.driver.family_name.clone()).collect()
}

fn doohan() -> Vec<String> {
    vec!["Doohan".to_owned()]
}

#[test]
fn driver_ids_follow_the_display_order() {
    assert_eq!(LAST_ORDINAL, 21);
    for (i, name) in ORDER.iter().enumerate() {
        let id = DriverId::from_str(name).unwrap();
        assert_eq!(id.place() as usize, i + 1);
    }
    assert_eq!(DriverId::from_str("Piastri"), Ok(DriverId::Piastri));
    assert_eq!(DriverId::from_str("Colapinto"), Ok(DriverId::Colapinto));
    assert_eq!(DriverId::Doohan.place(), 12);
}

#[test]
fn unknown_names_have_no_driver_id() {
    assert_eq!(DriverId::from_str("Schumacher"), Err(ParseDriverIdError));
    assert_eq!(DriverId::from_str("Piastri "), Err(ParseDriverIdError));
    assert_eq!(DriverId::from_str("Piastr"), Err(ParseDriverIdError));
    assert_eq!(DriverId::from_str(""), Err(ParseDriverIdError));
    assert_eq!(DriverId::from_str("H\u{fc}lkenberg"), Err(ParseDriverIdError));
}

#[test]
fn driver_ids_do_not_mind_the_case() {
    assert_eq!(DriverId::from_str("piastri"), Ok(DriverId::Piastri));
    assert_eq!(DriverId::from_str("NORRIS"), Ok(DriverId::Norris));
    assert_eq!(DriverId::from_str("hULKENBERG"), Ok(DriverId::Hulkenberg));
    for (i, name) in ORDER.iter().enumerate() {
        let small = DriverId::from_str(&name.to_lowercase()).unwrap();
        let large = DriverId::from_str(&name.to_uppercase()).unwrap();
        assert_eq!(small.place() as usize, i + 1);
        assert_eq!(large.place() as usize, i + 1);
    }
    let d = Driver { given_name: "Lando".to_owned(), family_name: "norris".to_owned() };
    assert_eq!(DriverId::try_from(&d).unwrap().place(), 2);
    let h = Driver { given_name: "Nico".to_owned(), family_name: "H\u{dc}LKENBERG".to_owned() };
    assert_eq!(DriverId::try_from(&h), Ok(DriverId::Hulkenberg));
}

#[test]
fn driver_id_of_a_driver_goes_by_display_name() {
    let d = Driver { given_name: "Nico".to_owned(), family_name: "H\u{fc}lkenberg".to_owned() };
    assert_eq!(DriverId::try_from(&d), Ok(DriverId::Hulkenberg));
    let given = Driver { given_name: "Norris".to_owned(), family_name: "Lando".to_owned() };
    assert_eq!(DriverId::try_from(&given), Err(ParseDriverIdError));
}

#[test]
fn has_driver_compares_display_names() {
    let list = vec![entry("1", "Norris", "McLaren"), entry("2", "H\u{fc}lkenberg", "Sauber")];
    assert!(has_driver(&list, "Norris"));
    assert!(has_driver(&list, "Hulkenberg"));
    assert!(has_driver(&list, "H\u{fc}lkenberg"));
    assert!(has_driver(&list, "norris"));
    assert!(has_driver(&list, "HULKENBERG"));
    assert!(!has_driver(&list, "Norri"));
    assert!(!has_driver(&list, "Doohan"));
    assert!(!has_driver(&Vec::new(), "Norris"));
}

#[test]
fn backfill_adds_missing_withdrawn_drivers_once() {
    let list = vec![entry("1", "Norris", "McLaren")];
    let out = backfill(&list, &vec!["Doohan".to_owned(), "Norris".to_owned(), "Doohan".to_owned()]);
    assert_eq!(names(&out), ["Norris", "Doohan"]);
    assert_eq!(out[1].position, "R");
    assert_eq!(out[1].position_text, "");
    assert_eq!(out[1].constructor.name, "Retired");
    assert_eq!(out[1].driver.given_name, "Doohan");
    assert_eq!(out[1].get_position(), None);
    let none = backfill(&list, &Vec::new());
    assert_eq!(names(&none), ["Norris"]);
}

#[test]
fn ordinals_lists_display_ordinals() {
    let list = vec![
        entry("1", "Colapinto", "Alpine F1 Team"),
        entry("2", "Piastri", "McLaren"),
        entry("3", "Doohan", "Alpine F1 Team"),
    ];
    assert_eq!(ordinals(&list), Some(vec![21, 1, 12]));
    assert_eq!(ordinals(&Vec::new()), Some(Vec::new()));
    let strange = vec![entry("1", "Piastri", "McLaren"), entry("2", "Senna", "McLaren")];
    assert_eq!(ordinals(&strange), None);
}

#[test]
fn sort_results_puts_entries_in_display_order() {
    let list = vec![
        entry("1", "Verstappen", "Red Bull"),
        entry("2", "Colapinto", "Alpine F1 Team"),
        entry("3", "Piastri", "McLaren"),
        entry("4", "Albon", "Williams"),
        entry("5", "Norris", "McLaren"),
    ];
    let out = sort_results(&list).unwrap();
    assert_eq!(names(&out), ["Piastri", "Norris", "Verstappen", "Albon", "Colapinto"]);
    assert_eq!(out[0].position, "3");
    assert_eq!(out[4].position, "2");
    assert_eq!(out[4].constructor.name, "Alpine F1 Team");
}

#[test]
fn sort_results_keeps_the_order_of_one_drivers_entries() {
    let list = vec![
        entry("9", "Norris", "McLaren"),
        entry("1", "Piastri", "McLaren"),
        entry("4", "Norris", "Ferrari"),
        entry("7", "Norris", "Sauber"),
    ];
    let out = sort_results(&list).unwrap();
    assert_eq!(names(&out), ["Piastri", "Norris", "Norris", "Norris"]);
    assert_eq!(out[1].position, "9");
    assert_eq!(out[2].position, "4");
    assert_eq!(out[3].position, "7");
}

#[test]
fn sort_results_refuses_unknown_drivers() {
    let list = vec![entry("1", "Piastri", "McLaren"), entry("2", "Senna", "McLaren")];
    assert_eq!(sort_results(&list).err(), Some(ReportError::UnknownCompetitor));
    assert_eq!(sort_results(&Vec::new()).unwrap().len(), 0);
}

#[test]
fn resolve_fills_in_and_orders() {
    let list = vec![
        entry("1", "Hadjar", "RB F1 Team"),
        entry("2", "Gasly", "Alpine F1 Team"),
        entry("R", "Piastri", "McLaren"),
    ];
    let out = resolve(&list, &doohan()).unwrap();
    assert!(out.len() >= list.len());
    assert_eq!(names(&out), ["Piastri", "Gasly", "Doohan", "Hadjar"]);
    assert_eq!(out[2].position, "R");
    assert_eq!(out[2].constructor.name, "Retired");
    assert_eq!(out[2].get_position(), None);
    assert_eq!(out[0].position, "R");
    assert_eq!(out[3].position, "1");
}

#[test]
fn resolve_keeps_a_withdrawn_driver_who_raced() {
    let list = vec![entry("13", "Doohan", "Alpine F1 Team"), entry("1", "Norris", "McLaren")];
    let out = resolve(&list, &doohan()).unwrap();
    assert_eq!(names(&out), ["Norris", "Doohan"]);
    assert_eq!(out[1].position, "13");
    assert_eq!(out[1].constructor.name, "Alpine F1 Team");
}

#[test]
fn resolve_of_the_whole_grid_is_strictly_ordered() {
    let mut list = Vec::new();
    for (i, name) in ORDER.iter().rev().enumerate() {
        if *name != "Doohan" {
            list.push(entry(&(i + 1).to_string(), name, "Ferrari"));
        }
    }
    let out = resolve(&list, &doohan()).unwrap();
    assert_eq!(out.len(), 21);
    assert_eq!(names(&out), ORDER);
    let ords = ordinals(&out).unwrap();
    for i in 1..ords.len() {
        assert!(ords[i - 1] < ords[i]);
    }
}

#[test]
fn resolve_twice_is_resolve_once() {
    let list = vec![
        entry("3", "Sainz", "Williams"),
        entry("1", "Leclerc", "Ferrari"),
        entry("R", "H\u{fc}lkenberg", "Sauber"),
        entry("2", "Leclerc", "Ferrari"),
    ];
    let once = resolve(&list, &doohan()).unwrap();
    let twice = resolve(&once, &doohan()).unwrap();
    assert_eq!(names(&once), ["Leclerc", "Leclerc", "Doohan", "Sainz", "H\u{fc}lkenberg"]);
    assert_eq!(format!("{:?}", twice), format!("{:?}", once));
}

#[test]
fn resolve_with_an_accented_withdrawn_name() {
    let list = vec![entry("1", "Norris", "McLaren")];
    let withdrawn = vec!["H\u{fc}lkenberg".to_owned()];
    let once = resolve(&list, &withdrawn).unwrap();
    assert_eq!(names(&once), ["Norris", "H\u{fc}lkenberg"]);
    let twice = resolve(&once, &withdrawn).unwrap();
    assert_eq!(format!("{:?}", twice), format!("{:?}", once));
}

#[test]
fn resolve_refuses_unknown_drivers() {
    let list = vec![entry("1", "Piastri", "McLaren"), entry("2", "Senna", "McLaren")];
    assert_eq!(resolve(&list, &doohan()).err(), Some(ReportError::UnknownCompetitor));
    let fine = vec![entry("1", "Piastri", "McLaren")];
    assert_eq!(
        resolve(&fine, &vec!["Senna".to_owned()]).err(),
        Some(ReportError::UnknownCompetitor)
    );
    assert_eq!(resolve(&fine, &Vec::new()).unwrap().len(), 1);
}

#[test]
fn resolve_of_nothing_is_the_withdrawn() {
    let out = resolve(&Vec::new(), &doohan()).unwrap();
    assert_eq!(names(&out), ["Doohan"]);
    assert_eq!(resolve(&Vec::new(), &Vec::new()).unwrap().len(), 0);
}

#[test]
fn display_names_strip_accents() {
    let list = vec![
        entry("1", "P\u{e9}rez", "Red Bull"),
        entry("2", "Norris", "McLaren"),
        entry("3", "", "McLaren"),
    ];
    assert_eq!(display_names(&list), ["Perez", "Norris", ""]);
    assert_eq!(display_names(&Vec::new()).len(), 0);
}

#[test]
fn holds_name_looks_for_the_key_of_the_name() {
    let names = vec!["Norris".to_owned(), "Perez".to_owned()];
    assert!(holds_name(&names, "Norris"));
    assert!(holds_name(&names, "Perez"));
    assert!(holds_name(&names, "norris"));
    assert!(holds_name(&names, "PEREZ"));
    assert!(!holds_name(&names, "P\u{e9}rez"));
    assert!(!holds_name(&names, "Norris "));
    assert!(!holds_name(&names, ""));
    assert!(!holds_name(&Vec::new(), "Norris"));
}

#[test]
fn ordinals_of_names() {
    let names = vec!["Colapinto".to_owned(), "Piastri".to_owned(), "Doohan".to_owned()];
    assert_eq!(ordinals_of(&names), Some(vec![21, 1, 12]));
    assert_eq!(ordinals_of(&vec!["doohan".to_owned(), "ALBON".to_owned()]), Some(vec![12, 17]));
    assert_eq!(ordinals_of(&vec!["Piastri".to_owned(), "Senna".to_owned()]), None);
    assert_eq!(ordinals_of(&vec!["H\u{fc}lkenberg".to_owned()]), None);
    assert_eq!(ordinals_of(&Vec::new()), Some(Vec::new()));
}

#[test]
fn arrange_goes_by_the_keys() {
    let list = vec![
        entry("1", "a", "x"),
        entry("2", "b", "x"),
        entry("3", "c", "x"),
        entry("4", "d", "x"),
        entry("5", "e", "x"),
    ];
    let out = arrange(&list, &vec![21, 3, 1, 3, 2]).unwrap();
    assert_eq!(names(&out), ["c", "e", "b", "d", "a"]);
    assert_eq!(out[2].position, "2");
    assert_eq!(out[3].position, "4");
}

#[test]
fn arrange_leaves_out_keys_beyond_the_order() {
    let list = vec![entry("1", "a", "x"), entry("2", "b", "x"), entry("3", "c", "x")];
    let out = arrange(&list, &vec![0, 22, 21]).unwrap();
    assert_eq!(names(&out), ["c"]);
    assert_eq!(arrange(&Vec::new(), &Vec::new()).unwrap().len(), 0);
}

#[test]
fn arrange_wants_a_key_for_each_entry() {
    let list = vec![entry("1", "a", "x"), entry("2", "b", "x")];
    assert!(arrange(&list, &vec![1]).is_none());
    assert!(arrange(&list, &vec![1, 2, 3]).is_none());
    assert!(arrange(&list, &Vec::new()).is_none());
}

#[test]
fn a_withdrawn_driver_in_small_letters_is_not_filled_in_again() {
    let list = vec![entry("13", "doohan", "Alpine F1 Team"), entry("1", "Norris", "McLaren")];
    let filled = backfill(&list, &doohan());
    assert_eq!(names(&filled), ["doohan", "Norris"]);
    let out = resolve(&list, &doohan()).unwrap();
    assert_eq!(names(&out), ["Norris", "doohan"]);
    assert_eq!(out[1].position, "13");
    let upper = resolve(&list, &vec!["DOOHAN".to_owned()]).unwrap();
    assert_eq!(names(&upper), ["Norris", "doohan"]);
}

#[test]
fn resolve_orders_whatever_the_case() {
    let list = vec![
        entry("1", "colapinto", "Alpine F1 Team"),
        entry("2", "NORRIS", "McLaren"),
        entry("3", "Piastri", "McLaren"),
    ];
    let out = resolve(&list, &doohan()).unwrap();
    assert_eq!(names(&out), ["Piastri", "NORRIS", "Doohan", "colapinto"]);
    assert_eq!(ordinals(&out), Some(vec![1, 2, 12, 21]));
    let twice = resolve(&out, &doohan()).unwrap();
    assert_eq!(format!("{:?}", twice), format!("{:?}", out));
}
