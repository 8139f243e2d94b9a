use dipr::{station_statuses, statuses_from_matches};

#[test]
fn reads_station_statuses_from_page() {
    let page = "<tr><td bgcolor=\"#33FF33\">x</td><td>KGYX</td></tr>\n\
                <tr><td bgcolor=\"#FF0000\">x</td><td>KLWX</td></tr>\n\
                <tr><td>no status here</td></tr>\n\
                <tr><td bgcolor=\"#FFFF00\">x</td><td>PGUA</td></tr>";
    let statuses = station_statuses(page);
    assert_eq!(
        statuses,
        vec![
            ("KGYX".to_string(), true),
            ("KLWX".to_string(), false),
            ("PGUA".to_string(), false),
        ]
    );
}

#[test]
fn empty_page_has_no_statuses() {
    assert!(station_statuses("").is_empty());
}

#[test]
fn statuses_from_colour_codes() {
    let found = vec![
        ("33FF33".to_string(), "KGYX".to_string()),
        ("0000FF".to_string(), "KBOX".to_string()),
    ];
    assert_eq!(
        statuses_from_matches(&found),
        vec![("KGYX".to_string(), true), ("KBOX".to_string(), false)]
    );
}
