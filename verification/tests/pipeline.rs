use goose_etl::load::load;
use goose_etl::load::load_records;
use goose_etl::load::make_reader;
use goose_etl::record::Record;
use goose_etl::store::Store;
use goose_etl::EtlError;

const HEADER: &str = "name,year,team,league,goose_eggs,broken_eggs,mehs,league_average_gpct,ppf,replacement_gpct,gwar,key_retro";

fn sample_csv() -> String {
    format!("{}\nA,2020,T1,AL,1,2,3,0.1,1.0,0.2,0.5,k1\nB,2021,T2,NL,4,5,6,0.3,1.1,0.4,0.6,k2\n", HEADER)
}

fn plain_record(name: &str, year: i32, key: &str) -> Record {
    Record {
        name: name.to_string(),
        year,
        team: "DKU".to_string(),
        league: "AL".to_string(),
        goose_eggs: 0,
        broken_eggs: 0,
        mehs: 0,
        league_average_gpct: "0".to_string(),
        ppf: "0".to_string(),
        replacement_gpct: "0".to_string(),
        gwar: "0".to_string(),
        key_retro: key.to_string(),
    }
}

#[test]
fn test_load_row_count() {
    let mut store = Store::open_bulk(":memory:").expect("open failed");
    let data = sample_csv();
    let mut rdr = make_reader(data.as_bytes());
    let n = load(&mut store, &mut rdr).expect("load failed");
    assert_eq!(n, 2);
    assert_eq!(store.count_rows().expect("count failed"), 2);
}

#[test]
fn test_load_idempotent() {
    let mut store = Store::open_bulk(":memory:").expect("open failed");
    let data = sample_csv();
    let mut rdr = make_reader(data.as_bytes());
    load(&mut store, &mut rdr).expect("first load failed");
    let once = store.count_rows().expect("count failed");
    let mut rdr2 = make_reader(data.as_bytes());
    load(&mut store, &mut rdr2).expect("second load failed");
    let twice = store.count_rows().expect("count failed");
    assert_eq!(once, twice);
    assert_eq!(twice, 2);
}

#[test]
fn test_load_records_partial_batch() {
    // Three rows with a batch threshold of two: the last batch is partial.
    let mut store = Store::open_bulk(":memory:").expect("open failed");
    let rows: Vec<Vec<String>> = vec![
        vec!["A".to_string(), "2020".to_string()],
        vec!["B".to_string(), "2021".to_string()],
        vec!["C".to_string(), "2022".to_string()],
    ];
    let n = load_records(&mut store, &rows, 2).expect("load failed");
    assert_eq!(n, 3);
    assert_eq!(store.count_rows().expect("count failed"), 3);
    // A batch size larger than the dataset gives the same count.
    let n2 = load_records(&mut store, &rows, 1000).expect("load failed");
    assert_eq!(n2, 3);
    assert_eq!(store.count_rows().expect("count failed"), 3);
}

#[test]
fn test_failed_load_rolls_back() {
    let mut store = Store::open_bulk(":memory:").expect("open failed");
    let data = sample_csv();
    let mut rdr = make_reader(data.as_bytes());
    load(&mut store, &mut rdr).expect("load failed");
    assert_eq!(store.count_rows().expect("count failed"), 2);

    // A stream whose framing breaks mid-way: the row parser fails on the
    // invalid UTF-8 and the whole load must leave the table as it was.
    let mut bad: Vec<u8> = Vec::new();
    bad.extend_from_slice(HEADER.as_bytes());
    bad.extend_from_slice(b"\nC,2022,T3,AL,7,8,9,0.7,1.2,0.8,0.9,k3\n");
    bad.extend_from_slice(&[0xff, 0xfe, b',', b'x', b'\n']);
    let mut rdr_bad = make_reader(&bad[..]);
    let res = load(&mut store, &mut rdr_bad);
    assert!(res.is_err());
    assert!(matches!(res, Err(EtlError::Parse(_))));
    assert_eq!(store.count_rows().expect("count failed"), 2);
}

#[test]
fn test_crud_create_then_read() {
    let mut store = Store::open_bulk(":memory:").expect("open failed");
    let data = sample_csv();
    let mut rdr = make_reader(data.as_bytes());
    load(&mut store, &mut rdr).expect("load failed");

    store.crud_create(&plain_record("Jennifer Li", 2024, "jennifer101")).expect("create failed");
    assert_eq!(store.count_rows().expect("count failed"), 3);

    let rows = store.crud_read().expect("read failed");
    assert_eq!(rows.len(), 3);
    let hit = rows.iter().find(|r| r.name == "Jennifer Li").expect("created row not read back");
    assert_eq!(hit.year, 2024);
    assert_eq!(hit.team, "DKU");
    assert_eq!(hit.league, "AL");
}

#[test]
fn test_crud_read_caps_at_ten() {
    let mut store = Store::open_bulk(":memory:").expect("open failed");
    let rows: Vec<Vec<String>> = (0..12)
        .map(|i| vec![format!("P{}", i), "2020".to_string()])
        .collect();
    load_records(&mut store, &rows, 1000).expect("load failed");
    let out = store.db_query().expect("query failed");
    assert_eq!(out.len(), 10);
}

#[test]
fn test_crud_update_changes_only_year() {
    let mut store = Store::open_bulk(":memory:").expect("open failed");
    let data = sample_csv();
    let mut rdr = make_reader(data.as_bytes());
    load(&mut store, &mut rdr).expect("load failed");
    store.crud_create(&plain_record("Jennifer Li", 2024, "jennifer101")).expect("create failed");

    let changed = store.crud_update("jennifer101", 2030).expect("update failed");
    assert_eq!(changed, 1);
    let none = store.crud_update("missing-key", 1900).expect("update failed");
    assert_eq!(none, 0);

    let rows = store.crud_read().expect("read failed");
    let hit = rows.iter().find(|r| r.name == "Jennifer Li").expect("row vanished");
    assert_eq!(hit.year, 2030);
    assert_eq!(hit.team, "DKU");
    let untouched = rows.iter().find(|r| r.name == "A").expect("row vanished");
    assert_eq!(untouched.year, 2020);
    assert_eq!(store.count_rows().expect("count failed"), 3);
}

#[test]
fn test_crud_delete_removes_only_matches() {
    let mut store = Store::open_bulk(":memory:").expect("open failed");
    let data = sample_csv();
    let mut rdr = make_reader(data.as_bytes());
    load(&mut store, &mut rdr).expect("load failed");
    store.crud_create(&plain_record("Marvin", 2019, "kircm101")).expect("create failed");
    store.crud_create(&plain_record("Marvin II", 2020, "kircm101")).expect("create failed");
    assert_eq!(store.count_rows().expect("count failed"), 4);

    let gone = store.crud_delete("kircm101").expect("delete failed");
    assert_eq!(gone, 2);
    assert_eq!(store.count_rows().expect("count failed"), 2);
    let none = store.crud_delete("kircm101").expect("delete failed");
    assert_eq!(none, 0);
    let rows = store.crud_read().expect("read failed");
    assert!(rows.iter().all(|r| r.name != "Marvin" && r.name != "Marvin II"));
}

#[test]
fn test_end_to_end_scenario() {
    let path = "/tmp/goose_etl_scenario.db";
    let mut store = Store::open_bulk(path).expect("open failed");
    let data = format!(
        "{}\nA,2020,T1,AL,1,2,3,0.1,1.0,0.2,0.5,k1\n,notanumber,T2,NL,,,,,,,,\n",
        HEADER
    );
    let mut rdr = make_reader(data.as_bytes());
    let n = load(&mut store, &mut rdr).expect("load failed");
    assert_eq!(n, 2);
    assert_eq!(store.count_rows().expect("count failed"), 2);

    // Inspect the stored row directly through a second connection.
    let conn = rusqlite::Connection::open(path).expect("raw open failed");
    let (name, year, goose_eggs, lag): (String, i32, i32, f64) = conn
        .query_row(
            "SELECT name, year, goose_eggs, league_average_gpct FROM GooseDB WHERE team = 'T2'",
            (),
            |row| Ok((row.get(0)?, row.get(1)?, row.get(2)?, row.get(3)?)),
        )
        .expect("row query failed");
    assert_eq!(name, "");
    assert_eq!(year, 0);
    assert_eq!(goose_eggs, 0);
    assert_eq!(lag, 0.0);

    let (first_name, first_lag): (String, f64) = conn
        .query_row(
            "SELECT name, league_average_gpct FROM GooseDB WHERE team = 'T1'",
            (),
            |row| Ok((row.get(0)?, row.get(1)?)),
        )
        .expect("row query failed");
    assert_eq!(first_name, "A");
    assert_eq!(first_lag, 0.1);
}

#[test]
fn test_whitespace_trimmed() {
    let mut store = Store::open_bulk(":memory:").expect("open failed");
    let data = format!("{}\n  A  , 2020 ,T1,AL, 1 ,2,3,0.1,1.0,0.2,0.5, k1 \n", HEADER);
    let mut rdr = make_reader(data.as_bytes());
    load(&mut store, &mut rdr).expect("load failed");
    let rows = store.crud_read().expect("read failed");
    assert_eq!(rows.len(), 1);
    assert_eq!(rows[0].name, "A");
    assert_eq!(rows[0].year, 2020);
}

#[test]
fn test_store_error_without_table() {
    // A fresh database has no table yet: the single-row operations report
    // a store failure rather than touching anything.
    let mut store = Store::open_interactive(":memory:").expect("open failed");
    let res = store.crud_create(&plain_record("X", 2000, "x1"));
    assert!(matches!(res, Err(EtlError::Store(_))));
    let res2 = store.crud_read();
    assert!(matches!(res2, Err(EtlError::Store(_))));
}
