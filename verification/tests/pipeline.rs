use smm_zerop::csv_feed::read_levels_csv;
use smm_zerop::dates::{Date, DateTime};
use smm_zerop::normalize::{
    normalize_smm1_row, normalize_smm2_row, normalize_tag_name, normalized_id, normalized_tags,
    CsvRow, Smm2RawRow,
};
use smm_zerop::smm2_level::Smm2Level;
use smm_zerop::store::{run_smm1_import, run_smm2_import, ImportOutcome, Smm1Catalog, Smm2Catalog};

fn raw_row(id: &str, likes: &str) -> Smm2RawRow {
    Smm2RawRow {
        id: Some(id.to_owned()),
        uploaded_at: Some(DateTime {
            date: Date { year: 2023, month: 5, day: 17 },
            hour: 12,
            minute: 0,
            second: 0,
        }),
        title: Some("A Level".to_owned()),
        description: None,
        clearcheck_ms: Some(90500),
        attempts: Some(120),
        footprints: Some(45),
        likes: Some(likes.to_owned()),
        boos: Some("0".to_owned()),
        comments: Some("3".to_owned()),
        clear_condition: Some(0),
        clear_condition_magnitude: Some(0),
        style: Some("SMB1".to_owned()),
        theme: Some("Ghost House".to_owned()),
        tag1: Some("Short and Sweet".to_owned()),
        tag2: Some("None".to_owned()),
    }
}

#[test]
fn optional_text_fields_normalize_placeholders_away() {
    let mut raw = raw_row("abc123def", "1");
    raw.description = Some("  None ".to_owned());
    assert_eq!(normalize_smm2_row(raw).unwrap().description, None);

    let mut raw = raw_row("abc123def", "1");
    raw.description = Some("   ".to_owned());
    assert_eq!(normalize_smm2_row(raw).unwrap().description, None);

    let mut raw = raw_row("abc123def", "1");
    raw.description = Some(" a fine level ".to_owned());
    assert_eq!(
        normalize_smm2_row(raw).unwrap().description,
        Some("a fine level".to_owned())
    );
}

#[test]
fn tag_names_normalize_to_lowercase_underscores() {
    assert_eq!(normalize_tag_name(" Auto Mario "), "auto_mario");
    assert_eq!(normalize_tag_name("Music"), "music");
}

#[test]
fn tag_slots_sort_dedup_and_drop_placeholders() {
    assert_eq!(normalized_tags(None, None), Vec::<String>::new());
    assert_eq!(normalized_tags(Some("Music"), None), vec!["music"]);
    assert_eq!(normalized_tags(Some("None"), Some("Music")), vec!["music"]);
    assert_eq!(normalized_tags(Some("Music"), Some("Art")), vec!["art", "music"]);
    assert_eq!(normalized_tags(Some("Music"), Some("Music")), vec!["music"]);
    assert_eq!(normalized_tags(Some("None"), Some("None")), Vec::<String>::new());
}

#[test]
fn tag_slots_dedup_and_sort_after_normalization() {
    // two raw values with one normalized name keep a single entry
    assert_eq!(normalized_tags(Some("A"), Some("a")), vec!["a"]);
    assert_eq!(normalized_tags(Some("Boss Battle"), Some("boss_battle")), vec!["boss_battle"]);
    // order follows the normalized names, not the raw ones
    assert_eq!(normalized_tags(Some("auto"), Some("Boss")), vec!["auto", "boss"]);
    // a slot that is empty once trimmed contributes nothing
    assert_eq!(normalized_tags(Some("  "), Some("Music")), vec!["music"]);
    assert_eq!(normalized_tags(Some(""), None), Vec::<String>::new());
}

#[test]
fn streamed_rows_normalize_into_canonical_levels() {
    let l = normalize_smm2_row(raw_row(" ABC-123-DEF ", "1200")).unwrap();
    assert_eq!(l.id, "abc123def");
    assert_eq!(l.year, 2023);
    assert_eq!(l.clearcheck_ms, 90500);
    assert_eq!(l.attempts, 120);
    assert_eq!(l.likes, 1200);
    assert_eq!(l.clear_condition, None);
    assert_eq!(l.clear_condition_magnitude, None);
    assert_eq!(l.style, "SMB1");
    assert_eq!(l.theme, "ghost_house");
    assert_eq!(l.tags, vec!["short_and_sweet"]);
}

#[test]
fn zero_codes_mean_no_condition_and_nonzero_pass_through() {
    let mut raw = raw_row("abc123def", "1");
    raw.clear_condition = Some(26);
    raw.clear_condition_magnitude = Some(2);
    let l = normalize_smm2_row(raw).unwrap();
    assert_eq!(l.clear_condition, Some(26));
    assert_eq!(l.clear_condition_magnitude, Some(2));
}

#[test]
fn rows_with_bad_fields_are_dropped_not_clamped() {
    // unparsable counter
    assert!(normalize_smm2_row(raw_row("abc123def", "12x")).is_err());
    // negative metric
    assert!(normalize_smm2_row(raw_row("abc123def", "-1")).is_err());
    let mut raw = raw_row("abc123def", "1");
    raw.attempts = Some(-5);
    assert!(normalize_smm2_row(raw).is_err());
    // missing required field
    let mut raw = raw_row("abc123def", "1");
    raw.title = None;
    assert!(normalize_smm2_row(raw).is_err());
    // id that does not canonicalize to nine alphanumerics
    assert!(normalize_smm2_row(raw_row("tooshort", "1")).is_err());
}

#[test]
fn batch_rows_normalize_with_thousands_and_dates() {
    let row = CsvRow {
        title: "Old Level".to_owned(),
        upload_date: "January 2, 2016".to_owned(),
        stars: "1,234".to_owned(),
        players: "56".to_owned(),
        attempts: "7,890".to_owned(),
        level_id: "ABCD-0000-1111-2222".to_owned(),
    };
    assert_eq!(row.normalized_id(), "abcd000011112222");
    let l = normalize_smm1_row(row).unwrap();
    assert_eq!(l.id, "abcd000011112222");
    assert_eq!(l.year, 2016);
    assert_eq!(l.uploaded_at, Date { year: 2016, month: 1, day: 2 });
    assert_eq!(l.likes, 1234);
    assert_eq!(l.footprints, 56);
    assert_eq!(l.attempts, 7890);

    let bad = CsvRow {
        title: "x".to_owned(),
        upload_date: "sometime".to_owned(),
        stars: "1".to_owned(),
        players: "1".to_owned(),
        attempts: "1".to_owned(),
        level_id: "ABCD-0000-1111-2222".to_owned(),
    };
    assert!(normalize_smm1_row(bad).is_err());
}

#[test]
fn import_replaces_the_partition_and_reports_the_count() {
    let mut store = Smm2Catalog::new();
    let rows = vec![raw_row("abc123de1", "1"), raw_row("abc123de2", "2")];
    let outcome = run_smm2_import(&mut store, &vec![], rows);
    assert_eq!(outcome, ImportOutcome::Imported(2));
    assert_eq!(store.rows().len(), 2);

    // the next successful run replaces the partition wholesale
    let rows = vec![raw_row("abc123de3", "3")];
    let outcome = run_smm2_import(&mut store, &vec![], rows);
    assert_eq!(outcome, ImportOutcome::Imported(1));
    assert_eq!(store.rows().len(), 1);
    assert_eq!(store.rows()[0].id, "abc123de3");
}

#[test]
fn duplicate_ids_are_inserted_once() {
    let mut store = Smm2Catalog::new();
    let rows = vec![raw_row("abc123de1", "1"), raw_row("ABC-123-DE1", "2")];
    let outcome = run_smm2_import(&mut store, &vec![], rows);
    assert_eq!(outcome, ImportOutcome::Imported(1));
    assert_eq!(store.rows()[0].likes, 1);
}

#[test]
fn blocklisted_ids_never_reach_the_store() {
    let mut store = Smm2Catalog::new();
    let blocklist = vec!["abc123de2".to_owned()];
    let rows = vec![
        raw_row("abc123de1", "1"),
        raw_row("abc123de2", "2"),
        raw_row("abc123de3", "3"),
    ];
    let outcome = run_smm2_import(&mut store, &blocklist, rows);
    assert_eq!(outcome, ImportOutcome::Imported(2));
    assert!(Smm2Level::id_exists(&store, "abc123de1"));
    assert!(!Smm2Level::id_exists(&store, "abc123de2"));
    assert!(Smm2Level::id_exists(&store, "abc123de3"));
}

#[test]
fn an_empty_run_leaves_the_prior_partition_queryable() {
    let mut store = Smm2Catalog::new();
    let outcome = run_smm2_import(&mut store, &vec![], vec![raw_row("abc123de1", "1")]);
    assert_eq!(outcome, ImportOutcome::Imported(1));

    // every row of the next run fails a field rule
    let outcome = run_smm2_import(&mut store, &vec![], vec![raw_row("bad id", "1")]);
    assert_eq!(outcome, ImportOutcome::NoData);
    assert_eq!(store.rows().len(), 1);
    assert!(Smm2Level::id_exists(&store, "abc123de1"));

    // a run over nothing at all also keeps the prior partition
    let outcome = run_smm2_import(&mut store, &vec![], vec![]);
    assert_eq!(outcome, ImportOutcome::NoData);
    assert!(Smm2Level::id_exists(&store, "abc123de1"));
}

#[test]
fn csv_exports_parse_by_header_name() {
    let data = b"Title,Upload Date,Stars,Players,Attempts,Level ID\n\
        First,\"January 2, 2016\",\"1,234\",56,789,AAAA-0000-1111-2222\n\
        Second,\"March 4, 2017\",5,6,7,BBBB-0000-1111-2222\n";
    let rows = read_levels_csv(data);
    assert_eq!(rows.len(), 2);
    assert_eq!(rows[0].title, "First");
    assert_eq!(rows[0].upload_date, "January 2, 2016");
    assert_eq!(rows[0].stars, "1,234");
    assert_eq!(rows[1].level_id, "BBBB-0000-1111-2222");
}

#[test]
fn csv_exports_with_reordered_columns_still_parse() {
    let data = b"Level ID,Attempts,Players,Stars,Upload Date,Title\n\
        AAAA-0000-1111-2222,789,56,\"1,234\",\"January 2, 2016\",First\n";
    let rows = read_levels_csv(data);
    assert_eq!(rows.len(), 1);
    assert_eq!(rows[0].title, "First");
    assert_eq!(rows[0].attempts, "789");
}

#[test]
fn csv_exports_without_the_expected_header_yield_nothing() {
    let data = b"Name,Date\nFirst,then\n";
    assert_eq!(read_levels_csv(data).len(), 0);
    assert_eq!(read_levels_csv(b"").len(), 0);
}

#[test]
fn batch_import_runs_end_to_end_from_export_bytes() {
    let data = b"Title,Upload Date,Stars,Players,Attempts,Level ID\n\
        First,\"January 2, 2016\",\"1,234\",56,789,AAAA-0000-1111-2222\n\
        Broken,\"not a date\",1,2,3,CCCC-0000-1111-2222\n\
        Second,\"March 4, 2017\",5,6,7,BBBB-0000-1111-2222\n";
    let rows = read_levels_csv(data);
    let mut store = Smm1Catalog::new();
    let outcome = run_smm1_import(&mut store, &vec![], rows);
    assert_eq!(outcome, ImportOutcome::Imported(2));
    assert_eq!(store.rows()[0].id, "aaaa000011112222");
    assert_eq!(store.rows()[1].year, 2017);
}

#[test]
fn the_importer_canonicalizes_ids() {
    assert_eq!(normalized_id(" ABC-123-DEF "), "abc123def");
}
