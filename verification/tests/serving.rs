use smm_zerop::dates::{Date, DateTime};
use smm_zerop::normalize::Smm2RawRow;
use smm_zerop::query::{build_smm1_random_query, build_smm2_random_query, BindValue};
use smm_zerop::smm1_level;
use smm_zerop::smm2_level::{FilterParams, Smm2Level, Style, Tag, Theme};
use smm_zerop::store::{run_smm2_import, Smm2Catalog};
use smm_zerop::taxonomy::ClearConditionGroup;
use smm_zerop::tpl_helpers::{ms_to_minsecs, tag_list, tag_name};
use smm_zerop::vite_assets::{ViteAssets, ViteManifestEntry};
use smm_zerop::webhook::{
    clear_message, lookup_message_data, validate_mark_cleared_id, webhook_endpoint,
    DiscordBotWebhookConfig,
};

fn empty_params() -> FilterParams {
    FilterParams {
        year: None,
        min_attempts: None,
        max_attempts: None,
        min_footprints: None,
        max_footprints: None,
        min_clearcheck_ms: None,
        max_clearcheck_ms: None,
        clear_condition_group: None,
        style: None,
        theme: None,
        tag: None,
    }
}

fn sample_row(id: &str, year: i64, attempts: i32, style: &str, tag: Option<&str>) -> Smm2RawRow {
    Smm2RawRow {
        id: Some(id.to_owned()),
        uploaded_at: Some(DateTime {
            date: Date { year, month: 5, day: 17 },
            hour: 12,
            minute: 0,
            second: 0,
        }),
        title: Some("A Level".to_owned()),
        description: None,
        clearcheck_ms: Some(90500),
        attempts: Some(attempts),
        footprints: Some(45),
        likes: Some("12".to_owned()),
        boos: Some("0".to_owned()),
        comments: Some("3".to_owned()),
        clear_condition: Some(26),
        clear_condition_magnitude: Some(1),
        style: Some(style.to_owned()),
        theme: Some("Ghost House".to_owned()),
        tag1: tag.map(|t| t.to_owned()),
        tag2: None,
    }
}

fn filled_store() -> Smm2Catalog {
    let mut store = Smm2Catalog::new();
    let rows = vec![
        sample_row("abc123de1", 2022, 10, "SMB1", Some("Music")),
        sample_row("abc123de2", 2023, 100, "SMW", Some("Speedrun")),
        sample_row("abc123de3", 2023, 500, "SMW", None),
    ];
    run_smm2_import(&mut store, &vec![], rows);
    store
}

#[test]
fn selection_honours_every_present_predicate() {
    let store = filled_store();
    let mut p = empty_params();
    p.year = Some(2023);
    p.min_attempts = Some(50);
    p.max_attempts = Some(200);
    p.style = Some(Style::SMW);
    p.theme = Some(Theme::GhostHouse);
    p.tag = Some(Tag::Speedrun);
    for key in [0usize, 1, 7, 123] {
        let l = Smm2Level::get_random_level(&store, &p, key).unwrap();
        assert_eq!(l.id, "abc123de2");
        assert_eq!(l.year, 2023);
        assert!(l.attempts >= 50 && l.attempts <= 200);
        assert_eq!(l.style, "SMW");
        assert_eq!(l.theme, "ghost_house");
        assert!(l.tags.contains(&"speedrun".to_owned()));
    }
}

#[test]
fn selection_with_no_match_returns_no_result() {
    let store = filled_store();
    let mut p = empty_params();
    p.year = Some(1999);
    assert!(Smm2Level::get_random_level(&store, &p, 42).is_none());
}

#[test]
fn selection_over_everything_picks_by_the_random_key() {
    let store = filled_store();
    let p = empty_params();
    let a = Smm2Level::get_random_level(&store, &p, 0).unwrap();
    let b = Smm2Level::get_random_level(&store, &p, 1).unwrap();
    let c = Smm2Level::get_random_level(&store, &p, 3).unwrap();
    assert_eq!(a.id, "abc123de1");
    assert_eq!(b.id, "abc123de2");
    assert_eq!(c.id, a.id);
}

#[test]
fn group_filters_match_condition_codes() {
    let store = filled_store();
    let mut p = empty_params();
    p.clear_condition_group = Some(ClearConditionGroup::DefeatingEnemies);
    // every stored row has condition code 26, a defeating-enemies code
    assert!(Smm2Level::get_random_level(&store, &p, 0).is_some());
    p.clear_condition_group = Some(ClearConditionGroup::NoCondition);
    assert!(Smm2Level::get_random_level(&store, &p, 0).is_none());
    p.clear_condition_group = Some(ClearConditionGroup::Collecting);
    assert!(Smm2Level::get_random_level(&store, &p, 0).is_none());
}

#[test]
fn the_streamed_variant_query_composes_present_predicates() {
    let (sql, binds) = build_smm2_random_query(&empty_params());
    assert_eq!(
        sql,
        "SELECT id, year, title, description, uploaded_at, clearcheck_ms, attempts, footprints, \
         likes, boos, comments, clear_condition, clear_condition_magnitude, style, theme, tags \
         FROM levels_smm2 WHERE 1 = 1 ORDER BY random() LIMIT 1"
    );
    assert!(binds.is_empty());

    let mut p = empty_params();
    p.year = Some(2023);
    p.max_attempts = Some(50);
    p.style = Some(Style::NSMBU);
    p.tag = Some(Tag::Art);
    let (sql, binds) = build_smm2_random_query(&p);
    assert!(sql.contains(" AND year = $1"));
    assert!(sql.contains(" AND attempts <= $2"));
    assert!(sql.contains(" AND style = $3"));
    assert!(sql.contains(" AND $4 = ANY(tags)"));
    assert!(sql.ends_with(" ORDER BY random() LIMIT 1"));
    assert_eq!(binds.len(), 4);
    assert!(matches!(&binds[0], BindValue::Int(2023)));
    assert!(matches!(&binds[1], BindValue::Int(50)));
    assert!(matches!(&binds[2], BindValue::Text(t) if t == "NSMBU"));
    assert!(matches!(&binds[3], BindValue::Text(t) if t == "art"));
}

#[test]
fn the_group_parameter_expands_to_its_static_list() {
    let mut p = empty_params();
    p.clear_condition_group = Some(ClearConditionGroup::NoCondition);
    let (sql, _) = build_smm2_random_query(&p);
    assert!(sql.contains(" AND clear_condition IS NULL"));

    p.clear_condition_group = Some(ClearConditionGroup::Collecting);
    let (sql, _) = build_smm2_random_query(&p);
    assert!(sql.contains(" AND clear_condition IN(35,56,66,82,86,88)"));
}

#[test]
fn the_batch_variant_query_keeps_its_standing_exclusions() {
    let p = smm1_level::FilterParams { year: 2016, min_attempts: Some(5), max_attempts: None };
    let (sql, binds) = build_smm1_random_query(&p);
    assert!(sql.contains("NOT EXISTS (SELECT NULL FROM known_cleared"));
    assert!(sql.contains("NOT EXISTS (SELECT NULL FROM level_reservations"));
    assert!(sql.contains(" AND year = $1"));
    assert!(sql.contains(" AND attempts >= $2"));
    assert!(sql.ends_with(" ORDER BY random() LIMIT 1"));
    assert_eq!(binds.len(), 2);
    assert!(matches!(&binds[0], BindValue::Int(2016)));
}

#[test]
fn durations_render_as_minutes_and_seconds() {
    assert_eq!(ms_to_minsecs(0), "0s");
    assert_eq!(ms_to_minsecs(1000), "1s");
    assert_eq!(ms_to_minsecs(1001), "2s");
    assert_eq!(ms_to_minsecs(60000), "60s");
    assert_eq!(ms_to_minsecs(61000), "1m 1s");
    assert_eq!(ms_to_minsecs(90500), "1m 31s");
}

#[test]
fn tags_render_title_cased() {
    assert_eq!(tag_name("auto_mario"), "Auto Mario");
    assert_eq!(tag_name("speedrun"), "Speedrun");
    assert_eq!(
        tag_list(vec!["auto_mario".to_owned(), "short_and_sweet".to_owned()]),
        "Auto Mario, Short And Sweet"
    );
    assert_eq!(tag_list(vec![]), "");
}

#[test]
fn clear_announcements_carry_source_and_message() {
    let (name, appendix) = lookup_message_data(None);
    assert_eq!(name, "smm-uncleared.com");
    assert_eq!(appendix, "");
    let (name, appendix) = lookup_message_data(Some("bot.example.com"));
    assert_eq!(name, "api.smm-uncleared.com");
    assert_eq!(appendix, " (bot.example.com)");
    assert_eq!(clear_message("ABC-123-DEF", &appendix), "!clear ABC-123-DEF (bot.example.com)");
    let cfg = DiscordBotWebhookConfig { id: "123".to_owned(), token: "hook-token".to_owned() };
    assert_eq!(
        webhook_endpoint(&cfg),
        "https://discord.com/api/webhooks/123/hook-token"
    );
}

#[test]
fn mark_cleared_ids_validate_by_canonical_length() {
    assert_eq!(validate_mark_cleared_id(" ABC-123-DEF "), Some("abc123def".to_owned()));
    assert_eq!(validate_mark_cleared_id("abc"), None);
    assert_eq!(validate_mark_cleared_id("abc123def0"), None);
}

#[test]
fn asset_urls_resolve_by_mode_and_manifest() {
    let dev = ViteAssets::new(true, None);
    assert_eq!(dev.get_asset_url("main.ts"), "http://localhost:5173/assets/src/main.ts");
    assert_eq!(dev.get_css_urls("main.ts"), Vec::<String>::new());
    assert_eq!(
        dev.get_vite_client(),
        Some("http://localhost:5173/assets/@vite/client".to_owned())
    );

    let manifest = vec![(
        "src/main.ts".to_owned(),
        ViteManifestEntry {
            file: "main-abc123.js".to_owned(),
            css: vec!["main-abc123.css".to_owned()],
        },
    )];
    let prod = ViteAssets::new(false, Some(manifest));
    assert_eq!(prod.get_asset_url("main.ts"), "/assets/main-abc123.js");
    assert_eq!(prod.get_css_urls("main.ts"), vec!["/assets/main-abc123.css"]);
    assert_eq!(prod.get_asset_url("other.ts"), "");
    assert_eq!(prod.get_vite_client(), None);

    let bare = ViteAssets::new(false, None);
    assert_eq!(bare.get_asset_url("main.ts"), "");
}
