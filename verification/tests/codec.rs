use smm_zerop::id_codec::{canonicalize, format_level_id};
use smm_zerop::smm2_level::Smm2Level;

#[test]
fn level_formatted_level_id_formats_correctly() {
    assert_eq!(Smm2Level::formatted_level_id("abc123DEF"), "ABC-123-DEF")
}

#[test]
fn smm2_level_formatted_level_id_formats_correctly() {
    assert_eq!(Smm2Level::formatted_level_id("abc123DEF"), "ABC-123-DEF")
}

#[test]
fn canonicalize_trims_strips_and_lowercases() {
    assert_eq!(canonicalize("  ABC-123-def \n"), "abc123def");
    assert_eq!(canonicalize("abc123def"), "abc123def");
    assert_eq!(canonicalize(""), "");
    assert_eq!(canonicalize("---"), "");
}

#[test]
fn canonicalize_is_idempotent_on_ordinary_ids() {
    for raw in ["ABC-123-DEF", " abc123def ", "A1B2C3D4E", "x-y-z"] {
        let once = canonicalize(raw);
        assert_eq!(canonicalize(&once), once);
    }
}

#[test]
fn canonicalize_second_pass_trims_exposed_whitespace() {
    // A hyphen next to boundary whitespace exposes new whitespace after the
    // first pass; only then does a second pass change anything.
    let once = canonicalize(" - a ");
    assert_eq!(once, " a");
    assert_eq!(canonicalize(&once), "a");
}

#[test]
fn format_groups_in_threes() {
    assert_eq!(format_level_id(""), "");
    assert_eq!(format_level_id("ab"), "AB");
    assert_eq!(format_level_id("abc"), "ABC");
    assert_eq!(format_level_id("abcd"), "ABC-D");
    assert_eq!(format_level_id("abc123def"), "ABC-123-DEF");
}

#[test]
fn format_then_canonicalize_round_trips() {
    for id in ["abc123def", "000000000", "a1b2c3d4e"] {
        assert_eq!(canonicalize(&format_level_id(id)), id);
    }
}

#[test]
fn normalized_internal_level_id_matches_canonical_form() {
    assert_eq!(Smm2Level::normalized_internal_level_id(" ABC-123-DEF "), "abc123def");
}
