use smm_zerop::smm2_level::Smm2Level;
use smm_zerop::taxonomy::{clear_condition_label, group_of_code, ClearConditionGroup};

#[test]
fn id_lists_match_the_static_taxonomy() {
    assert_eq!(ClearConditionGroup::NoCondition.id_list(), None);
    assert_eq!(ClearConditionGroup::NoJumping.id_list(), Some(vec![1]));
    assert_eq!(ClearConditionGroup::NoDamage.id_list(), Some(vec![4]));
    assert_eq!(
        ClearConditionGroup::DefeatingEnemies.id_list(),
        Some(vec![
            2, 3, 9, 11, 14, 15, 17, 18, 19, 20, 22, 24, 25, 26, 27, 29, 30, 32, 33, 34, 36, 39,
            40, 42, 43, 44, 45, 46, 50, 51, 52, 54, 55, 61, 65, 67, 68, 69, 70, 71, 72, 77, 78,
            79, 80, 81, 83, 85, 87, 92, 93,
        ])
    );
    assert_eq!(
        ClearConditionGroup::PowerupFinish.id_list(),
        Some(vec![
            5, 6, 7, 8, 10, 12, 13, 21, 28, 41, 47, 48, 49, 53, 57, 58, 59, 60, 62, 63, 64, 73,
            74, 75, 76, 84, 89, 90, 91,
        ])
    );
    assert_eq!(
        ClearConditionGroup::HoldingActivating.id_list(),
        Some(vec![16, 23, 31, 37, 38])
    );
    assert_eq!(ClearConditionGroup::Collecting.id_list(), Some(vec![35, 56, 66, 82, 86, 88]));
}

#[test]
fn id_lists_partition_the_defined_codes() {
    let groups = [
        ClearConditionGroup::NoJumping,
        ClearConditionGroup::NoDamage,
        ClearConditionGroup::DefeatingEnemies,
        ClearConditionGroup::PowerupFinish,
        ClearConditionGroup::HoldingActivating,
        ClearConditionGroup::Collecting,
    ];
    let mut seen = vec![0u32; 94];
    let mut total = 0;
    for g in groups {
        for c in g.id_list().unwrap() {
            seen[c as usize] += 1;
            total += 1;
        }
    }
    assert_eq!(total, 93);
    for c in 1..=93i64 {
        // every labeled code is in exactly one bucket
        assert!(clear_condition_label(c).is_some());
        assert_eq!(seen[c as usize], 1);
    }
    assert!(clear_condition_label(0).is_none());
    assert!(clear_condition_label(94).is_none());
}

#[test]
fn codes_map_to_their_buckets() {
    assert_eq!(group_of_code(1), Some(ClearConditionGroup::NoJumping));
    assert_eq!(group_of_code(4), Some(ClearConditionGroup::NoDamage));
    assert_eq!(group_of_code(26), Some(ClearConditionGroup::DefeatingEnemies));
    assert_eq!(group_of_code(63), Some(ClearConditionGroup::PowerupFinish));
    assert_eq!(group_of_code(38), Some(ClearConditionGroup::HoldingActivating));
    assert_eq!(group_of_code(88), Some(ClearConditionGroup::Collecting));
    assert_eq!(group_of_code(0), None);
    assert_eq!(group_of_code(94), None);
}

#[test]
fn condition_text_substitutes_magnitude_and_plural() {
    assert_eq!(
        Smm2Level::clear_condition_text(2, Some(3)),
        "Reach the goal after defeating 3 Mechakoopas."
    );
    assert_eq!(
        Smm2Level::clear_condition_text(2, Some(1)),
        "Reach the goal after defeating 1 Mechakoopa."
    );
    assert_eq!(
        Smm2Level::clear_condition_text(2, None),
        "Reach the goal after defeating (n) Mechakoopa(s)."
    );
    assert_eq!(
        Smm2Level::clear_condition_text(1, None),
        "Reach the goal without landing after leaving the ground."
    );
    // only the exact placeholders are substituted; "(es)" is literal text
    assert_eq!(
        Smm2Level::clear_condition_text(37, Some(2)),
        "Reach the goal after hitting 2 P Switch(es). OR Reach the goal while holding a P Switch."
    );
    assert_eq!(Smm2Level::clear_condition_text(0, None), "Unknown Clear Condition :(");
    assert_eq!(Smm2Level::clear_condition_text(99, Some(5)), "Unknown Clear Condition :(");
}
