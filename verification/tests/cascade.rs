use neohub::thresholds::Recipe;
use neohub::thresholds::ThresholdSet;

// Thresholds from the worked example (9, 5, 1, -3 degrees), in hundredths.
fn example_thresholds() -> ThresholdSet {
    ThresholdSet { t1: 900, t2: 500, t3: 100, t4: -300 }
}

#[test]
fn reading_above_first_threshold_selects_first_recipe() {
    let ts = example_thresholds();
    // 10 degrees -> the 6am start recipe
    assert_eq!(ts.select(1000), Some(Recipe::Start6am));
}

#[test]
fn reading_in_second_band_selects_second_recipe() {
    let ts = example_thresholds();
    // 7 degrees -> the 4.30am start recipe
    assert_eq!(ts.select(700), Some(Recipe::Start430am));
}

#[test]
fn reading_in_third_band_selects_third_recipe() {
    let ts = example_thresholds();
    assert_eq!(ts.select(300), Some(Recipe::Start330am));
}

#[test]
fn reading_in_fourth_band_selects_fourth_recipe() {
    let ts = example_thresholds();
    assert_eq!(ts.select(0), Some(Recipe::Start2am));
}

#[test]
fn reading_below_all_thresholds_selects_none() {
    let ts = example_thresholds();
    // -5 degrees -> out of range, no recipe runs
    assert_eq!(ts.select(-500), None);
}

#[test]
fn band_boundaries_fall_to_the_lower_band() {
    let ts = example_thresholds();
    // A reading exactly on a threshold does not exceed it.
    assert_eq!(ts.select(900), Some(Recipe::Start430am));
    assert_eq!(ts.select(500), Some(Recipe::Start330am));
    assert_eq!(ts.select(100), Some(Recipe::Start2am));
    assert_eq!(ts.select(-300), None);
}

#[test]
fn recipe_values_name_the_recipes_the_hub_knows() {
    assert_eq!(Recipe::Start6am.value_bytes(), b"['6am Start Time.']".to_vec());
    assert_eq!(Recipe::Start430am.value_bytes(), b"['4.30 am Heating Start']".to_vec());
    assert_eq!(Recipe::Start330am.value_bytes(), b"['3.30am Heating Start.']".to_vec());
    assert_eq!(Recipe::Start2am.value_bytes(), b"['2am Heating Start.']".to_vec());
}
