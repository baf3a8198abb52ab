use glass_bot::caching::{
    check_if_deleted, check_valid_result, files_to_download, plan_lookup, CacheLookup,
};

#[test]
fn loved_maps_keep_half_a_year() {
    assert!(check_valid_result("Loved", 0));
    assert!(check_valid_result("Loved", 182));
    assert!(!check_valid_result("Loved", 183));
}

#[test]
fn changing_maps_keep_a_week() {
    for status in ["Pending", "Graveyard", "WIP", "Qualified"] {
        assert!(check_valid_result(status, 7));
        assert!(!check_valid_result(status, 8));
    }
}

#[test]
fn ranked_maps_keep_for_good() {
    assert!(check_valid_result("Ranked", 10_000));
    assert!(check_valid_result("Approved", 400));
    assert!(check_valid_result("loved", 400));
}

#[test]
fn deleted_beatmaps_are_those_the_api_dropped() {
    let cached = vec![10, 20, 30, 40];
    let api = Some(vec![20u32, 40, 50]);
    assert_eq!(check_if_deleted(&cached, &api), vec![10, 30]);
    assert_eq!(check_if_deleted(&cached, &None), Vec::<i64>::new());
    assert_eq!(check_if_deleted(&cached, &Some(vec![])), cached);
    assert_eq!(check_if_deleted(&vec![], &api), Vec::<i64>::new());
}

#[test]
fn only_missing_files_are_downloaded() {
    assert_eq!(files_to_download(&vec![1, 2, 3], &vec![2]), vec![1, 3]);
    assert_eq!(files_to_download(&vec![1, 2], &vec![1, 2, 3]), Vec::<i64>::new());
}

#[test]
fn lookups() {
    assert_eq!(plan_lookup(None), CacheLookup::Fetch);
    assert_eq!(plan_lookup(Some(("Ranked", 900))), CacheLookup::UseCached);
    assert_eq!(plan_lookup(Some(("Qualified", 9))), CacheLookup::Refresh);
}
