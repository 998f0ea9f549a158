use nhentai_downloader::download::{
    DirState, DirPlan, FetchScheduler, dir_plan, should_fetch_page, download_plan,
    resolve_last_page, CONCURRENT_FETCH_LIMIT,
};

#[test]
fn missing_directory_is_created_and_fetches_all() {
    assert_eq!(dir_plan(DirState::Missing, true), DirPlan::CreateAndFetchAll);
    assert_eq!(dir_plan(DirState::Missing, false), DirPlan::CreateAndFetchAll);
}

#[test]
fn occupied_path_fails() {
    assert_eq!(dir_plan(DirState::IsFile, true), DirPlan::FailOccupied);
    assert_eq!(dir_plan(DirState::IsFile, false), DirPlan::FailOccupied);
}

#[test]
fn existing_directory_follows_check_missing() {
    assert_eq!(dir_plan(DirState::IsDir, true), DirPlan::FetchMissing);
    assert_eq!(dir_plan(DirState::IsDir, false), DirPlan::SkipAll);
}

#[test]
fn resume_fetches_only_the_missing_page() {
    // Pages 1 and 3 are on disk, page 2 is not.
    let present = vec![true, false, true];
    assert_eq!(download_plan(false, true, &present), vec![2]);
}

#[test]
fn overwrite_refetches_everything() {
    let present = vec![true, false, true];
    assert_eq!(download_plan(true, true, &present), vec![1, 2, 3]);
}

#[test]
fn fresh_directory_fetches_everything_regardless_of_overwrite() {
    let present = vec![true, false, true];
    assert_eq!(download_plan(false, false, &present), vec![1, 2, 3]);
}

#[test]
fn per_page_resume_rule() {
    assert!(!should_fetch_page(false, true, true));
    assert!(should_fetch_page(true, true, true));
    assert!(should_fetch_page(false, false, true));
    assert!(should_fetch_page(false, true, false));
}

#[test]
fn concurrency_cap_on_twenty_pages() {
    let mut s = FetchScheduler::new(20);
    let mut in_flight: usize = 0;
    let mut max_in_flight: usize = 0;
    let mut issued: Vec<usize> = Vec::new();
    loop {
        while let Some(p) = s.try_start() {
            issued.push(p);
            in_flight += 1;
            let now = s.current_in_flight();
            assert!(now <= CONCURRENT_FETCH_LIMIT);
            assert_eq!(now, in_flight);
            if in_flight > max_in_flight {
                max_in_flight = in_flight;
            }
        }
        if in_flight == 0 {
            break;
        }
        s.finish();
        in_flight -= 1;
        if s.done() {
            break;
        }
    }
    assert!(s.done());
    assert_eq!(max_in_flight, CONCURRENT_FETCH_LIMIT);
    assert_eq!(issued, (1..=20).collect::<Vec<usize>>());
}

#[test]
fn small_gallery_never_reaches_the_cap() {
    let mut s = FetchScheduler::new(3);
    let mut count = 0;
    while let Some(_) = s.try_start() {
        count += 1;
    }
    assert_eq!(count, 3);
    assert_eq!(s.current_in_flight(), 3);
    s.finish();
    s.finish();
    s.finish();
    assert!(s.done());
}

#[test]
fn explicit_last_page_wins_and_is_clamped() {
    assert_eq!(resolve_last_page(1, Some(3), None, 7), 3);
    assert_eq!(resolve_last_page(1, Some(9), None, 7), 7);
}

#[test]
fn zero_count_means_every_page() {
    assert_eq!(resolve_last_page(2, None, Some(0), 7), 7);
}

#[test]
fn count_runs_from_the_first_page() {
    assert_eq!(resolve_last_page(2, None, Some(3), 7), 4);
    assert_eq!(resolve_last_page(1, None, Some(100), 7), 7);
}

#[test]
fn count_overflow_saturates_to_the_total() {
    assert_eq!(resolve_last_page(u32::MAX, None, Some(2), 5), 5);
}
