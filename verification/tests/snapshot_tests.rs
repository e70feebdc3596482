use flarestats::scheduler::{next_cycle_action, CycleAction};
use flarestats::snapshot::{assemble_snapshot, collect_successes, sort_sites_by_visits, SiteData};

fn site(name: &str, visits: u64) -> SiteData {
    SiteData {
        name: name.to_string(),
        visits,
        page_views: visits * 2,
        series: Vec::new(),
    }
}

#[test]
fn test_one_failed_fetch_drops_exactly_one_site() {
    let results: Vec<Result<SiteData, String>> = vec![
        Ok(site("a", 5)),
        Err("boom".to_string()),
        Ok(site("b", 9)),
        Ok(site("c", 1)),
    ];
    let (sites, errors) = collect_successes(results);
    assert_eq!(sites.len(), 3);
    assert_eq!(errors, vec!["boom".to_string()]);
    // the surviving entries are untouched and in order
    assert_eq!(sites[0].name, "a");
    assert_eq!(sites[0].visits, 5);
    assert_eq!(sites[1].name, "b");
    assert_eq!(sites[2].name, "c");
}

#[test]
fn test_sort_sites_descending_by_visits() {
    let mut sites = vec![site("low", 1), site("high", 100), site("mid", 50)];
    sort_sites_by_visits(&mut sites);
    assert_eq!(sites[0].name, "high");
    assert_eq!(sites[1].name, "mid");
    assert_eq!(sites[2].name, "low");
}

#[test]
fn test_sort_sites_equal_visits_keep_discovery_order() {
    let mut sites = vec![
        site("first", 7),
        site("second", 7),
        site("big", 9),
        site("third", 7),
    ];
    sort_sites_by_visits(&mut sites);
    assert_eq!(sites[0].name, "big");
    assert_eq!(sites[1].name, "first");
    assert_eq!(sites[2].name, "second");
    assert_eq!(sites[3].name, "third");
}

#[test]
fn test_assemble_snapshot_ranks_and_logs() {
    let results: Vec<Result<SiteData, String>> = vec![
        Ok(site("small", 2)),
        Ok(site("large", 20)),
        Err("offline".to_string()),
    ];
    let (snapshot, errors) = assemble_snapshot(results);
    assert_eq!(snapshot.len(), 2);
    assert_eq!(snapshot[0].name, "large");
    assert_eq!(snapshot[1].name, "small");
    assert_eq!(errors.len(), 1);
}

#[test]
fn test_next_cycle_action_publishes_success() {
    let action = next_cycle_action(Ok(vec![site("a", 1)]));
    assert!(matches!(action, CycleAction::Publish(ref d) if d.len() == 1));
}

#[test]
fn test_next_cycle_action_logs_failure_and_continues() {
    let action = next_cycle_action(Err("cycle failed".to_string()));
    assert!(matches!(action, CycleAction::LogAndContinue(ref m) if m == "cycle failed"));
}
