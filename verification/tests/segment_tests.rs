use mc_cli::eval_common::segments::{
    check_segment_count, group_units, ingredient_set, segment_status, UnitKey,
};
use mc_cli::eval_common::{parse_metric_list, SegmentStatus};

fn unit(keys: &[&str], oor: bool) -> UnitKey {
    UnitKey { displays: keys.iter().map(|s| s.to_string()).collect(), out_of_range: oor }
}

#[test]
fn units_group_by_first_appearance() {
    let units = vec![
        unit(&["East", "[0, 0.5)"], false),
        unit(&["West", "[0, 0.5)"], true),
        unit(&["East", "[0, 0.5)"], true),
        unit(&["East", "[0.5, 1)"], false),
        unit(&["West", "[0, 0.5)"], false),
    ];
    let g = group_units(&units);
    assert_eq!(g.len(), 3);
    assert_eq!(g[0].displays, vec!["East".to_string(), "[0, 0.5)".to_string()]);
    assert_eq!(g[0].members, vec![0, 2]);
    assert!(!g[0].out_of_range, "the first unit's flag stands");
    assert_eq!(g[1].members, vec![1, 4]);
    assert!(g[1].out_of_range);
    assert_eq!(g[2].members, vec![3]);
    let total: usize = g.iter().map(|s| s.members.len()).sum();
    assert_eq!(total, units.len());
    assert!(group_units(&Vec::new()).is_empty());
}

#[test]
fn segment_cap_and_status() {
    assert!(check_segment_count(50, 50).is_ok());
    assert_eq!(
        check_segment_count(51, 50).unwrap_err(),
        "resolved 51 segments, which exceeds --max-segments 50 — narrow the holdout, coarsen the buckets, or raise --max-segments"
    );
    assert_eq!(segment_status(true, 1, 30), SegmentStatus::OutOfRange);
    assert_eq!(segment_status(false, 29, 30), SegmentStatus::BelowMinN);
    assert_eq!(segment_status(false, 30, 30), SegmentStatus::Okay);
}

#[test]
fn ingredients_once_each_in_first_use_order() {
    let ms = parse_metric_list(&vec![
        "wr=mean(won)".to_string(),
        "r=ratio(profit,stake)".to_string(),
        "n=count(won)".to_string(),
        "s=sum(stake)".to_string(),
    ])
    .unwrap();
    assert_eq!(
        ingredient_set(&ms),
        vec!["won".to_string(), "profit".to_string(), "stake".to_string()]
    );
}
