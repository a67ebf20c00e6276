use mkworld_overlay::average::{mean, total};
use mkworld_overlay::record::{Hundredths, MmrChange, PlayerRecord, UpstreamRecord};
use mkworld_overlay::transform::{
    collect_table_scores, last_diff, partner_avg, rank_icon, table_event, tier_icon_path,
    transform,
};

fn change(reason: Option<&str>, delta: Option<i64>, partner_scores: &[i64]) -> MmrChange {
    MmrChange {
        delta,
        reason: reason.map(|r| r.to_string()),
        partner_scores: partner_scores.to_vec(),
    }
}

fn reported(rank: Option<&str>, mmr_changes: Vec<MmrChange>) -> UpstreamRecord<f64> {
    UpstreamRecord {
        name: "Foo".to_string(),
        country_code: Some("FR".to_string()),
        country_name: Some("France".to_string()),
        mmr: Some(5120.0),
        max_mmr: Some(5300.0),
        overall_rank: Some(42),
        events_played: Some(17),
        win_rate: Some(0.5625),
        win_loss_last_ten: Some("6 - 4".to_string()),
        gain_loss_last_ten: Some(-35),
        largest_gain: Some(120),
        average_score: Some(84.25),
        average_last_ten: Some(80.5),
        rank: rank.map(|r| r.to_string()),
        mmr_changes,
    }
}

fn as_number(h: Option<Hundredths>) -> Option<f64> {
    h.map(|h| h.value as f64 / 100.0)
}

#[test]
fn partner_avg_and_last_diff_of_table_events() {
    let record = transform(reported(
        Some("Gold"),
        vec![
            change(Some("Table"), Some(10), &[4, 6]),
            change(Some("Other"), Some(5), &[100]),
        ],
    ));
    assert_eq!(record.partner_avg, Some(Hundredths { value: 500 }));
    assert_eq!(as_number(record.partner_avg), Some(5.0));
    assert_eq!(record.last_diff, Some(10));
}

#[test]
fn no_table_event_means_no_derived_statistics() {
    let record = transform(reported(
        Some("Gold"),
        vec![
            change(Some("Other"), Some(5), &[100]),
            change(None, Some(7), &[1, 2]),
            change(Some("table"), Some(9), &[3]),
            change(Some("Table "), Some(9), &[3]),
        ],
    ));
    assert_eq!(record.partner_avg, None);
    assert_eq!(record.last_diff, None);
}

#[test]
fn empty_history_means_no_derived_statistics() {
    let record = transform(reported(None, vec![]));
    assert_eq!(record.partner_avg, None);
    assert_eq!(record.last_diff, None);
    assert_eq!(record.rank_icon_url, None);
}

#[test]
fn grandmaster_spellings_share_an_icon() {
    let joined = rank_icon("Grandmaster");
    let spaced = rank_icon("grand master");
    assert!(joined.is_some());
    assert_eq!(joined, spaced);
    assert_eq!(joined, Some("/static/ranks/grandmaster.png"));
}

#[test]
fn unknown_rank_has_no_icon() {
    assert_eq!(rank_icon("Legend"), None);
    let record = transform(reported(Some("Legend"), vec![]));
    assert_eq!(record.rank_icon_url, None);
}

#[test]
fn every_known_tier_has_its_icon() {
    let tiers = [
        ("iron", "/static/ranks/iron.png"),
        ("bronze", "/static/ranks/bronze.png"),
        ("silver", "/static/ranks/silver.png"),
        ("gold", "/static/ranks/gold.png"),
        ("platinum", "/static/ranks/platinum.png"),
        ("sapphire", "/static/ranks/sapphire.png"),
        ("ruby", "/static/ranks/ruby.png"),
        ("diamond", "/static/ranks/diamond.png"),
        ("master", "/static/ranks/master.png"),
        ("grand master", "/static/ranks/grandmaster.png"),
        ("grandmaster", "/static/ranks/grandmaster.png"),
    ];
    for (tier, path) in tiers {
        assert_eq!(tier_icon_path(tier), Some(path));
        assert_eq!(rank_icon(&tier.to_uppercase()), Some(path));
    }
}

#[test]
fn tier_lookup_itself_is_case_sensitive() {
    assert_eq!(tier_icon_path("Gold"), None);
    assert_eq!(tier_icon_path("gold "), None);
    assert_eq!(tier_icon_path(""), None);
    assert_eq!(tier_icon_path("gold 1"), None);
}

#[test]
fn rank_icon_is_put_into_the_record() {
    let record = transform(reported(Some("DIAMOND"), vec![]));
    assert_eq!(record.rank_icon_url, Some("/static/ranks/diamond.png".to_string()));
}

#[test]
fn reported_fields_pass_through_unchanged() {
    let history = vec![
        change(Some("Table"), Some(-12), &[70, 81]),
        change(Some("Penalty"), Some(-50), &[]),
    ];
    let record = transform(reported(Some("Ruby"), history.clone()));
    assert_eq!(record.source, reported(Some("Ruby"), history));
    assert_eq!(record.source.win_rate, Some(0.5625));
}

#[test]
fn last_diff_is_the_first_table_event() {
    let history = vec![
        change(Some("Placement"), Some(1), &[]),
        change(Some("Table"), Some(-8), &[1]),
        change(Some("Table"), Some(30), &[2]),
    ];
    assert_eq!(last_diff(&history), Some(-8));
}

#[test]
fn last_diff_of_a_table_event_without_delta() {
    let history = vec![
        change(Some("Table"), None, &[1]),
        change(Some("Table"), Some(30), &[2]),
    ];
    assert_eq!(last_diff(&history), None);
}

#[test]
fn partner_scores_are_collected_in_order() {
    let history = vec![
        change(Some("Table"), Some(1), &[1, 2]),
        change(Some("Other"), Some(1), &[99]),
        change(Some("Table"), None, &[]),
        change(Some("Table"), Some(1), &[3]),
    ];
    assert_eq!(collect_table_scores(&history), vec![1, 2, 3]);
    assert_eq!(partner_avg(&history), Some(Hundredths { value: 200 }));
}

#[test]
fn table_events_without_scores_have_no_average() {
    let history = vec![change(Some("Table"), Some(4), &[])];
    assert_eq!(partner_avg(&history), None);
    assert_eq!(last_diff(&history), Some(4));
}

#[test]
fn table_event_is_told_by_its_reason() {
    assert!(table_event(&change(Some("Table"), None, &[])));
    assert!(!table_event(&change(Some("TABLE"), None, &[])));
    assert!(!table_event(&change(None, None, &[])));
}

#[test]
fn mean_is_rounded_to_hundredths() {
    assert_eq!(mean(&vec![4, 6]), Some(Hundredths { value: 500 }));
    assert_eq!(mean(&vec![1, 2]), Some(Hundredths { value: 150 }));
    assert_eq!(mean(&vec![1, 1, 2]), Some(Hundredths { value: 133 }));
    assert_eq!(mean(&vec![1, 2, 2]), Some(Hundredths { value: 167 }));
    assert_eq!(mean(&vec![7]), Some(Hundredths { value: 700 }));
    assert_eq!(mean(&vec![0, 0, 0]), Some(Hundredths { value: 0 }));
}

#[test]
fn mean_rounds_a_tie_away_from_zero() {
    assert_eq!(mean(&vec![0, 0, 0, 0, 0, 0, 0, 1]), Some(Hundredths { value: 13 }));
    assert_eq!(mean(&vec![0, 0, 0, 0, 0, 0, 0, -1]), Some(Hundredths { value: -13 }));
    let mut scores = vec![0; 199];
    scores.push(29);
    assert_eq!(mean(&scores), Some(Hundredths { value: 15 }));
}

#[test]
fn mean_of_negative_scores() {
    assert_eq!(mean(&vec![-1, -2]), Some(Hundredths { value: -150 }));
    assert_eq!(mean(&vec![-1, -1, -2]), Some(Hundredths { value: -133 }));
    assert_eq!(mean(&vec![-5, 5]), Some(Hundredths { value: 0 }));
}

#[test]
fn mean_of_nothing_is_none() {
    assert_eq!(mean(&vec![]), None);
}

#[test]
fn mean_of_extreme_scores_does_not_overflow() {
    assert_eq!(
        mean(&vec![i64::MAX, i64::MAX, i64::MAX]),
        Some(Hundredths { value: 100 * (i64::MAX as i128) })
    );
    assert_eq!(
        mean(&vec![i64::MIN, i64::MIN]),
        Some(Hundredths { value: 100 * (i64::MIN as i128) })
    );
    assert_eq!(mean(&vec![i64::MAX, i64::MIN]), Some(Hundredths { value: -50 }));
}

#[test]
fn total_adds_up() {
    assert_eq!(total(&vec![]), 0);
    assert_eq!(total(&vec![1, -2, 10]), 9);
    assert_eq!(total(&vec![i64::MAX, i64::MAX]), 2 * (i64::MAX as i128));
}

#[test]
fn cloned_record_equals_its_source() {
    let record: PlayerRecord<f64> = transform(reported(
        Some("Gold"),
        vec![change(Some("Table"), Some(10), &[4, 6])],
    ));
    let copy = record.clone();
    assert_eq!(copy, record);
}
