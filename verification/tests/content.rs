use spider::modules::content::{Predictable, Searchable};
use spider::modules::types::Content;

fn show(first: u32, second: u32, digits: usize) -> Content {
    Content::new("", "Show", "S", first, "E", second, digits, "")
}

#[test]
fn new_keeps_every_field() {
    let c = Content::new("[grp] ", "Title", "Season ", 3, "Ep ", 14, 2, " 1080p");
    assert_eq!(c.prefix, "[grp] ");
    assert_eq!(c.title, "Title");
    assert_eq!(c.first_prefix, "Season ");
    assert_eq!(c.first, 3);
    assert_eq!(c.second_prefix, "Ep ");
    assert_eq!(c.second, 14);
    assert_eq!(c.digits, 2);
    assert_eq!(c.postfix, " 1080p");
}

#[test]
fn query_pads_both_counters() {
    assert_eq!(show(1, 9, 2).to_query(), "Show S01 E09");
}

#[test]
fn query_holds_prefix_and_postfix() {
    let c = Content::new("[grp] ", "Title", "Season ", 3, "Ep ", 14, 3, " 1080p");
    assert_eq!(c.to_query(), "[grp] Title Season 003 Ep 014 1080p");
}

#[test]
fn query_does_not_truncate_long_numbers() {
    assert_eq!(show(123, 4567, 2).to_query(), "Show S123 E4567");
}

#[test]
fn query_with_width_zero_writes_plain_numbers() {
    assert_eq!(show(0, 10, 0).to_query(), "Show S0 E10");
}

#[test]
fn query_with_exact_width() {
    assert_eq!(show(10, 99, 2).to_query(), "Show S10 E99");
}

#[test]
fn query_of_largest_counter() {
    assert_eq!(show(u32::MAX, 0, 12).to_query(), "Show S004294967295 E000000000000");
}

#[test]
fn query_of_empty_template() {
    let c = Content::new("", "", "", 7, "", 8, 1, "");
    assert_eq!(c.to_query(), " 7 8");
}

#[test]
fn predictions_are_next_episode_then_next_season() {
    let c = Content::new("p", "Show", "S", 1, "E", 5, 2, "q");
    let next = c.predict_new_content();
    assert_eq!(next.len(), 2);
    assert_eq!(next[0], Content::new("p", "Show", "S", 1, "E", 6, 2, "q"));
    assert_eq!(next[1], Content::new("p", "Show", "S", 2, "E", 1, 2, "q"));
}

#[test]
fn predictions_leave_the_item_unchanged() {
    let c = show(4, 0, 2);
    let next = c.predict_new_content();
    assert_eq!(c, show(4, 0, 2));
    assert_eq!(next[0], show(4, 1, 2));
    assert_eq!(next[1], show(5, 1, 2));
}

#[test]
fn predictions_just_below_the_limit() {
    let c = show(u32::MAX - 1, u32::MAX - 1, 2);
    let next = c.predict_new_content();
    assert_eq!(next[0].second, u32::MAX);
    assert_eq!(next[0].first, u32::MAX - 1);
    assert_eq!(next[1].first, u32::MAX);
    assert_eq!(next[1].second, 1);
}

#[test]
fn items_compare_by_their_fields() {
    assert_eq!(show(1, 2, 2), show(1, 2, 2).clone());
    assert_ne!(show(1, 2, 2), show(1, 2, 3));
    assert_ne!(show(1, 2, 2), Content::new("", "Show ", "S", 1, "E", 2, 2, ""));
}

#[test]
fn padded_counters_are_at_least_as_wide_as_asked() {
    for digits in 0..12usize {
        for n in [0u32, 7, 10, 99, 100, 12345, u32::MAX] {
            let c = Content::new("", "", "", n, "", 0, digits, "");
            let query = c.to_query();
            let plain = n.to_string();
            let first = query.trim_start().split(' ').next().unwrap();
            assert!(first.len() >= digits);
            if plain.len() <= digits {
                assert_eq!(first.len(), digits);
            } else {
                assert_eq!(first, plain);
            }
            assert!(first.ends_with(&plain));
            assert!(first[..first.len() - plain.len()].chars().all(|c| c == '0'));
        }
    }
}
