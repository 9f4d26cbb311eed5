use ror2_profile::decimal::{char_is_decimal_digit, parse_counter, render_counter};
use ror2_profile::marker::{find_field, FieldKind};
use ror2_profile::profile::{extract, patch, read_profile_data, ProfileData};

const SAMPLE: &str = "<profile><name>Runner</name><coins>150</coins><totalCollectedCoins>300</totalCollectedCoins></profile>";

fn chars(s: &str) -> Vec<char> {
    s.chars().collect()
}

#[test]
fn extract_reads_all_three_fields() {
    let data = extract(SAMPLE);
    assert_eq!(
        data,
        ProfileData { name: String::from("Runner"), coins: 150, total_collected: 300 }
    );
}

#[test]
fn extract_without_name_gives_placeholder_and_coins() {
    let data = extract("<profile><coins>42</coins></profile>");
    assert_eq!(data.name, "Unknown");
    assert_eq!(data.coins, 42);
    assert_eq!(data.total_collected, 0);
}

#[test]
fn extract_of_empty_document_gives_defaults() {
    let data = extract("");
    assert_eq!(data, ProfileData { name: String::from("Unknown"), coins: 0, total_collected: 0 });
}

#[test]
fn extract_keeps_an_empty_name() {
    let data = extract("<name></name><coins>7</coins>");
    assert_eq!(data.name, "");
    assert_eq!(data.coins, 7);
}

#[test]
fn extract_takes_name_text_as_it_stands() {
    let data = extract("<name>  Él > the/rest\n</name>");
    assert_eq!(data.name, "  Él > the/rest\n");
}

#[test]
fn extract_tolerates_malformed_text_elsewhere() {
    let data = extract("<<<profile <unclosed <name>A</name> </wrong> <coins>9</coins> &&& <totalCollectedCoins>12</totalCollectedCoins");
    assert_eq!(data.name, "A");
    assert_eq!(data.coins, 9);
    assert_eq!(data.total_collected, 0);
}

#[test]
fn extract_skips_a_name_with_a_nested_marker() {
    let data = extract("<name>a<b></name><name>second</name>");
    assert_eq!(data.name, "second");
}

#[test]
fn extract_reads_the_first_marker_pair_only() {
    let data = extract("<coins>1</coins><coins>2</coins>");
    assert_eq!(data.coins, 1);
}

#[test]
fn extract_skips_a_counter_that_is_not_digits() {
    assert_eq!(extract("<coins>12a</coins>").coins, 0);
    assert_eq!(extract("<coins></coins>").coins, 0);
    assert_eq!(extract("<coins>-5</coins>").coins, 0);
    assert_eq!(extract("<coins> 5</coins>").coins, 0);
    assert_eq!(extract("<coins>x</coins><coins>31</coins>").coins, 31);
}

#[test]
fn decimal_digits_beyond_ascii_are_value_characters() {
    assert!(char_is_decimal_digit('0'));
    assert!(char_is_decimal_digit('9'));
    assert!(char_is_decimal_digit('\u{663}'));
    assert!(char_is_decimal_digit('\u{ff15}'));
    assert!(!char_is_decimal_digit('a'));
    assert!(!char_is_decimal_digit('<'));
    assert!(!char_is_decimal_digit('/'));
    assert!(!char_is_decimal_digit('\u{e9}'));
    assert!(!char_is_decimal_digit('\u{b2}'));
    assert!(!char_is_decimal_digit('\u{2167}'));
}

#[test]
fn a_counter_of_digits_beyond_ascii_reads_as_zero() {
    assert_eq!(extract("<coins>\u{663}</coins><coins>5</coins>").coins, 0);
    assert_eq!(extract("<coins>1\u{663}</coins><coins>5</coins>").coins, 0);
    assert_eq!(extract("<coins>\u{e9}</coins><coins>5</coins>").coins, 5);
}

#[test]
fn a_counter_of_digits_beyond_ascii_is_rewritten() {
    assert_eq!(patch("<coins>\u{663}\u{664}</coins>", 12, 0), "<coins>12</coins>");
    assert_eq!(patch("<coins>\u{e9}</coins>", 12, 0), "<coins>\u{e9}</coins>");
}

#[test]
fn extract_reads_an_oversized_counter_as_zero() {
    assert_eq!(extract("<coins>4294967295</coins>").coins, 4294967295);
    assert_eq!(extract("<coins>4294967296</coins>").coins, 0);
    assert_eq!(extract("<coins>99999999999999999999999999</coins>").coins, 0);
}

#[test]
fn extract_accepts_leading_zeros() {
    assert_eq!(extract("<coins>000123</coins>").coins, 123);
    assert_eq!(extract("<coins>00000000000000000000000007</coins>").coins, 7);
}

#[test]
fn extract_does_not_mix_up_the_two_counters() {
    let data = extract("<totalCollectedCoins>8</totalCollectedCoins><coins>3</coins>");
    assert_eq!(data.coins, 3);
    assert_eq!(data.total_collected, 8);
}

#[test]
fn read_profile_data_reads_a_document() {
    let result = read_profile_data(Ok(String::from(SAMPLE)));
    assert_eq!(
        result,
        Ok(ProfileData { name: String::from("Runner"), coins: 150, total_collected: 300 })
    );
}

#[test]
fn read_failure_is_reported_with_prefix() {
    let result = read_profile_data(Err(String::from("No such file or directory (os error 2)")));
    assert_eq!(
        result,
        Err(String::from("Failed to read file: No such file or directory (os error 2)"))
    );
}

#[test]
fn patch_rewrites_both_counters_in_place() {
    let patched = patch(SAMPLE, 500, 900);
    assert_eq!(
        patched,
        "<profile><name>Runner</name><coins>500</coins><totalCollectedCoins>900</totalCollectedCoins></profile>"
    );
}

#[test]
fn patch_without_total_changes_coins_only() {
    let patched = patch("<profile>\n  <coins>1</coins>\n</profile>\n", 77, 1000);
    assert_eq!(patched, "<profile>\n  <coins>77</coins>\n</profile>\n");
}

#[test]
fn patch_without_coins_changes_total_only() {
    let patched = patch("a<totalCollectedCoins>5</totalCollectedCoins>b", 77, 1000);
    assert_eq!(patched, "a<totalCollectedCoins>1000</totalCollectedCoins>b");
}

#[test]
fn patch_without_either_counter_changes_nothing() {
    let doc = "<profile><name>Runner</name><coins>abc</coins></profile>";
    assert_eq!(patch(doc, 1, 2), doc);
    assert_eq!(patch("", 1, 2), "");
}

#[test]
fn patch_leaves_unrelated_text_untouched() {
    let before = "<?xml version=\"1.0\"?>\r\n<!-- ünïcödé ✓ -->\t<x a='1'/><name>Ω</name>  ";
    let between = "\n\n  <stats><coins_old>5</coins_old></stats> <broken <";
    let after = " trailing </profile> \u{1F600}\n";
    let doc = format!(
        "{}<coins>10</coins>{}<totalCollectedCoins>20</totalCollectedCoins>{}",
        before, between, after
    );
    let expected = format!(
        "{}<coins>4000000000</coins>{}<totalCollectedCoins>0</totalCollectedCoins>{}",
        before, between, after
    );
    assert_eq!(patch(&doc, 4000000000, 0), expected);
}

#[test]
fn patch_handles_total_before_coins() {
    let patched = patch("<totalCollectedCoins>20</totalCollectedCoins>-<coins>10</coins>", 1, 2);
    assert_eq!(patched, "<totalCollectedCoins>2</totalCollectedCoins>-<coins>1</coins>");
}

#[test]
fn patch_rewrites_the_first_marker_pair_only() {
    let patched = patch("<coins>1</coins><coins>2</coins>", 9, 0);
    assert_eq!(patched, "<coins>9</coins><coins>2</coins>");
}

#[test]
fn patch_then_extract_gives_the_new_counters() {
    let values: [u32; 6] = [0, 1, 9, 10, 123456, u32::MAX];
    for c in values {
        for t in values {
            let data = extract(&patch(SAMPLE, c, t));
            assert_eq!(data.name, "Runner");
            assert_eq!(data.coins, c);
            assert_eq!(data.total_collected, t);
        }
    }
}

#[test]
fn patch_then_extract_without_a_coins_field_reads_zero() {
    let data = extract(&patch("<profile></profile>", 5, 7));
    assert_eq!(data.coins, 0);
    assert_eq!(data.total_collected, 0);
}

#[test]
fn find_field_gives_the_value_range() {
    let doc = chars("ab<coins>150</coins>");
    assert_eq!(find_field(&doc, "coins", FieldKind::Counter), Some((9, 12)));
    assert_eq!(find_field(&doc, "coins", FieldKind::Text), Some((9, 12)));
    assert_eq!(find_field(&doc, "coin", FieldKind::Counter), None);
    assert_eq!(find_field(&doc, "name", FieldKind::Text), None);
    let empty = chars("<name></name>");
    assert_eq!(find_field(&empty, "name", FieldKind::Text), Some((6, 6)));
    assert_eq!(find_field(&empty, "name", FieldKind::Counter), None);
}

#[test]
fn find_field_counts_characters_not_bytes() {
    let doc = chars("é✓<coins>5</coins>");
    assert_eq!(find_field(&doc, "coins", FieldKind::Counter), Some((9, 10)));
}

#[test]
fn render_counter_writes_decimal_digits() {
    assert_eq!(render_counter(0), "0");
    assert_eq!(render_counter(7), "7");
    assert_eq!(render_counter(10), "10");
    assert_eq!(render_counter(1234567890), "1234567890");
    assert_eq!(render_counter(u32::MAX), "4294967295");
}

#[test]
fn parse_counter_reads_a_range_of_digits() {
    let doc = chars("x0123y");
    assert_eq!(parse_counter(&doc, 1, 5), 123);
    assert_eq!(parse_counter(&doc, 2, 4), 12);
    assert_eq!(parse_counter(&doc, 3, 3), 0);
    assert_eq!(parse_counter(&doc, 0, 3), 0);
    assert_eq!(parse_counter(&doc, 4, 6), 0);
    let wide = chars("1\u{663}");
    assert_eq!(parse_counter(&wide, 0, 2), 0);
    let big = chars("4294967296");
    assert_eq!(parse_counter(&big, 0, 10), 0);
    assert_eq!(parse_counter(&big, 0, 9), 429496729);
}

#[test]
fn a_large_document_is_handled() {
    let mut doc = String::from("<profile>");
    for i in 0..20000 {
        doc.push_str("<stat name=\"s\"><value>");
        doc.push_str(&i.to_string());
        doc.push_str("</value></stat>\n");
    }
    let head_len = doc.len();
    doc.push_str("<name>Deep</name><coins>11</coins><totalCollectedCoins>22</totalCollectedCoins>");
    doc.push_str("</profile>");
    let data = extract(&doc);
    assert_eq!(data.name, "Deep");
    assert_eq!(data.coins, 11);
    assert_eq!(data.total_collected, 22);
    let patched = patch(&doc, 333, 4444);
    assert_eq!(&patched[..head_len], &doc[..head_len]);
    assert_eq!(
        &patched[head_len..],
        "<name>Deep</name><coins>333</coins><totalCollectedCoins>4444</totalCollectedCoins></profile>"
    );
}
