use evil::listing::{line_is_weak, listing_has_weak_line, stream_has_weak_line};

fn decoded(lines: &[&str]) -> Vec<Option<String>> {
    lines.iter().map(|line| Some(String::from(*line))).collect()
}

#[test]
fn line_is_weak_when_it_ends_with_the_status() {
    assert!(line_is_weak("Las Vegas,weak"));
    assert!(line_is_weak("               Las Vegas,weak"));
    assert!(line_is_weak("weak"));
}

#[test]
fn line_is_not_weak_otherwise() {
    assert!(!line_is_weak("Madrid,strong"));
    assert!(!line_is_weak("Las Vegas,weak "));
    assert!(!line_is_weak("Las Vegas,Weak"));
    assert!(!line_is_weak("weak,strong"));
    assert!(!line_is_weak("eak"));
    assert!(!line_is_weak(""));
}

#[test]
fn line_is_weak_by_its_end_alone() {
    assert!(line_is_weak("Castle Newweak"));
}

#[test]
fn listing_with_weak_line_is_found_by_both_readings() {
    let listing = "Madrid,strong\nLas Vegas,weak\nNew York,strong";
    assert!(listing_has_weak_line(listing));
    assert!(stream_has_weak_line(&decoded(&["Madrid,strong", "Las Vegas,weak", "New York,strong"])));
}

#[test]
fn listing_without_weak_line_is_cleared_by_both_readings() {
    let listing = "Madrid,strong\nOregon,strong\nNew York,strong";
    assert!(!listing_has_weak_line(listing));
    assert!(!stream_has_weak_line(&decoded(&["Madrid,strong", "Oregon,strong", "New York,strong"])));
}

#[test]
fn empty_listing_has_no_weak_line() {
    assert!(!listing_has_weak_line(""));
    assert!(!listing_has_weak_line("\n\n"));
    assert!(!stream_has_weak_line(&Vec::new()));
}

#[test]
fn weak_line_is_found_wherever_it_stands() {
    assert!(listing_has_weak_line("a,weak\nb,strong\nc,strong"));
    assert!(listing_has_weak_line("a,strong\nb,strong\nc,weak"));
    assert!(listing_has_weak_line("a,strong\nb,strong\nc,weak\n"));
}

#[test]
fn status_must_stand_at_the_end_of_one_line() {
    assert!(!listing_has_weak_line("a,we\nak"));
    assert!(!listing_has_weak_line("a,weak b,strong"));
    assert!(!listing_has_weak_line("we\nak\n"));
}

#[test]
fn carriage_return_before_line_feed_is_no_part_of_the_line() {
    assert!(listing_has_weak_line("a,strong\r\nb,weak\r\nc,strong\r\n"));
    assert!(!listing_has_weak_line("b,weak\r\r\n"));
}

#[test]
fn carriage_return_at_the_very_end_stays_in_the_line() {
    assert!(!listing_has_weak_line("a,strong\nb,weak\r"));
}

#[test]
fn undecodable_line_is_passed_over() {
    let with_gap = vec![Some(String::from("a,strong")), None, Some(String::from("b,weak"))];
    assert!(stream_has_weak_line(&with_gap));
    let without_weak = vec![None, Some(String::from("a,strong")), None];
    assert!(!stream_has_weak_line(&without_weak));
    assert!(!stream_has_weak_line(&vec![None]));
}

#[test]
fn whole_reading_agrees_with_the_lines_of_the_standard_library() {
    let listings = [
        "",
        "\n",
        "weak",
        "weak\n",
        "weak\r",
        "weak\r\n",
        "weak\r\r\n",
        "\rweak",
        "a,strong\nb,weak",
        "a,strong\nb,weak\nc,strong\n",
        "a,strong\r\nb,weak\r\nc,strong",
        "a,weak \nb, weak\n",
        "a,we\nak",
        "Madrid,strong\n               Las Vegas,weak\n               New York,strong",
    ];
    for listing in listings {
        let expected = listing.lines().any(|line| line.ends_with("weak"));
        assert_eq!(listing_has_weak_line(listing), expected, "for {listing:?}");
        let reads: Vec<Option<String>> =
            listing.lines().map(|line| Some(String::from(line))).collect();
        assert_eq!(stream_has_weak_line(&reads), expected, "for {listing:?}");
    }
}
