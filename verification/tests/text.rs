use kafky::text::{drop_last_char, is_yes, is_yes_within, join, listed, same_text, select};

fn names(list: &[&str]) -> Vec<String> {
    list.iter().map(|s| s.to_string()).collect()
}

#[test]
fn same_text_compares_characters() {
    assert!(same_text("", ""));
    assert!(same_text("orders", "orders"));
    assert!(same_text("grüße", "grüße"));
    assert!(!same_text("orders", "order"));
    assert!(!same_text("order", "orders"));
    assert!(!same_text("orders", "Orders"));
    assert!(!same_text("é", "e\u{301}"));
}

#[test]
fn join_puts_the_separator_between_neighbours() {
    assert_eq!(join(&names(&[]), ","), "");
    assert_eq!(join(&names(&["a"]), ","), "a");
    assert_eq!(join(&names(&["a", "b", "c"]), ","), "a,b,c");
    assert_eq!(join(&names(&["a", "", "c"]), ", "), "a, , c");
    assert_eq!(join(&names(&["", ""]), "-"), "-");
    assert_eq!(join(&names(&["x", "y"]), ""), "xy");
}

#[test]
fn listed_finds_whole_names_only() {
    let list = names(&["orders", "payments"]);
    assert!(listed(&list, "orders"));
    assert!(listed(&list, "payments"));
    assert!(!listed(&list, "order"));
    assert!(!listed(&list, ""));
    assert!(!listed(&names(&[]), "orders"));
}

#[test]
fn select_keeps_order_and_repeats() {
    let items = names(&["c", "a", "b", "a", "d"]);
    let list = names(&["a", "d", "x"]);
    assert_eq!(select(&items, &list, true), names(&["a", "a", "d"]));
    assert_eq!(select(&items, &list, false), names(&["c", "b"]));
    assert_eq!(select(&items, &names(&[]), true), names(&[]));
    assert_eq!(select(&items, &names(&[]), false), items);
    assert_eq!(select(&names(&[]), &list, true), names(&[]));
}

#[test]
fn yes_is_the_letter_y_with_white_space_around() {
    for answer in ["y", "Y", " y", "y ", "\ty\r\n", "\u{2003}Y\u{a0}", "y\n"] {
        assert!(is_yes(answer), "{:?}", answer);
    }
    for answer in ["", " ", "\n", "n", "yes", "yy", "y y", "ý", "Yes\n", "-y"] {
        assert!(!is_yes(answer), "{:?}", answer);
    }
}

#[test]
fn yes_agrees_with_trim_and_compare() {
    let samples = ["y", "Y", " y \n", "yes", "", "\u{3000}y", "y\u{200b}", "Y\u{85}", "no", " "];
    for answer in samples {
        assert_eq!(is_yes(answer), answer.trim().eq_ignore_ascii_case("Y"), "{:?}", answer);
    }
}

#[test]
fn last_character_is_dropped() {
    assert_eq!(drop_last_char("vim\n"), "vim");
    assert_eq!(drop_last_char("vim"), "vi");
    assert_eq!(drop_last_char("é"), "");
    assert_eq!(drop_last_char("añ"), "a");
    assert_eq!(drop_last_char(""), "");
}

#[test]
fn yes_goes_by_the_marks_it_is_given() {
    assert!(is_yes_within("y", &vec![false]));
    assert!(is_yes_within("xYx", &vec![true, false, true]));
    assert!(is_yes_within("abYcd", &vec![true, true, false, true, true]));
    assert!(!is_yes_within(" y ", &vec![false, false, false]));
    assert!(!is_yes_within("y", &vec![true]));
    assert!(is_yes_within("yy", &vec![false, true]));
    assert!(!is_yes_within("yy", &vec![false, false]));
    assert!(!is_yes_within("y", &vec![]));
    assert!(!is_yes_within("y", &vec![false, false]));
    assert!(!is_yes_within("", &vec![]));
    assert!(!is_yes_within(" n ", &vec![true, false, true]));
}
