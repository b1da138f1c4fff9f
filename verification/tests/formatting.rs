use piqo::display_due_date_time;
use piqo::CategoryItem;
use piqo::DueStyle;
use piqo::TaskItem;
use piqo::UserItem;

#[test]
fn truncate_cuts_and_marks() {
    assert_eq!(piqo::truncate("hello world", 8), "hello w…");
    assert_eq!(piqo::truncate("hi", 8), "hi");
    assert_eq!(piqo::truncate("exactly", 8), "exactly");
    assert_eq!(piqo::truncate("overflow", 8), "overflo…");
}

#[test]
fn center_align_splits_padding_evenly() {
    assert_eq!(piqo::center_align("ab", 6), "  ab  ");
    assert_eq!(piqo::center_align("ab", 5), " ab  ");
    assert_eq!(piqo::center_align("abcdef", 4), "abcdef");
    assert_eq!(piqo::center_align("", 3), "   ");
}

#[test]
fn left_align_pads_right() {
    assert_eq!(piqo::left_align("ab", 5), "ab   ");
    assert_eq!(piqo::left_align("abcdef", 4), "abcdef");
}

#[test]
fn truncate_then_center() {
    assert_eq!(piqo::truncate_then_center_align("hello world", 8), "hello w…");
    assert_eq!(piqo::truncate_then_center_align("hi", 6), "  hi  ");
}

#[test]
fn to_segments_wraps_greedily() {
    assert_eq!(piqo::to_segments("a b", 10), vec!["a b "]);
    assert_eq!(piqo::to_segments("aaa bbb ccc", 8), vec!["aaa bbb ", "ccc "]);
    assert_eq!(piqo::to_segments("", 10), vec![""]);
    // a word longer than the width gets a segment of its own, after the
    // open (possibly empty) segment is closed
    assert_eq!(piqo::to_segments("abcdefgh xy", 4), vec!["", "abcdefgh ", "xy "]);
}

#[test]
fn format_description_wraps_each_line() {
    assert_eq!(
        piqo::format_description("aaa bbb ccc\nd e", 8),
        vec!["aaa bbb ", "ccc ", "d e "]
    );
    assert_eq!(piqo::format_description("", 8), Vec::<String>::new());
    assert_eq!(piqo::format_description("a\n\nb", 8), vec!["a ", "", "b "]);
}

#[test]
fn due_time_buckets_and_styles() {
    assert_eq!(display_due_date_time(30), (String::from("30s"), DueStyle::Red));
    assert_eq!(display_due_date_time(59), (String::from("59s"), DueStyle::Red));
    assert_eq!(display_due_date_time(60), (String::from("1m"), DueStyle::Orange));
    assert_eq!(display_due_date_time(3599), (String::from("59m"), DueStyle::Orange));
    assert_eq!(
        display_due_date_time(7200),
        (String::from("2h"), DueStyle::YellowGreen)
    );
    assert_eq!(
        display_due_date_time(3 * 86400),
        (String::from("3d"), DueStyle::Green)
    );
    assert_eq!(
        display_due_date_time(2 * 604800),
        (String::from("2w"), DueStyle::Gray)
    );
    assert_eq!(
        display_due_date_time(2 * 31536000),
        (String::from("2y"), DueStyle::White)
    );
}

#[test]
fn overdue_times_are_negative_and_red() {
    assert_eq!(display_due_date_time(-90), (String::from("-1m"), DueStyle::Red));
    assert_eq!(display_due_date_time(-5), (String::from("-5s"), DueStyle::Red));
}

#[test]
fn str_eq_compares_characters() {
    assert!(piqo::str_eq("abc", "abc"));
    assert!(!piqo::str_eq("abc", "abd"));
    assert!(!piqo::str_eq("abc", "abcd"));
    assert!(piqo::str_eq("", ""));
}

#[test]
fn display_strings() {
    let t = TaskItem { id: 1, name: String::from("task"), category: None };
    assert_eq!(t.display_string(), "task");
    let t2 = TaskItem {
        id: 1,
        name: String::from("task"),
        category: Some(String::from("Todo")),
    };
    assert_eq!(t2.display_string(), "task (Todo)");
    let c = CategoryItem { id: 2, name: String::from("Todo"), not_deletable: false };
    assert_eq!(c.display_string(), "Todo");
    let c2 = CategoryItem { id: 2, name: String::from("Todo"), not_deletable: true };
    assert_eq!(c2.display_string(), "Todo (not deletable - has tasks)");
    let u = UserItem {
        name: String::from("ada"),
        git_email: String::from("ada@example.com"),
    };
    assert_eq!(u.display_string(), "ada <ada@example.com>");
}

#[test]
fn formatting_edge_widths() {
    assert_eq!(piqo::truncate("abc", 1), "…");
    assert_eq!(piqo::truncate("", 1), "");
    assert_eq!(piqo::center_align("ab", 0), "ab");
    assert_eq!(piqo::left_align("", 0), "");
    assert_eq!(display_due_date_time(0), (String::from("0s"), DueStyle::Red));
}
