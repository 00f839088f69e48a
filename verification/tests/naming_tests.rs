use reg_sort::decimal::push_decimal;
use reg_sort::naming::extend;
use reg_sort::paths::{file_name, join};
use reg_sort::task::Task;
use reg_sort::text::find_last;

fn decimal(i: i32) -> String {
    let mut out = String::new();
    push_decimal(&mut out, i);
    out
}

#[test]
fn decimal_text_of_small_numbers() {
    assert_eq!(decimal(0), "0");
    assert_eq!(decimal(1), "1");
    assert_eq!(decimal(9), "9");
    assert_eq!(decimal(10), "10");
    assert_eq!(decimal(11), "11");
    assert_eq!(decimal(100), "100");
    assert_eq!(decimal(1234567890), "1234567890");
}

#[test]
fn decimal_text_of_negative_numbers_and_limits() {
    assert_eq!(decimal(-1), "-1");
    assert_eq!(decimal(-10), "-10");
    assert_eq!(decimal(i32::MAX), "2147483647");
    assert_eq!(decimal(i32::MIN), "-2147483648");
}

#[test]
fn decimal_text_is_appended() {
    let mut out = String::from("n=");
    push_decimal(&mut out, 42);
    push_decimal(&mut out, -7);
    assert_eq!(out, "n=42-7");
}

#[test]
fn decimal_text_agrees_with_the_standard_rendering() {
    for i in -1100..1100 {
        assert_eq!(decimal(i), i.to_string());
    }
    for k in 0..31 {
        let i: i32 = 1 << k;
        assert_eq!(decimal(i), i.to_string());
        assert_eq!(decimal(-i), (-i).to_string());
        assert_eq!(decimal(i - 1), (i - 1).to_string());
    }
}

#[test]
fn different_numbers_have_different_decimal_texts() {
    let texts: Vec<String> = (-50..50).map(decimal).collect();
    for a in 0..texts.len() {
        for b in 0..a {
            assert_ne!(texts[a], texts[b]);
        }
    }
}

#[test]
fn last_occurrence_is_found() {
    assert_eq!(find_last("archive.tar.gz", '.'), Some(11));
    assert_eq!(find_last("README", '.'), None);
    assert_eq!(find_last("", '.'), None);
    assert_eq!(find_last(".", '.'), Some(0));
    assert_eq!(find_last("a/b/c", '/'), Some(3));
}

#[test]
fn last_occurrence_counts_characters_not_bytes() {
    assert_eq!(find_last("héllo.txt", '.'), Some(5));
    assert_eq!(find_last("日本語.txt", '.'), Some(3));
}

#[test]
fn suffix_goes_in_front_of_the_extension() {
    assert_eq!(Task::extend_file("report.txt".to_string(), 1), "report(1).txt");
    assert_eq!(Task::extend_file("report.txt".to_string(), 2), "report(2).txt");
    assert_eq!(Task::extend_file("report.txt".to_string(), 10), "report(10).txt");
}

#[test]
fn suffix_is_appended_to_a_name_without_extension() {
    assert_eq!(Task::extend_file("README".to_string(), 1), "README(1)");
    assert_eq!(Task::extend_file("notes".to_string(), 12), "notes(12)");
    assert_eq!(Task::extend_file("".to_string(), 1), "(1)");
}

#[test]
fn only_what_follows_the_last_dot_is_the_extension() {
    assert_eq!(Task::extend_file("archive.tar.gz".to_string(), 1), "archive.tar(1).gz");
    assert_eq!(Task::extend_file("data.tar.gz".to_string(), 1), "data.tar(1).gz");
    assert_eq!(Task::extend_file("a.b.c.d".to_string(), 3), "a.b.c(3).d");
}

#[test]
fn suffix_at_the_edges_of_a_name() {
    assert_eq!(Task::extend_file(".hidden".to_string(), 1), "(1).hidden");
    assert_eq!(Task::extend_file("trailing.".to_string(), 1), "trailing(1).");
    assert_eq!(Task::extend_file(".".to_string(), 1), "(1).");
}

#[test]
fn suffix_in_a_name_with_wide_characters() {
    assert_eq!(Task::extend_file("héllo.txt".to_string(), 1), "héllo(1).txt");
    assert_eq!(Task::extend_file("日本語.txt".to_string(), 7), "日本語(7).txt");
    assert_eq!(Task::extend_file("日本語".to_string(), 7), "日本語(7)");
}

#[test]
fn suffix_with_unusual_numbers() {
    assert_eq!(Task::extend_file("a.txt".to_string(), 0), "a(0).txt");
    assert_eq!(Task::extend_file("a.txt".to_string(), -3), "a(-3).txt");
    assert_eq!(Task::extend_file("a.txt".to_string(), i32::MAX), "a(2147483647).txt");
    assert_eq!(Task::extend_file("a.txt".to_string(), i32::MIN), "a(-2147483648).txt");
}

#[test]
fn extended_names_follow_the_formula() {
    for name in ["report.txt", "README", "archive.tar.gz", ".hidden", "x."] {
        for id in [1, 2, 9, 10, 99, 100, 12345] {
            let expected = match name.rfind('.') {
                Some(pos) => {
                    let (stem, extension) = name.split_at(pos);
                    format!("{}({}){}", stem, id, extension)
                }
                None => format!("{}({})", name, id),
            };
            assert_eq!(Task::extend_file(name.to_string(), id), expected);
            assert_eq!(extend(name, id), expected);
        }
    }
}

#[test]
fn extended_name_keeps_the_last_dot_last() {
    let extended = Task::extend_file("archive.tar.gz".to_string(), 4);
    assert_eq!(find_last(&extended, '.'), Some(11 + "(4)".len()));
    assert!(extended.ends_with("(4).gz"));
}

#[test]
fn different_numbers_give_different_names() {
    for name in ["report.txt", "README", "a.b.c"] {
        let names: Vec<String> = (1..40).map(|id| extend(name, id)).collect();
        for a in 0..names.len() {
            assert_ne!(names[a], name);
            for b in 0..a {
                assert_ne!(names[a], names[b]);
            }
        }
    }
}

#[test]
fn join_puts_one_separator_between_directory_and_name() {
    assert_eq!(join("out/txt", "report.txt"), "out/txt/report.txt");
    assert_eq!(join("out/txt/", "report.txt"), "out/txt/report.txt");
    assert_eq!(join("/", "report.txt"), "/report.txt");
    assert_eq!(join("out", ""), "out/");
}

#[test]
fn join_treats_an_empty_directory_as_the_current_one() {
    assert_eq!(join("", "report.txt"), "report.txt");
    assert_eq!(join(".", "report.txt"), "./report.txt");
}

#[test]
fn file_name_is_the_last_component() {
    assert_eq!(file_name("in/sub/report.txt"), Some("report.txt".to_string()));
    assert_eq!(file_name("/abs/notes"), Some("notes".to_string()));
    assert_eq!(file_name("report.txt"), Some("report.txt".to_string()));
    assert_eq!(file_name("in/.hidden"), Some(".hidden".to_string()));
    assert_eq!(file_name("in/..."), Some("...".to_string()));
    assert_eq!(file_name("in/日本語.txt"), Some("日本語.txt".to_string()));
}

#[test]
fn some_paths_have_no_file_name() {
    assert_eq!(file_name(""), None);
    assert_eq!(file_name("/"), None);
    assert_eq!(file_name("in/"), None);
    assert_eq!(file_name("."), None);
    assert_eq!(file_name(".."), None);
    assert_eq!(file_name("in/."), None);
    assert_eq!(file_name("in/.."), None);
}
