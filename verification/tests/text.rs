use esp_sender::privacy::{display_title, has_sensitive_word, title_is_sensitive, window_label};
use esp_sender::text::{chars_of, find_substring, join_texts, push_decimal, same_text, str_contains};

#[test]
fn sensitive_titles_are_masked() {
    assert_eq!(display_title("Online Banking - Chrome"), "Privacy Restricted");
    assert_eq!(display_title("INCOGNITO tab"), "Privacy Restricted");
    assert_eq!(display_title("Change Password"), "Privacy Restricted");
    assert_eq!(display_title("KeePass vault"), "Privacy Restricted");
    assert_eq!(display_title("InPrivate - Edge"), "Privacy Restricted");
    assert!(title_is_sensitive("my BANK"));
    assert!(!title_is_sensitive("Notepad"));
}

#[test]
fn sensitive_words_in_lowered_text() {
    assert!(has_sensitive_word("inprivate window"));
    assert!(has_sensitive_word("bankid"));
    assert!(!has_sensitive_word("BANK"));
    assert!(!has_sensitive_word("notes"));
}

#[test]
fn long_titles_are_shortened() {
    let title = "abcdefghijklmnopqrstuvwxyz0123456789";
    assert_eq!(display_title(title), "abcdefghijklmnopqrstuvwxyz0...");
    assert_eq!(display_title(title).chars().count(), 30);
}

#[test]
fn titles_up_to_thirty_chars_pass() {
    let title = "abcdefghijklmnopqrstuvwxyz0123";
    assert_eq!(display_title(title), title);
    assert_eq!(display_title(""), "");
}

#[test]
fn shortening_counts_characters_not_bytes() {
    let title = "ÄÖÜäöüßÄÖÜäöüßÄÖÜäöüßÄÖÜäöü"; // 28 characters, 56 bytes
    assert_eq!(display_title(title), title);
    let longer = "ééééééééééééééééééééééééééééééé"; // 31 characters
    assert_eq!(display_title(longer), format!("{}...", "é".repeat(27)));
}

#[test]
fn window_label_names_the_desktop() {
    assert_eq!(window_label(""), "Desktop");
    assert_eq!(window_label("Task Manager"), "Task Manager");
}

#[test]
fn substring_search() {
    assert!(str_contains("CPU Package", "CPU Package"));
    assert!(str_contains("AMD GPU Edge Temp", "GPU Edge"));
    assert!(str_contains("anything", ""));
    assert!(!str_contains("GPU", "GPU Core"));
    assert!(!str_contains("gpu core", "GPU Core"));
}

#[test]
fn joining() {
    let items = vec!["a:1".to_string(), "b:2".to_string(), "c:3".to_string()];
    assert_eq!(join_texts(&items, ";"), "a:1;b:2;c:3");
    assert_eq!(join_texts(&vec!["solo".to_string()], ";"), "solo");
    assert_eq!(join_texts(&Vec::new(), ";"), "");
}

#[test]
fn decimal_rendering() {
    let mut s = String::from("x=");
    push_decimal(&mut s, 0);
    assert_eq!(s, "x=0");
    let mut s = String::new();
    push_decimal(&mut s, u128::MAX);
    assert_eq!(s, u128::MAX.to_string());
    let mut s = String::new();
    push_decimal(&mut s, 1000);
    assert_eq!(s, "1000");
}

#[test]
fn text_equality() {
    assert!(same_text("auto", "auto"));
    assert!(!same_text("auto", "Auto"));
    assert!(!same_text("auto", "autom"));
    assert!(same_text("", ""));
}

#[test]
fn characters_and_search() {
    assert_eq!(chars_of("añb"), vec!['a', 'ñ', 'b']);
    assert!(find_substring(&vec!['x', 'y', 'z'], &vec!['y', 'z']));
    assert!(!find_substring(&vec!['x'], &vec!['x', 'x']));
}
