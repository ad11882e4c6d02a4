use cardcheck::format_result;
use cardcheck::is_likely_card_line;
use cardcheck::scan_line;

#[test]
fn likely_line_needs_twelve_to_nineteen_digits() {
    assert!(!is_likely_card_line(""));
    assert!(!is_likely_card_line("1234567890"));
    assert!(!is_likely_card_line("12345678901"));
    assert!(is_likely_card_line("123456789012"));
    assert!(is_likely_card_line("1234567890123456789"));
    assert!(!is_likely_card_line("12345678901234567890"));
}

#[test]
fn likely_line_counts_digits_among_other_text() {
    assert!(is_likely_card_line("card: 4111-1111-1111-1111 (personal)"));
    assert!(!is_likely_card_line("order 12345 from 2024"));
}

#[test]
fn single_value_result_line_for_valid_visa() {
    assert_eq!(
        format_result("4111111111111111"),
        "4111 \u{2022}\u{2022}\u{2022}\u{2022}\u{2022}\u{2022}\u{2022}\u{2022} 1111 | Bandeira: Visa | V\u{e1}lido: true"
    );
}

#[test]
fn result_line_for_unknown_invalid_number() {
    assert_eq!(
        format_result("1234"),
        "1234 | Bandeira: Desconhecida | V\u{e1}lido: false"
    );
}

#[test]
fn result_line_contains_both_field_labels() {
    let line = format_result("5555555555554444");
    assert!(line.contains("Bandeira: Mastercard"));
    assert!(line.contains("V\u{e1}lido: true"));
    assert!(line.contains(" | "));
}

#[test]
fn batch_of_three_lines_yields_exactly_one_result() {
    let lines = ["", "1234567890", "4111111111111111"];
    let results: Vec<String> = lines.iter().filter_map(|l| scan_line(l)).collect();
    assert_eq!(results.len(), 1);
    assert_eq!(
        results[0],
        "4111 \u{2022}\u{2022}\u{2022}\u{2022}\u{2022}\u{2022}\u{2022}\u{2022} 1111 | Bandeira: Visa | V\u{e1}lido: true"
    );
}

#[test]
fn blank_and_short_lines_are_skipped() {
    assert_eq!(scan_line(""), None);
    assert_eq!(scan_line("   "), None);
    assert_eq!(scan_line("1234567890"), None);
}
