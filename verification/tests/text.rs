use server::api::CreateUserRequest;
use server::problem::judge::normalize_answer;
use server::problem::model::{StringNormalization, UnicodeNormalization};
use server::text::{collapse_whitespace, field_index, is_blank, trim_chars};

#[test]
fn whitespace_helpers_follow_unicode() {
    assert!(is_blank(" \t\u{3000}\u{2028}"));
    assert!(!is_blank(" a "));
    let chars: Vec<char> = "\u{3000} a  b \n".chars().collect();
    assert_eq!(trim_chars(&chars), "a  b".chars().collect::<Vec<_>>());
    assert_eq!(collapse_whitespace(&chars), " a b ".chars().collect::<Vec<_>>());
    assert_eq!(field_index("hints", 12), "hints[12]");
}

#[test]
fn answers_are_normalized_case_sensitively_when_asked() {
    let normalization = StringNormalization {
        unicode: UnicodeNormalization::Nfkc,
        trim_outer_whitespace: false,
        collapse_internal_whitespace: false,
        case_sensitive: true,
    };
    assert_eq!(normalize_answer(" Ａ ", &normalization), " A ");
}

#[test]
fn user_requests_are_checked_in_order() {
    let request = |name: &str, email: &str| CreateUserRequest {
        name: name.to_owned(),
        email: email.to_owned(),
    };
    assert_eq!(request("alice", "alice@example.com").validate(), Ok(()));
    assert_eq!(request("  ", "bad").validate(), Err("name must not be blank"));
    assert_eq!(
        request(&"a".repeat(256), "alice@example.com").validate(),
        Err("name must be at most 255 characters")
    );
    assert_eq!(
        request("alice", &format!("{}@example.com", "a".repeat(250))).validate(),
        Err("email must be at most 255 characters")
    );
    assert_eq!(
        request("alice", "not an address").validate(),
        Err("email must be a valid email address")
    );
}

#[test]
fn collapsed_white_space_is_single_spaces() {
    let collapse = |s: &str| -> String { collapse_whitespace(&s.chars().collect()).into_iter().collect() };
    assert_eq!(collapse("A \tB"), "A B");
    assert_eq!(collapse("  "), " ");
    assert_eq!(collapse("\u{3000}x\n\n y\u{a0}"), " x y ");
    assert_eq!(collapse("xy"), "xy");
}
