use render_core::error::RenderError;
use render_core::passphrase::{ChoiceCategory, PassphraseEntry, MAX_LENGTH};

#[test]
fn entry_starts_empty_in_menu() {
    let p = PassphraseEntry::new();
    assert_eq!(p.passphrase(), "");
    assert_eq!(p.show_passphrase_length(), 0);
    assert!(!p.is_full());
    assert!(matches!(p.current_category, ChoiceCategory::Menu));
}

#[test]
fn append_and_delete_round_trip() {
    let mut p = PassphraseEntry::new();
    p.append_char('a').unwrap();
    p.append_char('Z').unwrap();
    p.append_char('!').unwrap();
    assert_eq!(p.passphrase(), "aZ!");
    assert_eq!(p.show_passphrase_length(), 3);
    p.delete_last_digit();
    assert_eq!(p.passphrase(), "aZ");
    p.delete_last_digit();
    p.delete_last_digit();
    assert_eq!(p.passphrase(), "");
    // deleting from an empty passphrase is harmless
    p.delete_last_digit();
    assert_eq!(p.passphrase(), "");
}

#[test]
fn capacity_is_enforced() {
    let mut p = PassphraseEntry::new();
    for _ in 0..MAX_LENGTH {
        p.append_char('x').unwrap();
    }
    assert!(p.is_full());
    assert!(matches!(p.append_char('y'), Err(RenderError::Config)));
    assert_eq!(p.show_passphrase_length(), MAX_LENGTH);
}

#[test]
fn update_situation_hides_and_reveals() {
    let mut p = PassphraseEntry::new();
    p.append_char('s').unwrap();
    p.append_char('e').unwrap();
    p.append_char('q').unwrap();
    assert_eq!(p.update_situation(), "***");
    p.show_plain_passphrase = true;
    assert_eq!(p.update_situation(), "seq");
    assert_eq!(p.reveal_current_passphrase(), "seq");
}

#[test]
fn menu_categories_and_characters() {
    let mut p = PassphraseEntry::new();
    assert!(matches!(
        p.get_category_from_menu(0),
        ChoiceCategory::LowercaseLetter
    ));
    assert!(matches!(
        p.get_category_from_menu(2),
        ChoiceCategory::Digit
    ));
    p.current_category = ChoiceCategory::LowercaseLetter;
    assert_eq!(p.get_char(0), 'a');
    assert_eq!(p.get_char(25), 'z');
    assert!(!p.is_menu_choice(25));
    assert!(p.is_menu_choice(26));
    p.current_category = ChoiceCategory::UppercaseLetter;
    assert_eq!(p.get_char(1), 'B');
    p.current_category = ChoiceCategory::Digit;
    assert_eq!(p.get_char(9), '9');
    assert!(p.is_menu_choice(10));
    p.current_category = ChoiceCategory::SpecialSymbol;
    assert_eq!(p.get_char(0), '_');
    assert_eq!(p.get_char(8), '\\');
    assert_eq!(p.get_char(29), '=');
    assert!(p.is_menu_choice(30));
    p.menu_position = 3;
    p.show_menu_page();
    assert!(matches!(p.current_category, ChoiceCategory::Menu));
    assert_eq!(p.menu_position, 3);
}
