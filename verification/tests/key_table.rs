use pc_remote::keys::{key_table_row, Key, KEY_TABLE_ROWS};
use pc_remote::pccontroller::KeyRequest;
use pc_remote::text::same_text;

#[test]
fn every_listed_code_resolves_to_the_key_of_its_row() {
    for i in 0..KEY_TABLE_ROWS {
        let (code, key) = key_table_row(i);
        assert_eq!(KeyRequest::from_key_code(code), key, "code {code}");
        assert!(!matches!(key, Key::Unknown(_)), "code {code}");
    }
}

#[test]
fn listed_codes_are_all_different() {
    for i in 0..KEY_TABLE_ROWS {
        for j in 0..i {
            assert_ne!(key_table_row(i).0, key_table_row(j).0);
        }
    }
}

#[test]
fn listed_keys_are_all_different_but_for_the_two_alt_codes() {
    for i in 0..KEY_TABLE_ROWS {
        for j in 0..i {
            let (a, key_a) = key_table_row(i);
            let (b, key_b) = key_table_row(j);
            let both_alt = (a == "altleft" || a == "altright") && (b == "altleft" || b == "altright");
            if both_alt {
                assert_eq!(key_a, key_b);
            } else {
                assert_ne!(key_a, key_b, "codes {a} and {b}");
            }
        }
    }
}

#[test]
fn the_two_alt_codes_name_one_key() {
    assert_eq!(KeyRequest::from_key_code("altleft"), Key::Alt);
    assert_eq!(KeyRequest::from_key_code("altright"), Key::Alt);
    assert_eq!(KeyRequest::from_key_code("altgraph"), Key::AltGr);
}

#[test]
fn some_codes_by_name() {
    assert_eq!(KeyRequest::from_key_code("arrowleft"), Key::LeftArrow);
    assert_eq!(KeyRequest::from_key_code("keyq"), Key::KeyQ);
    assert_eq!(KeyRequest::from_key_code("numpad5"), Key::Kp5);
    assert_eq!(KeyRequest::from_key_code("digit0"), Key::Num0);
    assert_eq!(KeyRequest::from_key_code("enter"), Key::Return);
    assert_eq!(KeyRequest::from_key_code("period"), Key::Dot);
    assert_eq!(KeyRequest::from_key_code("f"), Key::Function);
    assert_eq!(KeyRequest::from_key_code("f1"), Key::F1);
    assert_eq!(KeyRequest::from_key_code("f12"), Key::F12);
    assert_eq!(KeyRequest::from_key_code("numpaddelete"), Key::KpDelete);
}

#[test]
fn unlisted_codes_resolve_to_the_unknown_key() {
    for code in ["", "nonsense", "KeyQ", "keyq ", " keyq", "key", "f13", "altlef", "numpad", "é"] {
        assert_eq!(KeyRequest::from_key_code(code), Key::Unknown(0), "code {code:?}");
    }
}

#[test]
fn the_table_has_its_rows() {
    assert_eq!(KEY_TABLE_ROWS, 106);
    assert_eq!(key_table_row(0), ("altleft", Key::Alt));
    assert_eq!(key_table_row(KEY_TABLE_ROWS - 1), ("f", Key::Function));
}

#[test]
fn texts_compare_by_their_characters() {
    assert!(same_text("", ""));
    assert!(same_text("keyq", "keyq"));
    assert!(!same_text("keyq", "keyw"));
    assert!(!same_text("keyq", "key"));
    assert!(!same_text("key", "keyq"));
    assert!(same_text("né", "né"));
    assert!(!same_text("né", "ne"));
}
