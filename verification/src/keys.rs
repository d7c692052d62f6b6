//! Host key identifiers and the table that names them.

use vstd::prelude::*;

verus! {

/// A key of the host keyboard, by its position on a standard QWERTY layout.
#[derive(Clone, Copy, Debug, PartialEq, Eq, Hash, Structural)]
pub enum Key {
    Alt,
    AltGr,
    Backspace,
    CapsLock,
    ControlLeft,
    ControlRight,
    Delete,
    DownArrow,
    End,
    Escape,
    F1,
    F10,
    F11,
    F12,
    F2,
    F3,
    F4,
    F5,
    F6,
    F7,
    F8,
    F9,
    Home,
    LeftArrow,
    MetaLeft,
    MetaRight,
    PageDown,
    PageUp,
    Return,
    RightArrow,
    ShiftLeft,
    ShiftRight,
    Space,
    Tab,
    UpArrow,
    PrintScreen,
    ScrollLock,
    Pause,
    NumLock,
    BackQuote,
    Num1,
    Num2,
    Num3,
    Num4,
    Num5,
    Num6,
    Num7,
    Num8,
    Num9,
    Num0,
    Minus,
    Equal,
    KeyQ,
    KeyW,
    KeyE,
    KeyR,
    KeyT,
    KeyY,
    KeyU,
    KeyI,
    KeyO,
    KeyP,
    LeftBracket,
    RightBracket,
    KeyA,
    KeyS,
    KeyD,
    KeyF,
    KeyG,
    KeyH,
    KeyJ,
    KeyK,
    KeyL,
    SemiColon,
    Quote,
    BackSlash,
    IntlBackslash,
    KeyZ,
    KeyX,
    KeyC,
    KeyV,
    KeyB,
    KeyN,
    KeyM,
    Comma,
    Dot,
    Slash,
    Insert,
    KpReturn,
    KpMinus,
    KpPlus,
    KpMultiply,
    KpDivide,
    Kp0,
    Kp1,
    Kp2,
    Kp3,
    Kp4,
    Kp5,
    Kp6,
    Kp7,
    Kp8,
    Kp9,
    KpDelete,
    Function,
    /// A key that the table does not name, with the raw code given to the host.
    Unknown(u32),
}

/// The key that stands for every code the table does not name.
pub open spec fn unknown_key() -> Key {
    Key::Unknown(0)
}

/// Number of rows of the symbol table.
pub const KEY_TABLE_ROWS: usize = 106;

/// The symbol table: each symbolic code with the host key it names.
pub open spec fn key_table() -> Seq<(Seq<char>, Key)> {
    seq![
        ("altleft"@, Key::Alt),
        ("altright"@, Key::Alt),
        ("altgraph"@, Key::AltGr),
        ("backspace"@, Key::Backspace),
        ("capslock"@, Key::CapsLock),
        ("controlleft"@, Key::ControlLeft),
        ("controlright"@, Key::ControlRight),
        ("delete"@, Key::Delete),
        ("arrowdown"@, Key::DownArrow),
        ("end"@, Key::End),
        ("escape"@, Key::Escape),
        ("f1"@, Key::F1),
        ("f10"@, Key::F10),
        ("f11"@, Key::F11),
        ("f12"@, Key::F12),
        ("f2"@, Key::F2),
        ("f3"@, Key::F3),
        ("f4"@, Key::F4),
        ("f5"@, Key::F5),
        ("f6"@, Key::F6),
        ("f7"@, Key::F7),
        ("f8"@, Key::F8),
        ("f9"@, Key::F9),
        ("home"@, Key::Home),
        ("arrowleft"@, Key::LeftArrow),
        ("metaleft"@, Key::MetaLeft),
        ("metaright"@, Key::MetaRight),
        ("pagedown"@, Key::PageDown),
        ("pageup"@, Key::PageUp),
        ("enter"@, Key::Return),
        ("arrowright"@, Key::RightArrow),
        ("shiftleft"@, Key::ShiftLeft),
        ("shiftright"@, Key::ShiftRight),
        ("space"@, Key::Space),
        ("tab"@, Key::Tab),
        ("arrowup"@, Key::UpArrow),
        ("printscreen"@, Key::PrintScreen),
        ("scrolllock"@, Key::ScrollLock),
        ("pause"@, Key::Pause),
        ("numlock"@, Key::NumLock),
        ("backquote"@, Key::BackQuote),
        ("digit1"@, Key::Num1),
        ("digit2"@, Key::Num2),
        ("digit3"@, Key::Num3),
        ("digit4"@, Key::Num4),
        ("digit5"@, Key::Num5),
        ("digit6"@, Key::Num6),
        ("digit7"@, Key::Num7),
        ("digit8"@, Key::Num8),
        ("digit9"@, Key::Num9),
        ("digit0"@, Key::Num0),
        ("minus"@, Key::Minus),
        ("equal"@, Key::Equal),
        ("keyq"@, Key::KeyQ),
        ("keyw"@, Key::KeyW),
        ("keye"@, Key::KeyE),
        ("keyr"@, Key::KeyR),
        ("keyt"@, Key::KeyT),
        ("keyy"@, Key::KeyY),
        ("keyu"@, Key::KeyU),
        ("keyi"@, Key::KeyI),
        ("keyo"@, Key::KeyO),
        ("keyp"@, Key::KeyP),
        ("bracketleft"@, Key::LeftBracket),
        ("bracketright"@, Key::RightBracket),
        ("keya"@, Key::KeyA),
        ("keys"@, Key::KeyS),
        ("keyd"@, Key::KeyD),
        ("keyf"@, Key::KeyF),
        ("keyg"@, Key::KeyG),
        ("keyh"@, Key::KeyH),
        ("keyj"@, Key::KeyJ),
        ("keyk"@, Key::KeyK),
        ("keyl"@, Key::KeyL),
        ("semicolon"@, Key::SemiColon),
        ("quote"@, Key::Quote),
        ("backslash"@, Key::BackSlash),
        ("intlbackslash"@, Key::IntlBackslash),
        ("keyz"@, Key::KeyZ),
        ("keyx"@, Key::KeyX),
        ("keyc"@, Key::KeyC),
        ("keyv"@, Key::KeyV),
        ("keyb"@, Key::KeyB),
        ("keyn"@, Key::KeyN),
        ("keym"@, Key::KeyM),
        ("comma"@, Key::Comma),
        ("period"@, Key::Dot),
        ("slash"@, Key::Slash),
        ("insert"@, Key::Insert),
        ("numpadenter"@, Key::KpReturn),
        ("numpadsubtract"@, Key::KpMinus),
        ("numpadadd"@, Key::KpPlus),
        ("numpadmultiply"@, Key::KpMultiply),
        ("numpaddivide"@, Key::KpDivide),
        ("numpad0"@, Key::Kp0),
        ("numpad1"@, Key::Kp1),
        ("numpad2"@, Key::Kp2),
        ("numpad3"@, Key::Kp3),
        ("numpad4"@, Key::Kp4),
        ("numpad5"@, Key::Kp5),
        ("numpad6"@, Key::Kp6),
        ("numpad7"@, Key::Kp7),
        ("numpad8"@, Key::Kp8),
        ("numpad9"@, Key::Kp9),
        ("numpaddelete"@, Key::KpDelete),
        ("f"@, Key::Function),
    ]
}

/// Row `i` of the symbol table, as executable data.
pub fn key_table_row(i: usize) -> (row: (&'static str, Key))
    requires
        i < KEY_TABLE_ROWS,
    ensures
        row.0@ == key_table()[i as int].0,
        row.1 == key_table()[i as int].1,
{
    match i {
        0 => ("altleft", Key::Alt),
        1 => ("altright", Key::Alt),
        2 => ("altgraph", Key::AltGr),
        3 => ("backspace", Key::Backspace),
        4 => ("capslock", Key::CapsLock),
        5 => ("controlleft", Key::ControlLeft),
        6 => ("controlright", Key::ControlRight),
        7 => ("delete", Key::Delete),
        8 => ("arrowdown", Key::DownArrow),
        9 => ("end", Key::End),
        10 => ("escape", Key::Escape),
        11 => ("f1", Key::F1),
        12 => ("f10", Key::F10),
        13 => ("f11", Key::F11),
        14 => ("f12", Key::F12),
        15 => ("f2", Key::F2),
        16 => ("f3", Key::F3),
        17 => ("f4", Key::F4),
        18 => ("f5", Key::F5),
        19 => ("f6", Key::F6),
        20 => ("f7", Key::F7),
        21 => ("f8", Key::F8),
        22 => ("f9", Key::F9),
        23 => ("home", Key::Home),
        24 => ("arrowleft", Key::LeftArrow),
        25 => ("metaleft", Key::MetaLeft),
        26 => ("metaright", Key::MetaRight),
        27 => ("pagedown", Key::PageDown),
        28 => ("pageup", Key::PageUp),
        29 => ("enter", Key::Return),
        30 => ("arrowright", Key::RightArrow),
        31 => ("shiftleft", Key::ShiftLeft),
        32 => ("shiftright", Key::ShiftRight),
        33 => ("space", Key::Space),
        34 => ("tab", Key::Tab),
        35 => ("arrowup", Key::UpArrow),
        36 => ("printscreen", Key::PrintScreen),
        37 => ("scrolllock", Key::ScrollLock),
        38 => ("pause", Key::Pause),
        39 => ("numlock", Key::NumLock),
        40 => ("backquote", Key::BackQuote),
        41 => ("digit1", Key::Num1),
        42 => ("digit2", Key::Num2),
        43 => ("digit3", Key::Num3),
        44 => ("digit4", Key::Num4),
        45 => ("digit5", Key::Num5),
        46 => ("digit6", Key::Num6),
        47 => ("digit7", Key::Num7),
        48 => ("digit8", Key::Num8),
        49 => ("digit9", Key::Num9),
        50 => ("digit0", Key::Num0),
        51 => ("minus", Key::Minus),
        52 => ("equal", Key::Equal),
        53 => ("keyq", Key::KeyQ),
        54 => ("keyw", Key::KeyW),
        55 => ("keye", Key::KeyE),
        56 => ("keyr", Key::KeyR),
        57 => ("keyt", Key::KeyT),
        58 => ("keyy", Key::KeyY),
        59 => ("keyu", Key::KeyU),
        60 => ("keyi", Key::KeyI),
        61 => ("keyo", Key::KeyO),
        62 => ("keyp", Key::KeyP),
        63 => ("bracketleft", Key::LeftBracket),
        64 => ("bracketright", Key::RightBracket),
        65 => ("keya", Key::KeyA),
        66 => ("keys", Key::KeyS),
        67 => ("keyd", Key::KeyD),
        68 => ("keyf", Key::KeyF),
        69 => ("keyg", Key::KeyG),
        70 => ("keyh", Key::KeyH),
        71 => ("keyj", Key::KeyJ),
        72 => ("keyk", Key::KeyK),
        73 => ("keyl", Key::KeyL),
        74 => ("semicolon", Key::SemiColon),
        75 => ("quote", Key::Quote),
        76 => ("backslash", Key::BackSlash),
        77 => ("intlbackslash", Key::IntlBackslash),
        78 => ("keyz", Key::KeyZ),
        79 => ("keyx", Key::KeyX),
        80 => ("keyc", Key::KeyC),
        81 => ("keyv", Key::KeyV),
        82 => ("keyb", Key::KeyB),
        83 => ("keyn", Key::KeyN),
        84 => ("keym", Key::KeyM),
        85 => ("comma", Key::Comma),
        86 => ("period", Key::Dot),
        87 => ("slash", Key::Slash),
        88 => ("insert", Key::Insert),
        89 => ("numpadenter", Key::KpReturn),
        90 => ("numpadsubtract", Key::KpMinus),
        91 => ("numpadadd", Key::KpPlus),
        92 => ("numpadmultiply", Key::KpMultiply),
        93 => ("numpaddivide", Key::KpDivide),
        94 => ("numpad0", Key::Kp0),
        95 => ("numpad1", Key::Kp1),
        96 => ("numpad2", Key::Kp2),
        97 => ("numpad3", Key::Kp3),
        98 => ("numpad4", Key::Kp4),
        99 => ("numpad5", Key::Kp5),
        100 => ("numpad6", Key::Kp6),
        101 => ("numpad7", Key::Kp7),
        102 => ("numpad8", Key::Kp8),
        103 => ("numpad9", Key::Kp9),
        104 => ("numpaddelete", Key::KpDelete),
        _ => ("f", Key::Function),
    }
}

/// Whether row `i` is the first row of the table that names `code`.
pub open spec fn resolves_at(code: Seq<char>, i: int) -> bool {
    &&& 0 <= i < key_table().len()
    &&& key_table()[i].0 == code
    &&& forall|j: int| 0 <= j < i ==> key_table()[j].0 != code
}

/// Whether some row of the table names `code`.
pub open spec fn is_listed(code: Seq<char>) -> bool {
    exists|i: int| 0 <= i < key_table().len() && key_table()[i].0 == code
}

/// The host key for a symbolic code: the key of the first row that names the
/// code, and the unknown key where no row does.
pub open spec fn key_for(code: Seq<char>) -> Key {
    if exists|i: int| resolves_at(code, i) {
        key_table()[choose|i: int| resolves_at(code, i)].1
    } else {
        unknown_key()
    }
}

/// The table has as many rows as `KEY_TABLE_ROWS` says.
pub proof fn lemma_table_rows()
    ensures
        key_table().len() == KEY_TABLE_ROWS,
{
}

/// A row that names `code` before any other decides the key for `code`.
pub proof fn lemma_first_row_decides(code: Seq<char>, i: int)
    requires
        resolves_at(code, i),
    ensures
        key_for(code) == key_table()[i].1,
{
    let k = choose|k: int| resolves_at(code, k);
    assert(resolves_at(code, k));
    if k < i {
        assert(key_table()[k].0 != code);
    }
    if i < k {
        assert(key_table()[i].0 != code);
    }
}

/// A code that no row names resolves to the unknown key.
pub proof fn lemma_unlisted_code_is_unknown(code: Seq<char>)
    requires
        !is_listed(code),
    ensures
        key_for(code) == unknown_key(),
{
    assert forall|i: int| !resolves_at(code, i) by {
        if 0 <= i < key_table().len() {
            assert(key_table()[i].0 != code);
        }
    }
}

/// Two texts that differ in length or at one of the first 14 places.
spec fn texts_differ(a: Seq<char>, b: Seq<char>) -> bool {
    a.len() != b.len() || a[0] != b[0] || a[1] != b[1] || a[2] != b[2] || a[3] != b[3] || a[4] != b[4] || a[5] != b[5] || a[6] != b[6] || a[7] != b[7] || a[8] != b[8] || a[9] != b[9] || a[10] != b[10] || a[11] != b[11] || a[12] != b[12] || a[13] != b[13]
}

/// No two rows of the table name the same code.
pub proof fn lemma_codes_distinct()
    ensures
        forall|i: int, j: int|
            0 <= i < j < key_table().len() ==> key_table()[i].0 != key_table()[j].0,
{
    reveal_strlit("altleft");
    reveal_strlit("altright");
    reveal_strlit("altgraph");
    reveal_strlit("backspace");
    reveal_strlit("capslock");
    reveal_strlit("controlleft");
    reveal_strlit("controlright");
    reveal_strlit("delete");
    reveal_strlit("arrowdown");
    reveal_strlit("end");
    reveal_strlit("escape");
    reveal_strlit("f1");
    reveal_strlit("f10");
    reveal_strlit("f11");
    reveal_strlit("f12");
    reveal_strlit("f2");
    reveal_strlit("f3");
    reveal_strlit("f4");
    reveal_strlit("f5");
    reveal_strlit("f6");
    reveal_strlit("f7");
    reveal_strlit("f8");
    reveal_strlit("f9");
    reveal_strlit("home");
    reveal_strlit("arrowleft");
    reveal_strlit("metaleft");
    reveal_strlit("metaright");
    reveal_strlit("pagedown");
    reveal_strlit("pageup");
    reveal_strlit("enter");
    reveal_strlit("arrowright");
    reveal_strlit("shiftleft");
    reveal_strlit("shiftright");
    reveal_strlit("space");
    reveal_strlit("tab");
    reveal_strlit("arrowup");
    reveal_strlit("printscreen");
    reveal_strlit("scrolllock");
    reveal_strlit("pause");
    reveal_strlit("numlock");
    reveal_strlit("backquote");
    reveal_strlit("digit1");
    reveal_strlit("digit2");
    reveal_strlit("digit3");
    reveal_strlit("digit4");
    reveal_strlit("digit5");
    reveal_strlit("digit6");
    reveal_strlit("digit7");
    reveal_strlit("digit8");
    reveal_strlit("digit9");
    reveal_strlit("digit0");
    reveal_strlit("minus");
    reveal_strlit("equal");
    reveal_strlit("keyq");
    reveal_strlit("keyw");
    reveal_strlit("keye");
    reveal_strlit("keyr");
    reveal_strlit("keyt");
    reveal_strlit("keyy");
    reveal_strlit("keyu");
    reveal_strlit("keyi");
    reveal_strlit("keyo");
    reveal_strlit("keyp");
    reveal_strlit("bracketleft");
    reveal_strlit("bracketright");
    reveal_strlit("keya");
    reveal_strlit("keys");
    reveal_strlit("keyd");
    reveal_strlit("keyf");
    reveal_strlit("keyg");
    reveal_strlit("keyh");
    reveal_strlit("keyj");
    reveal_strlit("keyk");
    reveal_strlit("keyl");
    reveal_strlit("semicolon");
    reveal_strlit("quote");
    reveal_strlit("backslash");
    reveal_strlit("intlbackslash");
    reveal_strlit("keyz");
    reveal_strlit("keyx");
    reveal_strlit("keyc");
    reveal_strlit("keyv");
    reveal_strlit("keyb");
    reveal_strlit("keyn");
    reveal_strlit("keym");
    reveal_strlit("comma");
    reveal_strlit("period");
    reveal_strlit("slash");
    reveal_strlit("insert");
    reveal_strlit("numpadenter");
    reveal_strlit("numpadsubtract");
    reveal_strlit("numpadadd");
    reveal_strlit("numpadmultiply");
    reveal_strlit("numpaddivide");
    reveal_strlit("numpad0");
    reveal_strlit("numpad1");
    reveal_strlit("numpad2");
    reveal_strlit("numpad3");
    reveal_strlit("numpad4");
    reveal_strlit("numpad5");
    reveal_strlit("numpad6");
    reveal_strlit("numpad7");
    reveal_strlit("numpad8");
    reveal_strlit("numpad9");
    reveal_strlit("numpaddelete");
    reveal_strlit("f");
    assert forall|i: int, j: int| 0 <= i < j < key_table().len() implies key_table()[i].0
        != key_table()[j].0 by {
        assert(texts_differ(key_table()[i].0, key_table()[j].0));
    }
}

/// Whether `code` is one of the two codes of the Alt key, which the table
/// gives one host key.
pub open spec fn is_alt_code(code: Seq<char>) -> bool {
    code == "altleft"@ || code == "altright"@
}

/// Every code of the table resolves to the key of its own row, and never to
/// an unknown key.
pub proof fn lemma_listed_code_resolves(i: int)
    requires
        0 <= i < key_table().len(),
    ensures
        key_for(key_table()[i].0) == key_table()[i].1,
        !(key_for(key_table()[i].0) is Unknown),
{
    lemma_codes_distinct();
    assert(resolves_at(key_table()[i].0, i));
    lemma_first_row_decides(key_table()[i].0, i);
}

/// Two different codes of the table resolve to different keys, unless they are
/// the two codes of the Alt key.
pub proof fn lemma_listed_keys_distinct(a: Seq<char>, b: Seq<char>)
    requires
        is_listed(a),
        is_listed(b),
        a != b,
        !(is_alt_code(a) && is_alt_code(b)),
    ensures
        key_for(a) != key_for(b),
        !(key_for(a) is Unknown),
        !(key_for(b) is Unknown),
{
    let i = choose|i: int| 0 <= i < key_table().len() && key_table()[i].0 == a;
    let j = choose|j: int| 0 <= j < key_table().len() && key_table()[j].0 == b;
    lemma_listed_code_resolves(i);
    lemma_listed_code_resolves(j);
    assert(key_table()[0].0 == "altleft"@);
    assert(key_table()[1].0 == "altright"@);
    assert(i >= 2 || j >= 2);
}

} // verus!
