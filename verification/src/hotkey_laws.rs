//! Writing a hotkey and reading it back.

use crate::hotkey;
use crate::hotkey::{Hotkey, HotkeyError, HotkeyKey, ModifierMask, PartialHotkey};
use crate::text;
use vstd::prelude::*;

verus! {

/// The keys that a hotkey can have.
pub open spec fn spellable(usage: u16) -> bool {
    0x04 <= usage <= 0x2c || 0x3a <= usage <= 0x45 || 0x49 <= usage <= 0x52 || 0x68 <= usage <= 0x73
}

/// Whether a word stays as it is when a part of a hotkey is put in normal form.
spec fn plain(word: Seq<char>) -> bool {
    &&& word.len() > 0
    &&& forall|i: int|
        0 <= i < word.len() ==> #[trigger] word[i] != '+' && !text::white_space(word[i])
            && text::lower(word[i]) == word[i]
}

proof fn lemma_plain_is_normal(word: Seq<char>)
    requires
        plain(word),
    ensures
        hotkey::normal_part(word) == word,
{
    assert(!text::white_space(word[0]));
    assert(text::trimmed_start(word) == word);
    assert(!text::white_space(word[word.len() - 1]));
    assert(text::lowered(word) =~= word);
}

proof fn lemma_modifier_words()
    ensures
        plain("ctrl"@),
        plain("alt"@),
        plain("shift"@),
        plain("meta"@),
        hotkey::named_modifier("ctrl"@) == Some(ModifierMask(1)),
        hotkey::named_modifier("alt"@) == Some(ModifierMask(2)),
        hotkey::named_modifier("shift"@) == Some(ModifierMask(4)),
        hotkey::named_modifier("meta"@) == Some(ModifierMask(8)),
{
    reveal_strlit("ctrl");
    reveal_strlit("control");
    reveal_strlit("alt");
    reveal_strlit("option");
    reveal_strlit("shift");
    reveal_strlit("meta");
    assert("alt"@.len() != "ctrl"@.len() && "alt"@.len() != "control"@.len());
    assert("shift"@.len() != "ctrl"@.len() && "shift"@[0] != "control"@[0] && "shift"@[0]
        != "alt"@[0] && "shift"@[0] != "option"@[0]);
    assert("meta"@[0] != "ctrl"@[0] && "meta"@[0] != "control"@[0] && "meta"@[0] != "alt"@[0]
        && "meta"@[0] != "option"@[0] && "meta"@[0] != "shift"@[0]);
}

/// A word of the given length and first characters is no modifier.
proof fn lemma_not_a_modifier(word: Seq<char>)
    requires
        word.len() > 0,
        word.len() == 1 || word[0] == 'e' || word[0] == 'b' || word[0] == 't' || word[0] == 'f'
            || word[0] == 'd' || word[0] == 'i' || word[0] == 'h' || word[0] == 'p' || word[0]
            == 'r' || word[0] == 'l' || word[0] == 'u' || (word[0] == 's' && word.len() > 1
            && word[1] == 'p'),
    ensures
        hotkey::named_modifier(word) is None,
{
    reveal_strlit("ctrl");
    reveal_strlit("control");
    reveal_strlit("alt");
    reveal_strlit("option");
    reveal_strlit("shift");
    reveal_strlit("meta");
    reveal_strlit("cmd");
    reveal_strlit("command");
    reveal_strlit("win");
    reveal_strlit("super");
    assert("shift"@[1] != 'p' && "super"@[1] != 'p');
}

proof fn lemma_plain_names()
    ensures
        plain("enter"@),
        plain("esc"@),
        plain("backspace"@),
        plain("tab"@),
        plain("space"@),
        plain("insert"@),
        plain("home"@),
        plain("pageup"@),
        plain("delete"@),
        plain("end"@),
        plain("pagedown"@),
        plain("right"@),
        plain("left"@),
        plain("down"@),
        plain("up"@),
{
    assert(plain("enter"@)) by { reveal_strlit("enter"); }
    assert(plain("esc"@)) by { reveal_strlit("esc"); }
    assert(plain("backspace"@)) by { reveal_strlit("backspace"); }
    assert(plain("tab"@)) by { reveal_strlit("tab"); }
    assert(plain("space"@)) by { reveal_strlit("space"); }
    assert(plain("insert"@)) by { reveal_strlit("insert"); }
    assert(plain("home"@)) by { reveal_strlit("home"); }
    assert(plain("pageup"@)) by { reveal_strlit("pageup"); }
    assert(plain("delete"@)) by { reveal_strlit("delete"); }
    assert(plain("end"@)) by { reveal_strlit("end"); }
    assert(plain("pagedown"@)) by { reveal_strlit("pagedown"); }
    assert(plain("right"@)) by { reveal_strlit("right"); }
    assert(plain("left"@)) by { reveal_strlit("left"); }
    assert(plain("down"@)) by { reveal_strlit("down"); }
    assert(plain("up"@)) by { reveal_strlit("up"); }
}

proof fn lemma_special_word(usage: u16)
    requires
        0x28 <= usage <= 0x2c || 0x49 <= usage <= 0x52,
    ensures
        plain(hotkey::key_text(usage)),
        hotkey::character_key(hotkey::key_text(usage)) is None,
        hotkey::special_key(hotkey::key_text(usage)) == Some(usage),
        hotkey::named_modifier(hotkey::key_text(usage)) is None,
{
    let word = hotkey::key_text(usage);
    lemma_plain_names();
    reveal_strlit("esc");
    reveal_strlit("escape");
    reveal_strlit("enter");
    reveal_strlit("return");
    reveal_strlit("tab");
    reveal_strlit("space");
    reveal_strlit("backspace");
    reveal_strlit("delete");
    reveal_strlit("insert");
    reveal_strlit("home");
    reveal_strlit("end");
    reveal_strlit("pageup");
    reveal_strlit("pagedown");
    reveal_strlit("right");
    reveal_strlit("left");
    reveal_strlit("down");
    reveal_strlit("up");
    assert("esc"@[1] == 's' && "end"@[1] == 'n' && "tab"@[1] == 'a');
    assert("home"@[0] == 'h' && "left"@[0] == 'l' && "down"@[0] == 'd');
    assert("enter"@[0] == 'e' && "space"@[0] == 's' && "right"@[0] == 'r');
    assert("return"@[0] == 'r' && "delete"@[0] == 'd' && "escape"@[0] == 'e' && "insert"@[0] == 'i'
        && "pageup"@[0] == 'p');
    assert(word.len() > 1);
    lemma_not_a_modifier(word);
}

proof fn lemma_function_words(usage: u16)
    requires
        0x3a <= usage <= 0x45 || 0x68 <= usage <= 0x73,
    ensures
        plain(hotkey::key_text(usage)),
        hotkey::named_key(hotkey::key_text(usage)) == Ok::<u16, HotkeyError>(usage),
        hotkey::named_modifier(hotkey::key_text(usage)) is None,
{
    let n: nat = if usage <= 0x45 {
        (usage - 0x3a + 1) as nat
    } else {
        (usage - 0x68 + 13) as nat
    };
    let word = hotkey::key_text(usage);
    let digits = text::decimal_text(n);
    reveal_with_fuel(text::decimal_text, 3);
    reveal_with_fuel(text::decimal_value, 4);
    assert(word =~= seq!['f'] + digits);
    assert(word.drop_first() =~= digits);
    if n < 10 {
        assert(digits =~= seq![text::digit_char(n as int)]);
        assert(digits.drop_last() =~= Seq::<char>::empty());
    } else {
        assert(digits =~= seq![text::digit_char((n / 10) as int), text::digit_char((n % 10) as int)]);
        assert(digits.drop_last() =~= seq![text::digit_char((n / 10) as int)]);
        assert(digits.drop_last().drop_last() =~= Seq::<char>::empty());
    }
    assert(text::decimal_value(digits) == n);
    assert(text::all_digits(digits));
    assert(text::unsigned_digits(digits) == digits);
    reveal_strlit("esc");
    reveal_strlit("escape");
    reveal_strlit("enter");
    reveal_strlit("return");
    reveal_strlit("tab");
    reveal_strlit("space");
    reveal_strlit("backspace");
    reveal_strlit("delete");
    reveal_strlit("insert");
    reveal_strlit("home");
    reveal_strlit("end");
    reveal_strlit("pageup");
    reveal_strlit("pagedown");
    reveal_strlit("right");
    reveal_strlit("left");
    reveal_strlit("down");
    reveal_strlit("up");
    assert(word[0] == 'f');
    lemma_not_a_modifier(word);
}

/// The name of a key that a hotkey can have is read as that key.
pub proof fn key_text_names_its_key(usage: u16)
    requires
        spellable(usage),
    ensures
        hotkey::named_key(hotkey::key_text(usage)) == Ok::<u16, HotkeyError>(usage),
{
    lemma_key_word(usage);
}

proof fn lemma_key_word(usage: u16)
    requires
        spellable(usage),
    ensures
        plain(hotkey::key_text(usage)),
        hotkey::named_key(hotkey::key_text(usage)) == Ok::<u16, HotkeyError>(usage),
        hotkey::named_modifier(hotkey::key_text(usage)) is None,
{
    let word = hotkey::key_text(usage);
    if usage <= 0x27 {
        assert(word.len() == 1);
        lemma_not_a_modifier(word);
    } else if usage <= 0x2c || 0x49 <= usage <= 0x52 {
        lemma_special_word(usage);
    } else {
        lemma_function_words(usage);
    }
}

/// The usage of a key by its name, told by the length and a few letters.
spec fn key_named(word: Seq<char>) -> int {
    if word.len() == 1 {
        if 'a' <= word[0] <= 'z' {
            0x04 + (word[0] as int - 'a' as int)
        } else if word[0] == '0' {
            0x27
        } else {
            0x1e + (word[0] as int - '1' as int)
        }
    } else if word[0] == 'f' {
        let n = text::decimal_value(word.skip(1));
        if n <= 12 {
            0x3a + n - 1
        } else {
            0x68 + n - 13
        }
    } else if word[0] == 'h' && word[1] == 'i' {
        text::decimal_value(word.skip(4))
    } else {
        word_key(word)
    }
}

/// The usage of a key whose name is a word.
spec fn word_key(word: Seq<char>) -> int {
    if word.len() == 2 {
        0x52
    } else if word.len() == 3 {
        if word[0] == 'e' && word[1] == 's' {
            0x29
        } else if word[0] == 't' && word[1] == 'a' {
            0x2b
        } else {
            0x4d
        }
    } else if word.len() == 4 {
        if word[0] == 'h' && word[1] == 'o' {
            0x4a
        } else if word[0] == 'l' && word[1] == 'e' {
            0x50
        } else {
            0x51
        }
    } else if word.len() == 5 {
        if word[0] == 'e' && word[1] == 'n' {
            0x28
        } else if word[0] == 's' && word[1] == 'p' {
            0x2c
        } else if word[0] == 'm' && word[1] == 'i' {
            0x2d
        } else if word[0] == 'e' && word[1] == 'q' {
            0x2e
        } else if word[0] == 'g' && word[1] == 'r' {
            0x35
        } else if word[0] == 'c' && word[1] == 'o' {
            0x36
        } else if word[0] == 's' && word[1] == 'l' {
            0x38
        } else {
            0x4f
        }
    } else if word.len() == 6 {
        if word[0] == 'p' && word[1] == 'e' {
            0x37
        } else if word[0] == 'i' && word[1] == 'n' {
            0x49
        } else if word[0] == 'p' && word[1] == 'a' {
            0x4b
        } else {
            0x4c
        }
    } else if word.len() == 8 {
        0x4e
    } else if word.len() == 9 {
        if word[0] == 'b' && word[1] == 'a' && word[7] == 'c' {
            0x2a
        } else if word[0] == 'b' && word[1] == 'a' && word[7] == 's' {
            0x31
        } else if word[0] == 's' && word[1] == 'e' {
            0x33
        } else if word[0] == 'c' && word[1] == 'a' {
            0x39
        } else {
            0xe0
        }
    } else if word.len() == 10 {
        if word[0] == 'a' && word[1] == 'p' {
            0x34
        } else if word[0] == 'l' && word[1] == 'e' {
            0xe1
        } else {
            0xe4
        }
    } else if word.len() == 11 {
        if word[0] == 'l' && word[1] == 'e' {
            0xe2
        } else {
            0xe5
        }
    } else if word.len() == 12 {
        if word[0] == 'l' && word[1] == 'e' && word[7] == 'a' {
            0x2f
        } else if word[0] == 'l' && word[1] == 'e' && word[7] == 'm' {
            0xe3
        } else {
            0xe6
        }
    } else if word.len() == 13 {
        if word[0] == 'r' && word[1] == 'i' && word[7] == 'r' {
            0x30
        } else {
            0xe7
        }
    } else {
        0
    }
}

proof fn lemma_word_key(usage: u16)
    requires
        0x28 <= usage <= 0x31 || 0x33 <= usage <= 0x39 || 0x49 <= usage <= 0x52 || 0xe0 <= usage
            <= 0xe7,
    ensures
        hotkey::key_text(usage).len() > 1,
        hotkey::key_text(usage)[0] != 'f',
        hotkey::key_text(usage)[1] != 'i' || hotkey::key_text(usage)[0] != 'h',
        word_key(hotkey::key_text(usage)) == usage,
{
    if usage == 0x28 {
        reveal_strlit("enter");
    } else if usage == 0x29 {
        reveal_strlit("esc");
    } else if usage == 0x2a {
        reveal_strlit("backspace");
    } else if usage == 0x2b {
        reveal_strlit("tab");
    } else if usage == 0x2c {
        reveal_strlit("space");
    } else if usage == 0x2d {
        reveal_strlit("minus");
    } else if usage == 0x2e {
        reveal_strlit("equal");
    } else if usage == 0x2f {
        reveal_strlit("left_bracket");
    } else if usage == 0x30 {
        reveal_strlit("right_bracket");
    } else if usage == 0x31 {
        reveal_strlit("backslash");
    } else if usage == 0x33 {
        reveal_strlit("semicolon");
    } else if usage == 0x34 {
        reveal_strlit("apostrophe");
    } else if usage == 0x35 {
        reveal_strlit("grave");
    } else if usage == 0x36 {
        reveal_strlit("comma");
    } else if usage == 0x37 {
        reveal_strlit("period");
    } else if usage == 0x38 {
        reveal_strlit("slash");
    } else if usage == 0x39 {
        reveal_strlit("caps_lock");
    } else if usage == 0x49 {
        reveal_strlit("insert");
    } else if usage == 0x4a {
        reveal_strlit("home");
    } else if usage == 0x4b {
        reveal_strlit("pageup");
    } else if usage == 0x4c {
        reveal_strlit("delete");
    } else if usage == 0x4d {
        reveal_strlit("end");
    } else if usage == 0x4e {
        reveal_strlit("pagedown");
    } else if usage == 0x4f {
        reveal_strlit("right");
    } else if usage == 0x50 {
        reveal_strlit("left");
    } else if usage == 0x51 {
        reveal_strlit("down");
    } else if usage == 0x52 {
        reveal_strlit("up");
    } else if usage == 0xe0 {
        reveal_strlit("left_ctrl");
    } else if usage == 0xe1 {
        reveal_strlit("left_shift");
    } else if usage == 0xe2 {
        reveal_strlit("left_option");
    } else if usage == 0xe3 {
        reveal_strlit("left_command");
    } else if usage == 0xe4 {
        reveal_strlit("right_ctrl");
    } else if usage == 0xe5 {
        reveal_strlit("right_shift");
    } else if usage == 0xe6 {
        reveal_strlit("right_option");
    } else if usage == 0xe7 {
        reveal_strlit("right_command");
    }
}

proof fn lemma_decimal_read_back(n: nat)
    ensures
        text::decimal_value(text::decimal_text(n)) == n,
        text::decimal_text(n).len() > 0,
{
    text::lemma_decimal_digits(n);
}

proof fn lemma_key_named(usage: u16)
    ensures
        key_named(hotkey::key_text(usage)) == usage,
{
    let word = hotkey::key_text(usage);
    if 0x3a <= usage <= 0x45 || 0x68 <= usage <= 0x73 {
        let n: nat = if usage <= 0x45 {
            (usage - 0x3a + 1) as nat
        } else {
            (usage - 0x68 + 13) as nat
        };
        lemma_decimal_read_back(n);
        assert(word.skip(1) =~= text::decimal_text(n));
        assert(word[0] == 'f');
    } else if 0x04 <= usage <= 0x27 {
        assert(word.len() == 1);
    } else if 0x28 <= usage <= 0x31 || 0x33 <= usage <= 0x39 || 0x49 <= usage <= 0x52 || 0xe0
        <= usage <= 0xe7 {
        lemma_word_key(usage);
    } else {
        reveal_strlit("hid-");
        lemma_decimal_read_back(usage as nat);
        assert(word.skip(4) =~= text::decimal_text(usage as nat));
        assert(word[0] == 'h' && word[1] == 'i');
    }
}

/// No two keys share a name.
pub proof fn key_names_are_distinct(first: u16, second: u16)
    requires
        hotkey::key_text(first) == hotkey::key_text(second),
    ensures
        first == second,
{
    lemma_key_named(first);
    lemma_key_named(second);
}

proof fn lemma_no_separator(word: Seq<char>)
    requires
        forall|i: int| 0 <= i < word.len() ==> #[trigger] word[i] != '+',
    ensures
        text::split_at(word, '+') == seq![word],
    decreases word.len(),
{
    if word.len() > 0 {
        lemma_no_separator(word.drop_last());
        assert(word[word.len() - 1] != '+');
        assert(text::split_at(word, '+') =~= seq![word.drop_last().push(word.last())]);
        assert(word.drop_last().push(word.last()) =~= word);
    } else {
        assert(word =~= Seq::<char>::empty());
    }
}

proof fn lemma_split_after_word(word: Seq<char>, rest: Seq<char>)
    requires
        forall|i: int| 0 <= i < word.len() ==> #[trigger] word[i] != '+',
    ensures
        text::split_at(word + seq!['+'] + rest, '+') == seq![word] + text::split_at(rest, '+'),
        text::split_at(rest, '+').len() > 0,
    decreases rest.len(),
{
    let whole = word + seq!['+'] + rest;
    if rest.len() == 0 {
        lemma_no_separator(word);
        assert(whole.drop_last() =~= word);
        assert(text::split_at(whole, '+') =~= seq![word].push(Seq::empty()));
        assert(rest =~= Seq::<char>::empty());
        assert(seq![word] + text::split_at(rest, '+') =~= seq![word].push(Seq::empty()));
    } else {
        lemma_split_after_word(word, rest.drop_last());
        assert(whole.drop_last() =~= word + seq!['+'] + rest.drop_last());
        assert(text::split_at(whole, '+') =~= seq![word] + text::split_at(rest, '+'));
    }
}

/// The part for a modifier, if it is in the set.
spec fn modifier_part(modifiers: ModifierMask, modifier: ModifierMask, name: Seq<char>) -> Seq<Seq<char>> {
    if modifiers.has_all(modifier) {
        seq![name]
    } else {
        Seq::empty()
    }
}

proof fn lemma_split_modifier(
    modifiers: ModifierMask,
    modifier: ModifierMask,
    name: Seq<char>,
    rest: Seq<char>,
)
    requires
        plain(name),
    ensures
        text::split_at(hotkey::modifier_text(modifiers, modifier, name) + rest, '+')
            == modifier_part(modifiers, modifier, name) + text::split_at(rest, '+'),
{
    if modifiers.has_all(modifier) {
        lemma_split_after_word(name, rest);
    } else {
        assert(Seq::<char>::empty() + rest =~= rest);
        assert(Seq::<Seq<char>>::empty() + text::split_at(rest, '+') =~= text::split_at(rest, '+'));
    }
}

proof fn lemma_read_modifier(
    parts: Seq<Seq<char>>,
    known: u8,
    modifiers: ModifierMask,
    modifier: ModifierMask,
    name: Seq<char>,
)
    requires
        hotkey::read_parts(parts) == Ok::<PartialHotkey, HotkeyError>(
            PartialHotkey { modifiers: ModifierMask(known), key: None },
        ),
        plain(name),
        hotkey::named_modifier(name) == Some(modifier),
        !ModifierMask(known).has_all(modifier),
    ensures
        hotkey::read_parts(parts + modifier_part(modifiers, modifier, name)) == Ok::<
            PartialHotkey,
            HotkeyError,
        >(
            PartialHotkey {
                modifiers: ModifierMask(
                    if modifiers.has_all(modifier) {
                        known | modifier.0
                    } else {
                        known
                    },
                ),
                key: None,
            },
        ),
{
    let grown = parts + modifier_part(modifiers, modifier, name);
    if modifiers.has_all(modifier) {
        assert(grown.drop_last() =~= parts);
        lemma_plain_is_normal(name);
    } else {
        assert(grown =~= parts);
    }
}

proof fn lemma_mask_bits(b: u8)
    by (bit_vector)
    requires
        b < 16,
    ensures
        0u8 & 1 != 1,
        (b & 1) & 2 != 2,
        (b & 3) & 4 != 4,
        (b & 7) & 8 != 8,
        (if b & 1 == 1 { 0u8 | 1 } else { 0u8 }) == b & 1,
        (if b & 2 == 2 { (b & 1) | 2 } else { b & 1 }) == b & 3,
        (if b & 4 == 4 { (b & 3) | 4 } else { b & 3 }) == b & 7,
        (if b & 8 == 8 { (b & 7) | 8 } else { b & 7 }) == b,
{
}

/// The parts of a hotkey's text.
spec fn hotkey_parts(hotkey: Hotkey) -> Seq<Seq<char>> {
    let mask = hotkey.modifiers;
    modifier_part(mask, ModifierMask(1), "ctrl"@) + (modifier_part(mask, ModifierMask(2), "alt"@) + (
    modifier_part(mask, ModifierMask(4), "shift"@) + (modifier_part(mask, ModifierMask(8), "meta"@)
        + seq![hotkey::key_text(hotkey.key.number())])))
}

proof fn lemma_split_hotkey(hotkey: Hotkey)
    requires
        spellable(hotkey.key.number()),
    ensures
        text::split_at(hotkey::hotkey_text(hotkey), '+') == hotkey_parts(hotkey),
{
    let mask = hotkey.modifiers;
    let key = hotkey::key_text(hotkey.key.number());
    let t1 = hotkey::modifier_text(mask, ModifierMask(1), "ctrl"@);
    let t2 = hotkey::modifier_text(mask, ModifierMask(2), "alt"@);
    let t3 = hotkey::modifier_text(mask, ModifierMask(4), "shift"@);
    let t4 = hotkey::modifier_text(mask, ModifierMask(8), "meta"@);
    lemma_modifier_words();
    lemma_key_word(hotkey.key.number());
    lemma_no_separator(key);
    lemma_split_modifier(mask, ModifierMask(8), "meta"@, key);
    lemma_split_modifier(mask, ModifierMask(4), "shift"@, t4 + key);
    lemma_split_modifier(mask, ModifierMask(2), "alt"@, t3 + (t4 + key));
    lemma_split_modifier(mask, ModifierMask(1), "ctrl"@, t2 + (t3 + (t4 + key)));
    vstd::seq_lib::lemma_concat_associative(t1, t2, t3);
    vstd::seq_lib::lemma_concat_associative(t1, t2 + t3, t4);
    vstd::seq_lib::lemma_concat_associative(t2, t3, t4);
    vstd::seq_lib::lemma_concat_associative(t1, t2 + (t3 + t4), key);
    vstd::seq_lib::lemma_concat_associative(t2, t3 + t4, key);
    vstd::seq_lib::lemma_concat_associative(t3, t4, key);
}

proof fn lemma_read_modifiers(mask: ModifierMask)
    requires
        mask.0 < 16,
    ensures
        hotkey::read_parts(
            modifier_part(mask, ModifierMask(1), "ctrl"@) + modifier_part(
                mask,
                ModifierMask(2),
                "alt"@,
            ) + modifier_part(mask, ModifierMask(4), "shift"@) + modifier_part(
                mask,
                ModifierMask(8),
                "meta"@,
            ),
        ) == Ok::<PartialHotkey, HotkeyError>(PartialHotkey { modifiers: mask, key: None }),
{
    let p1 = modifier_part(mask, ModifierMask(1), "ctrl"@);
    let p2 = modifier_part(mask, ModifierMask(2), "alt"@);
    let p3 = modifier_part(mask, ModifierMask(4), "shift"@);
    let none = Seq::<Seq<char>>::empty();
    lemma_modifier_words();
    lemma_mask_bits(mask.0);
    lemma_read_modifier(none, 0, mask, ModifierMask(1), "ctrl"@);
    assert(none + p1 =~= p1);
    lemma_read_modifier(p1, mask.0 & 1, mask, ModifierMask(2), "alt"@);
    lemma_read_modifier(p1 + p2, mask.0 & 3, mask, ModifierMask(4), "shift"@);
    lemma_read_modifier(p1 + p2 + p3, mask.0 & 7, mask, ModifierMask(8), "meta"@);
}

proof fn lemma_read_key(parts: Seq<Seq<char>>, mask: ModifierMask, key: Seq<char>, usage: u16)
    requires
        hotkey::read_parts(parts) == Ok::<PartialHotkey, HotkeyError>(
            PartialHotkey { modifiers: mask, key: None },
        ),
        plain(key),
        hotkey::named_key(key) == Ok::<u16, HotkeyError>(usage),
        hotkey::named_modifier(key) is None,
    ensures
        hotkey::read_parts(parts.push(key)) == Ok::<PartialHotkey, HotkeyError>(
            PartialHotkey { modifiers: mask, key: Some(usage) },
        ),
{
    lemma_plain_is_normal(key);
    assert(parts.push(key).drop_last() =~= parts);
}

proof fn lemma_parts_end_with_key(a: Seq<Seq<char>>, b: Seq<Seq<char>>, c: Seq<Seq<char>>, d: Seq<Seq<char>>, key: Seq<char>)
    ensures
        a + (b + (c + (d + seq![key]))) == (a + b + c + d).push(key),
{
    assert(a + (b + (c + (d + seq![key]))) =~= (a + b + c + d).push(key));
}

/// A hotkey with a modifier and a key that has a name is read back from its text.
pub proof fn hotkey_text_is_read_back(hotkey: Hotkey)
    requires
        0 < hotkey.modifiers.0 < 16,
        spellable(hotkey.key.number()),
    ensures
        hotkey::parsed_hotkey(hotkey::hotkey_text(hotkey)) == Ok::<Hotkey, HotkeyError>(hotkey),
{
    let mask = hotkey.modifiers;
    let key = hotkey::key_text(hotkey.key.number());
    let p1 = modifier_part(mask, ModifierMask(1), "ctrl"@);
    let p2 = modifier_part(mask, ModifierMask(2), "alt"@);
    let p3 = modifier_part(mask, ModifierMask(4), "shift"@);
    let p4 = modifier_part(mask, ModifierMask(8), "meta"@);
    lemma_split_hotkey(hotkey);
    lemma_read_modifiers(mask);
    lemma_key_word(hotkey.key.number());
    lemma_read_key(p1 + p2 + p3 + p4, mask, key, hotkey.key.number());
    lemma_parts_end_with_key(p1, p2, p3, p4, key);
    assert(hotkey.key == HotkeyKey::Hid(hotkey.key.number()));
}

proof fn lemma_read_parts_range(parts: Seq<Seq<char>>)
    ensures
        hotkey::read_parts(parts) matches Ok(known) ==> known.modifiers.0 < 16 && (known.key matches Some(
            usage,
        ) ==> spellable(usage)),
    decreases parts.len(),
{
    if parts.len() > 0 {
        lemma_read_parts_range(parts.drop_last());
        if let Ok(known) = hotkey::read_parts(parts.drop_last()) {
            let b = known.modifiers.0;
            assert(b < 16 ==> (b | 1 < 16 && b | 2 < 16 && b | 4 < 16 && b | 8 < 16)) by (bit_vector);
        }
    }
}

/// Whatever text a hotkey was read from, its own text is read as the same hotkey.
pub proof fn parsed_hotkey_round_trip(value: Seq<char>)
    requires
        hotkey::parsed_hotkey(value) is Ok,
    ensures
        hotkey::parsed_hotkey(hotkey::hotkey_text(hotkey::parsed_hotkey(value)->Ok_0))
            == hotkey::parsed_hotkey(value),
{
    lemma_read_parts_range(text::split_at(value, '+'));
    hotkey_text_is_read_back(hotkey::parsed_hotkey(value)->Ok_0);
}

/// The hotkey that the program uses unless told otherwise.
pub open spec fn default_hotkey() -> Hotkey {
    Hotkey { modifiers: ModifierMask(7), key: HotkeyKey::Hid(0x29) }
}

/// The text of the built-in hotkey is valid, and stands for Escape with three modifiers.
pub proof fn built_in_hotkey_is_valid()
    ensures
        hotkey::parsed_hotkey("ctrl+alt+shift+esc"@) == Ok::<Hotkey, HotkeyError>(default_hotkey()),
{
    let hotkey = default_hotkey();
    hotkey_text_is_read_back(hotkey);
    assert(7u8 & 1 == 1 && 7u8 & 2 == 2 && 7u8 & 4 == 4 && 7u8 & 8 == 0) by (bit_vector);
    reveal_strlit("ctrl");
    reveal_strlit("alt");
    reveal_strlit("shift");
    reveal_strlit("esc");
    reveal_strlit("ctrl+alt+shift+esc");
    assert(hotkey::hotkey_text(hotkey) =~= "ctrl+alt+shift+esc"@);
}

proof fn lemma_lower_keeps_white_space(c: char)
    ensures
        text::white_space(text::lower(c)) == text::white_space(c),
        text::lower(c) == '+' <==> c == '+',
        text::lower(text::lower(c)) == text::lower(c),
{
    assert('A' <= c <= 'Z' ==> text::lower(c) as int == c as int + 32);
}

proof fn lemma_start_of_lowered(value: Seq<char>)
    ensures
        text::trimmed_start(text::lowered(value)) == text::lowered(text::trimmed_start(value)),
    decreases value.len(),
{
    let low = text::lowered(value);
    if value.len() > 0 {
        lemma_lower_keeps_white_space(value[0]);
        if text::white_space(value[0]) {
            lemma_start_of_lowered(value.drop_first());
            assert(low.drop_first() =~= text::lowered(value.drop_first()));
        }
    }
}

proof fn lemma_end_of_lowered(value: Seq<char>)
    ensures
        text::trimmed_end(text::lowered(value)) == text::lowered(text::trimmed_end(value)),
    decreases value.len(),
{
    let low = text::lowered(value);
    if value.len() > 0 {
        lemma_lower_keeps_white_space(value.last());
        if text::white_space(value.last()) {
            lemma_end_of_lowered(value.drop_last());
            assert(low.drop_last() =~= text::lowered(value.drop_last()));
        }
    }
}

proof fn lemma_normal_of_lowered(part: Seq<char>)
    ensures
        hotkey::normal_part(text::lowered(part)) == hotkey::normal_part(part),
{
    lemma_start_of_lowered(part);
    lemma_end_of_lowered(text::trimmed_start(part));
    let kept = text::trimmed(part);
    assert forall|i: int| 0 <= i < kept.len() implies text::lower(text::lower(#[trigger] kept[i]))
        == text::lower(kept[i]) by {
        lemma_lower_keeps_white_space(kept[i]);
    }
    assert(text::lowered(text::lowered(kept)) =~= text::lowered(kept));
}

proof fn lemma_split_of_lowered(value: Seq<char>)
    ensures
        text::split_at(value, '+').len() > 0,
        text::split_at(text::lowered(value), '+').len() == text::split_at(value, '+').len(),
        forall|i: int|
            0 <= i < text::split_at(value, '+').len() ==> #[trigger] text::split_at(
                text::lowered(value),
                '+',
            )[i] == text::lowered(text::split_at(value, '+')[i]),
    decreases value.len(),
{
    let low = text::lowered(value);
    let parts = text::split_at(value, '+');
    let low_parts = text::split_at(low, '+');
    if value.len() == 0 {
        assert(low =~= value);
        assert(parts[0] =~= text::lowered(parts[0]));
    } else {
        let before = text::split_at(value.drop_last(), '+');
        let low_before = text::split_at(text::lowered(value.drop_last()), '+');
        lemma_split_of_lowered(value.drop_last());
        lemma_lower_keeps_white_space(value.last());
        assert(low.drop_last() =~= text::lowered(value.drop_last()));
        assert forall|i: int| 0 <= i < parts.len() implies #[trigger] low_parts[i] == text::lowered(
            parts[i],
        ) by {
            if value.last() == '+' {
                if i < before.len() {
                    assert(low_parts[i] == low_before[i]);
                } else {
                    assert(low_parts[i] =~= text::lowered(parts[i]));
                }
            } else if i < before.len() - 1 {
                assert(low_parts[i] == low_before[i]);
            } else {
                assert(low_before[i] == text::lowered(before[i]));
                assert(low_parts[i] =~= text::lowered(parts[i]));
            }
        }
    }
}

/// Parts that are the same but for the white space around them and the case of their letters are
/// read as the same.
pub proof fn parts_are_read_by_their_normal_form(first: Seq<Seq<char>>, second: Seq<Seq<char>>)
    requires
        first.len() == second.len(),
        forall|i: int|
            0 <= i < first.len() ==> text::lowered(text::trimmed(#[trigger] first[i]))
                == text::lowered(text::trimmed(second[i])),
    ensures
        hotkey::read_parts(first) == hotkey::read_parts(second),
    decreases first.len(),
{
    if first.len() > 0 {
        parts_are_read_by_their_normal_form(first.drop_last(), second.drop_last());
        assert(first[first.len() - 1] == first.last());
    }
}

/// The case of its letters does not matter to a hotkey.
pub proof fn case_does_not_matter(value: Seq<char>)
    ensures
        hotkey::parsed_hotkey(text::lowered(value)) == hotkey::parsed_hotkey(value),
{
    let parts = text::split_at(value, '+');
    let low = text::split_at(text::lowered(value), '+');
    lemma_split_of_lowered(value);
    assert forall|i: int| 0 <= i < low.len() implies text::lowered(text::trimmed(#[trigger] low[i]))
        == text::lowered(text::trimmed(parts[i])) by {
        lemma_normal_of_lowered(parts[i]);
    }
    parts_are_read_by_their_normal_form(low, parts);
}

/// What the part with this number says, once it is in normal form.
pub open spec fn word_of(parts: Seq<Seq<char>>, i: int) -> Seq<char> {
    text::lowered(text::trimmed(parts[i]))
}

/// Whether parts can be those of a hotkey: none is blank, each names a modifier or a key, no
/// modifier is named twice, and no two parts name keys.
pub open spec fn well_written(parts: Seq<Seq<char>>) -> bool {
    &&& forall|i: int|
        #![trigger word_of(parts, i)]
        0 <= i < parts.len() ==> word_of(parts, i).len() > 0 && (hotkey::named_modifier(
            word_of(parts, i),
        ) is Some || hotkey::named_key(word_of(parts, i)) is Ok)
    &&& forall|i: int, j: int|
        #![trigger word_of(parts, i), word_of(parts, j)]
        0 <= i < j < parts.len() ==> hotkey::named_modifier(word_of(parts, i))
            != hotkey::named_modifier(word_of(parts, j))
}

/// Whether some part names this modifier.
pub open spec fn names_modifier(parts: Seq<Seq<char>>, modifier: ModifierMask) -> bool {
    exists|i: int|
        #![trigger word_of(parts, i)]
        0 <= i < parts.len() && hotkey::named_modifier(word_of(parts, i)) == Some(modifier)
}

/// Whether some part names the key with this usage, and no modifier.
pub open spec fn names_key(parts: Seq<Seq<char>>, usage: u16) -> bool {
    exists|i: int|
        #![trigger word_of(parts, i)]
        0 <= i < parts.len() && hotkey::named_modifier(word_of(parts, i)) is None
            && hotkey::named_key(word_of(parts, i)) == Ok::<u16, HotkeyError>(usage)
}

pub open spec fn is_modifier_bit(modifier: ModifierMask) -> bool {
    modifier.0 == 1 || modifier.0 == 2 || modifier.0 == 4 || modifier.0 == 8
}

proof fn lemma_added_bit(known: u8, bit: u8, other: u8)
    by (bit_vector)
    requires
        bit == 1 || bit == 2 || bit == 4 || bit == 8,
        other == 1 || other == 2 || other == 4 || other == 8,
    ensures
        (known | bit) & other == other <==> (known & other == other || bit == other),
        0u8 & other != other,
{
}

proof fn lemma_reads_well_written(parts: Seq<Seq<char>>)
    ensures
        hotkey::read_parts(parts) is Ok <==> well_written(parts),
        hotkey::read_parts(parts) matches Ok(known) ==> {
            &&& forall|modifier: ModifierMask| #[trigger]
                is_modifier_bit(modifier) ==> (known.modifiers.has_all(modifier) <==> names_modifier(
                    parts,
                    modifier,
                ))
            &&& forall|usage: u16|
                known.key == Some(usage) <==> #[trigger] names_key(parts, usage)
        },
    decreases parts.len(),
{
    if parts.len() == 0 {
        assert forall|modifier: ModifierMask| #[trigger] is_modifier_bit(modifier) implies !(
        ModifierMask(0).has_all(modifier)) by {
            lemma_added_bit(0, 1, modifier.0);
        }
    } else {
        let rest = parts.drop_last();
        let last = parts.len() - 1;
        let word = word_of(parts, last);
        lemma_reads_well_written(rest);
        assert forall|i: int| 0 <= i < rest.len() implies #[trigger] word_of(rest, i) == word_of(
            parts,
            i,
        ) by {
            assert(rest[i] == parts[i]);
        }
        assert(word == hotkey::normal_part(parts.last()));
        if well_written(parts) {
            assert forall|i: int| #![trigger word_of(rest, i)] 0 <= i < rest.len() implies word_of(
                rest,
                i,
            ).len() > 0 && (hotkey::named_modifier(word_of(rest, i)) is Some || hotkey::named_key(
                word_of(rest, i),
            ) is Ok) by {
                assert(word_of(rest, i) == word_of(parts, i));
            }
            assert forall|i: int, j: int|
                #![trigger word_of(rest, i), word_of(rest, j)]
                0 <= i < j < rest.len() implies hotkey::named_modifier(word_of(rest, i))
                != hotkey::named_modifier(word_of(rest, j)) by {
                assert(word_of(rest, i) == word_of(parts, i));
                assert(word_of(rest, j) == word_of(parts, j));
            }
            assert(well_written(rest));
        }
        if let Ok(known) = hotkey::read_parts(rest) {
            lemma_grown_names(parts);
            if let Some(modifier) = hotkey::named_modifier(word) {
                assert(is_modifier_bit(modifier));
                assert(hotkey::read_parts(parts) is Ok ==> well_written(parts)) by {
                    if hotkey::read_parts(parts) is Ok {
                        lemma_last_fits(parts);
                    }
                }
                assert(well_written(parts) ==> !names_modifier(rest, modifier)) by {
                    if well_written(parts) && names_modifier(rest, modifier) {
                        let i = choose|i: int|
                            #![trigger word_of(rest, i)]
                            0 <= i < rest.len() && hotkey::named_modifier(word_of(rest, i)) == Some(
                                modifier,
                            );
                        assert(word_of(rest, i) == word_of(parts, i));
                        assert(word_of(parts, last) == word);
                    }
                }
                if let Ok(next) = hotkey::read_parts(parts) {
                    assert forall|other: ModifierMask| #[trigger] is_modifier_bit(other) implies (
                    next.modifiers.has_all(other) <==> names_modifier(parts, other)) by {
                        lemma_added_bit(known.modifiers.0, modifier.0, other.0);
                    }
                    assert forall|usage: u16| next.key == Some(usage) <==> #[trigger] names_key(
                        parts,
                        usage,
                    ) by {
                        assert(known.key == Some(usage) <==> names_key(rest, usage));
                    }
                }
            } else {
                assert(hotkey::read_parts(parts) is Ok ==> well_written(parts)) by {
                    if hotkey::read_parts(parts) is Ok {
                        lemma_last_fits(parts);
                    }
                }
                assert(well_written(parts) ==> known.key is None) by {
                    if well_written(parts) && known.key is Some {
                        let usage = known.key->0;
                        assert(names_key(rest, usage));
                        let i = choose|i: int|
                            #![trigger word_of(rest, i)]
                            0 <= i < rest.len() && hotkey::named_modifier(word_of(rest, i)) is None
                                && hotkey::named_key(word_of(rest, i)) == Ok::<u16, HotkeyError>(
                                usage,
                            );
                        assert(word_of(rest, i) == word_of(parts, i));
                        assert(word_of(parts, last) == word);
                    }
                }
                if let Ok(next) = hotkey::read_parts(parts) {
                    assert forall|usage: u16| next.key == Some(usage) <==> #[trigger] names_key(
                        parts,
                        usage,
                    ) by {
                        assert(known.key == Some(usage) <==> names_key(rest, usage));
                    }
                }
            }
        }
    }
}

proof fn lemma_grown_names(parts: Seq<Seq<char>>)
    requires
        parts.len() > 0,
    ensures
        ({
            let rest = parts.drop_last();
            let word = word_of(parts, parts.len() - 1);
            &&& forall|modifier: ModifierMask| #[trigger]
                names_modifier(parts, modifier) <==> (names_modifier(rest, modifier)
                    || hotkey::named_modifier(word) == Some(modifier))
            &&& forall|usage: u16| #[trigger]
                names_key(parts, usage) <==> (names_key(rest, usage) || (hotkey::named_modifier(
                    word,
                ) is None && hotkey::named_key(word) == Ok::<u16, HotkeyError>(usage)))
        }),
{
    let rest = parts.drop_last();
    let last = parts.len() - 1;
    assert forall|i: int| 0 <= i < rest.len() implies #[trigger] word_of(rest, i) == word_of(
        parts,
        i,
    ) by {
        assert(rest[i] == parts[i]);
    }
    assert forall|modifier: ModifierMask| #[trigger] names_modifier(parts, modifier) <==> (
    names_modifier(rest, modifier) || hotkey::named_modifier(word_of(parts, last)) == Some(
        modifier,
    )) by {
        if names_modifier(rest, modifier) {
            let i = choose|i: int|
                #![trigger word_of(rest, i)]
                0 <= i < rest.len() && hotkey::named_modifier(word_of(rest, i)) == Some(modifier);
            assert(word_of(rest, i) == word_of(parts, i));
        }
        if names_modifier(parts, modifier) {
            let i = choose|i: int|
                #![trigger word_of(parts, i)]
                0 <= i < parts.len() && hotkey::named_modifier(word_of(parts, i)) == Some(modifier);
            if i < last {
                assert(word_of(rest, i) == word_of(parts, i));
            }
        }
    }
    assert forall|usage: u16| #[trigger] names_key(parts, usage) <==> (names_key(rest, usage) || (
    hotkey::named_modifier(word_of(parts, last)) is None && hotkey::named_key(word_of(parts, last))
        == Ok::<u16, HotkeyError>(usage))) by {
        if names_key(rest, usage) {
            let i = choose|i: int|
                #![trigger word_of(rest, i)]
                0 <= i < rest.len() && hotkey::named_modifier(word_of(rest, i)) is None
                    && hotkey::named_key(word_of(rest, i)) == Ok::<u16, HotkeyError>(usage);
            assert(word_of(rest, i) == word_of(parts, i));
        }
        if names_key(parts, usage) {
            let i = choose|i: int|
                #![trigger word_of(parts, i)]
                0 <= i < parts.len() && hotkey::named_modifier(word_of(parts, i)) is None
                    && hotkey::named_key(word_of(parts, i)) == Ok::<u16, HotkeyError>(usage);
            if i < last {
                assert(word_of(rest, i) == word_of(parts, i));
            }
        }
    }
}

proof fn lemma_last_fits(parts: Seq<Seq<char>>)
    requires
        parts.len() > 0,
        well_written(parts.drop_last()),
        hotkey::read_parts(parts) is Ok,
        hotkey::read_parts(parts.drop_last()) matches Ok(known) && (forall|modifier: ModifierMask|
            #[trigger]
            is_modifier_bit(modifier) ==> (known.modifiers.has_all(modifier) <==> names_modifier(
                parts.drop_last(),
                modifier,
            ))) && (forall|usage: u16|
            known.key == Some(usage) <==> #[trigger] names_key(parts.drop_last(), usage)),
    ensures
        well_written(parts),
{
    let rest = parts.drop_last();
    let last = parts.len() - 1;
    let word = word_of(parts, last);
    let known = hotkey::read_parts(rest)->Ok_0;
    assert forall|i: int| 0 <= i < rest.len() implies #[trigger] word_of(rest, i) == word_of(
        parts,
        i,
    ) by {
        assert(rest[i] == parts[i]);
    }
    assert(word == hotkey::normal_part(parts.last()));
    assert forall|i: int|
        #![trigger word_of(parts, i)]
        0 <= i < parts.len() implies word_of(parts, i).len() > 0 && (hotkey::named_modifier(
        word_of(parts, i),
    ) is Some || hotkey::named_key(word_of(parts, i)) is Ok) by {
        if i < last {
            assert(word_of(rest, i) == word_of(parts, i));
        }
    }
    assert forall|i: int, j: int|
        #![trigger word_of(parts, i), word_of(parts, j)]
        0 <= i < j < parts.len() implies hotkey::named_modifier(word_of(parts, i))
        != hotkey::named_modifier(word_of(parts, j)) by {
        assert(word_of(rest, i) == word_of(parts, i));
        if j < last {
            assert(word_of(rest, j) == word_of(parts, j));
        } else if let Some(modifier) = hotkey::named_modifier(word) {
            if hotkey::named_modifier(word_of(parts, i)) == Some(modifier) {
                assert(names_modifier(rest, modifier));
                assert(is_modifier_bit(modifier));
            }
        } else if hotkey::named_modifier(word_of(parts, i)) is None {
            let usage = hotkey::named_key(word_of(rest, i))->Ok_0;
            assert(names_key(rest, usage));
            assert(known.key == Some(usage));
        }
    }
}

/// A text is a hotkey exactly if its parts can be those of one, and one of them names a modifier
/// and one a key. The hotkey then has the modifiers that are named, and no others, and the key
/// that is named, in whatever order they stand.
pub proof fn hotkeys_are_what_their_parts_name(value: Seq<char>)
    ensures
        ({
            let parts = text::split_at(value, '+');
            &&& hotkey::parsed_hotkey(value) is Ok <==> well_written(parts) && (
            exists|modifier: ModifierMask| #[trigger]
                is_modifier_bit(modifier) && names_modifier(parts, modifier)) && (exists|usage: u16|
                #[trigger] names_key(parts, usage))
            &&& hotkey::parsed_hotkey(value) matches Ok(hotkey) ==> {
                &&& forall|modifier: ModifierMask| #[trigger]
                    is_modifier_bit(modifier) ==> (hotkey.modifiers.has_all(modifier)
                        <==> names_modifier(parts, modifier))
                &&& names_key(parts, hotkey.key.number())
                &&& 0 < hotkey.modifiers.0 < 16
            }
        }),
{
    let parts = text::split_at(value, '+');
    lemma_reads_well_written(parts);
    lemma_read_parts_range(parts);
    if let Ok(known) = hotkey::read_parts(parts) {
        let b = known.modifiers.0;
        assert(b == 0 <==> (b & 1 != 1 && b & 2 != 2 && b & 4 != 4 && b & 8 != 8)) by (bit_vector)
            requires
                b < 16,
        ;
        assert(is_modifier_bit(ModifierMask(1)) && is_modifier_bit(ModifierMask(2)));
        assert(is_modifier_bit(ModifierMask(4)) && is_modifier_bit(ModifierMask(8)));
        if let Some(usage) = known.key {
            assert(names_key(parts, usage));
        }
    }
}

/// What is wrong with a text is said of the first part at which something is: that it is blank,
/// names a modifier again, comes as a key after another, or names no key. Without such a part the
/// modifier is missed before the key.
pub proof fn first_mistake_is_reported(parts: Seq<Seq<char>>, k: int)
    requires
        0 <= k < parts.len(),
        well_written(parts.take(k)),
        !well_written(parts.take(k + 1)),
    ensures
        hotkey::read_parts(parts) matches Err(error) && ({
            let word = word_of(parts, k);
            let before = parts.take(k);
            if word.len() == 0 {
                error is BlankPart
            } else if hotkey::named_modifier(word) is Some {
                error is DuplicateModifier && names_modifier(before, hotkey::named_modifier(word)->0)
            } else if exists|usage: u16| #[trigger] names_key(before, usage) {
                error is SecondKey
            } else {
                hotkey::named_key(word) == Err::<u16, HotkeyError>(error)
            }
        }),
{
    let before = parts.take(k);
    let upto = parts.take(k + 1);
    assert(upto.drop_last() =~= before);
    assert(upto.last() == parts[k]);
    lemma_reads_well_written(before);
    lemma_reads_well_written(upto);
    hotkey::lemma_error_stays(parts, k + 1);
    if let Ok(known) = hotkey::read_parts(before) {
        if let Some(usage) = known.key {
            assert(names_key(before, usage));
        }
        if let Some(modifier) = hotkey::named_modifier(word_of(parts, k)) {
            assert(is_modifier_bit(modifier));
        }
    }
}

/// Letters, digits and function keys have their usages in their own order, one after the other,
/// with the zero behind the nine; the function keys above the twelfth are a row of their own.
pub proof fn keys_of_a_row_follow_each_other(c: char, number: u16)
    ensures
        'a' <= c <= 'z' ==> hotkey::named_key(seq![c]) == Ok::<u16, HotkeyError>(
            (0x04 + (c as int - 'a' as int)) as u16,
        ),
        '1' <= c <= '9' ==> hotkey::named_key(seq![c]) == Ok::<u16, HotkeyError>(
            (0x1e + (c as int - '1' as int)) as u16,
        ),
        hotkey::named_key(seq!['0']) == Ok::<u16, HotkeyError>(0x27),
        1 <= number <= 24 ==> (hotkey::named_key(seq!['f'] + text::decimal_text(number as nat)) matches Ok(
            usage,
        ) && (if number <= 12 {
            usage == 0x3a + (number - 1)
        } else {
            usage == 0x68 + (number - 13)
        })),
        number == 0 || number > 24 ==> hotkey::named_key(
            seq!['f'] + text::decimal_text(number as nat),
        ) == Err::<u16, HotkeyError>(HotkeyError::FunctionKeyRange),
{
    let word = seq!['f'] + text::decimal_text(number as nat);
    text::written_numbers_are_read(number as nat);
    lemma_decimal_read_back(number as nat);
    assert(word.drop_first() =~= text::decimal_text(number as nat));
    assert(word.len() > 1 && word[0] == 'f');
    lemma_no_special_word_begins_with_f(word);
}

proof fn lemma_no_special_word_begins_with_f(word: Seq<char>)
    requires
        word.len() > 0,
        word[0] == 'f',
    ensures
        hotkey::special_key(word) is None,
{
    reveal_strlit("esc");
    reveal_strlit("escape");
    reveal_strlit("enter");
    reveal_strlit("return");
    reveal_strlit("tab");
    reveal_strlit("space");
    reveal_strlit("backspace");
    reveal_strlit("delete");
    reveal_strlit("insert");
    reveal_strlit("home");
    reveal_strlit("end");
    reveal_strlit("pageup");
    reveal_strlit("pagedown");
    reveal_strlit("right");
    reveal_strlit("left");
    reveal_strlit("down");
    reveal_strlit("up");
}

} // verus!
