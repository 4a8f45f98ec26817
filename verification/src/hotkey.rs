//! Modifier sets and hotkeys, and how both are written.

use crate::text;
use vstd::prelude::*;
use vstd::string::*;

verus! {

/// A set of modifier keys, one bit for each.
#[derive(Clone, Copy, Debug, PartialEq, Eq, Structural)]
pub struct ModifierMask(pub u8);

impl Default for ModifierMask {
    fn default() -> (r: Self)
        ensures
            r == ModifierMask(0),
    {
        ModifierMask(0)
    }
}

impl ModifierMask {
    pub fn ctrl() -> (r: Self)
        ensures
            r == ModifierMask(1),
    {
        ModifierMask(1)
    }

    pub fn alt() -> (r: Self)
        ensures
            r == ModifierMask(2),
    {
        ModifierMask(2)
    }

    pub fn shift() -> (r: Self)
        ensures
            r == ModifierMask(4),
    {
        ModifierMask(4)
    }

    pub fn meta() -> (r: Self)
        ensures
            r == ModifierMask(8),
    {
        ModifierMask(8)
    }

    /// Whether every modifier of `other` is in this set.
    pub open spec fn has_all(self, other: ModifierMask) -> bool {
        self.0 & other.0 == other.0
    }

    pub fn contains(self, other: Self) -> (r: bool)
        ensures
            r == self.has_all(other),
    {
        self.0 & other.0 == other.0
    }

    pub fn bits(self) -> (r: u8)
        ensures
            r == self.0,
    {
        self.0
    }

    /// The modifiers with these bits; bits that stand for no modifier are left out.
    pub fn from_bits(bits: u8) -> (r: Self)
        ensures
            r == ModifierMask(bits & 0x0f),
    {
        ModifierMask(bits & 0x0f)
    }

    /// The set with the modifiers of both.
    pub fn with(self, other: Self) -> (r: Self)
        ensures
            r == ModifierMask(self.0 | other.0),
    {
        ModifierMask(self.0 | other.0)
    }
}

/// A mask read back from the bits of a mask made from bits is the same mask.
pub proof fn mask_bits_round_trip(bits: u8)
    ensures
        ModifierMask((bits & 0x0f) & 0x0f) == ModifierMask(bits & 0x0f),
        bits < 16 ==> ModifierMask(bits & 0x0f) == ModifierMask(bits),
{
    assert((bits & 0x0f) & 0x0f == bits & 0x0f) by (bit_vector);
    assert(bits < 16 ==> bits & 0x0f == bits) by (bit_vector);
}

/// The key of a hotkey, by its number in the HID usage tables.
#[derive(Clone, Copy, Debug, PartialEq, Eq, Structural)]
pub enum HotkeyKey {
    Hid(u16),
}

impl HotkeyKey {
    pub open spec fn number(self) -> u16 {
        match self {
            HotkeyKey::Hid(usage) => usage,
        }
    }

    pub fn usage(self) -> (r: u16)
        ensures
            r == self.number(),
    {
        match self {
            HotkeyKey::Hid(usage) => usage,
        }
    }
}

/// A key together with the modifiers that are held with it.
#[derive(Clone, Copy, Debug, PartialEq, Eq, Structural)]
pub struct Hotkey {
    pub modifiers: ModifierMask,
    pub key: HotkeyKey,
}

/// Why a text is no hotkey.
#[derive(Clone, Copy, Debug, PartialEq, Eq, Structural)]
pub enum HotkeyError {
    /// A part between plus signs is blank.
    BlankPart,
    /// A modifier is named twice.
    DuplicateModifier,
    /// More than one key is named.
    SecondKey,
    /// A part names no key.
    UnsupportedKey,
    /// The number of a function key is not between 1 and 24.
    FunctionKeyRange,
    /// No modifier is named.
    NoModifier,
    /// No key is named.
    NoKey,
}

/// The modifier that a word names.
pub open spec fn named_modifier(word: Seq<char>) -> Option<ModifierMask> {
    if word == "ctrl"@ || word == "control"@ {
        Some(ModifierMask(1))
    } else if word == "alt"@ || word == "option"@ {
        Some(ModifierMask(2))
    } else if word == "shift"@ {
        Some(ModifierMask(4))
    } else if word == "meta"@ || word == "cmd"@ || word == "command"@ || word == "win"@ || word
        == "super"@ {
        Some(ModifierMask(8))
    } else {
        None
    }
}

/// The usage of a letter or digit key that a single character names.
pub open spec fn character_key(word: Seq<char>) -> Option<u16> {
    if word.len() != 1 {
        None
    } else if 'a' <= word[0] <= 'z' {
        Some((0x04 + (word[0] as int - 'a' as int)) as u16)
    } else if 'A' <= word[0] <= 'Z' {
        Some((0x04 + (word[0] as int - 'A' as int)) as u16)
    } else if word[0] == '0' {
        Some(0x27)
    } else if '1' <= word[0] <= '9' {
        Some((0x1e + (word[0] as int - '1' as int)) as u16)
    } else {
        None
    }
}

/// The usage of a key that has a name of its own.
pub open spec fn special_key(word: Seq<char>) -> Option<u16> {
    if word == "esc"@ || word == "escape"@ {
        Some(0x29)
    } else if word == "enter"@ || word == "return"@ {
        Some(0x28)
    } else if word == "tab"@ {
        Some(0x2b)
    } else if word == "space"@ {
        Some(0x2c)
    } else if word == "backspace"@ {
        Some(0x2a)
    } else if word == "delete"@ {
        Some(0x4c)
    } else if word == "insert"@ {
        Some(0x49)
    } else if word == "home"@ {
        Some(0x4a)
    } else if word == "end"@ {
        Some(0x4d)
    } else if word == "pageup"@ {
        Some(0x4b)
    } else if word == "pagedown"@ {
        Some(0x4e)
    } else if word == "right"@ {
        Some(0x4f)
    } else if word == "left"@ {
        Some(0x50)
    } else if word == "down"@ {
        Some(0x51)
    } else if word == "up"@ {
        Some(0x52)
    } else {
        None
    }
}

/// The usage of the function key with this number.
pub open spec fn function_key(number: u16) -> u16 {
    if number <= 12 {
        (0x3a + number - 1) as u16
    } else {
        (0x68 + number - 13) as u16
    }
}

/// The usage of the key that a word names, or why it names none.
pub open spec fn named_key(word: Seq<char>) -> Result<u16, HotkeyError> {
    if character_key(word) is Some {
        Ok(character_key(word)->0)
    } else if special_key(word) is Some {
        Ok(special_key(word)->0)
    } else if word.len() > 0 && word[0] == 'f' {
        match text::parsed_u16(word.drop_first()) {
            Some(number) => if 1 <= number <= 24 {
                Ok(function_key(number))
            } else {
                Err(HotkeyError::FunctionKeyRange)
            },
            None => Err(HotkeyError::UnsupportedKey),
        }
    } else {
        Err(HotkeyError::UnsupportedKey)
    }
}

/// What is known after some parts of a hotkey: the modifiers, and the key.
#[derive(Clone, Copy, Debug, PartialEq, Eq, Structural)]
pub struct PartialHotkey {
    pub modifiers: ModifierMask,
    pub key: Option<u16>,
}

/// A part of a hotkey as it is compared: without white space around it, in lower case.
pub open spec fn normal_part(part: Seq<char>) -> Seq<char> {
    text::lowered(text::trimmed(part))
}

/// What one more part, already in normal form, adds.
pub open spec fn with_part(known: PartialHotkey, word: Seq<char>) -> Result<PartialHotkey, HotkeyError> {
    if word.len() == 0 {
        Err(HotkeyError::BlankPart)
    } else if named_modifier(word) is Some {
        let modifier = named_modifier(word)->0;
        if known.modifiers.has_all(modifier) {
            Err(HotkeyError::DuplicateModifier)
        } else {
            Ok(
                PartialHotkey {
                    modifiers: ModifierMask(known.modifiers.0 | modifier.0),
                    key: known.key,
                },
            )
        }
    } else if known.key is Some {
        Err(HotkeyError::SecondKey)
    } else {
        match named_key(word) {
            Ok(usage) => Ok(PartialHotkey { modifiers: known.modifiers, key: Some(usage) }),
            Err(error) => Err(error),
        }
    }
}

/// What the parts of a hotkey say, read in order up to the first error.
pub open spec fn read_parts(parts: Seq<Seq<char>>) -> Result<PartialHotkey, HotkeyError>
    decreases parts.len(),
{
    if parts.len() == 0 {
        Ok(PartialHotkey { modifiers: ModifierMask(0), key: None })
    } else {
        match read_parts(parts.drop_last()) {
            Ok(known) => with_part(known, normal_part(parts.last())),
            Err(error) => Err(error),
        }
    }
}

/// The hotkey from what its parts say: it needs a modifier and a key.
pub open spec fn finished(known: PartialHotkey) -> Result<Hotkey, HotkeyError> {
    if known.modifiers.0 == 0 {
        Err(HotkeyError::NoModifier)
    } else {
        match known.key {
            Some(usage) => Ok(Hotkey { modifiers: known.modifiers, key: HotkeyKey::Hid(usage) }),
            None => Err(HotkeyError::NoKey),
        }
    }
}

/// The hotkey that a text stands for, or why it stands for none.
pub open spec fn parsed_hotkey(value: Seq<char>) -> Result<Hotkey, HotkeyError> {
    match read_parts(text::split_at(value, '+')) {
        Ok(known) => finished(known),
        Err(error) => Err(error),
    }
}

/// The name of the key with this usage.
pub open spec fn key_text(usage: u16) -> Seq<char> {
    if 0x04 <= usage <= 0x1d {
        seq![letter_char(usage - 0x04)]
    } else if 0x1e <= usage <= 0x26 {
        seq![text::digit_char(usage - 0x1e + 1)]
    } else if usage == 0x27 {
        seq!['0']
    } else if usage == 0x28 {
        "enter"@
    } else if usage == 0x29 {
        "esc"@
    } else if usage == 0x2a {
        "backspace"@
    } else if usage == 0x2b {
        "tab"@
    } else if usage == 0x2c {
        "space"@
    } else if usage == 0x2d {
        "minus"@
    } else if usage == 0x2e {
        "equal"@
    } else if usage == 0x2f {
        "left_bracket"@
    } else if usage == 0x30 {
        "right_bracket"@
    } else if usage == 0x31 {
        "backslash"@
    } else if usage == 0x33 {
        "semicolon"@
    } else if usage == 0x34 {
        "apostrophe"@
    } else if usage == 0x35 {
        "grave"@
    } else if usage == 0x36 {
        "comma"@
    } else if usage == 0x37 {
        "period"@
    } else if usage == 0x38 {
        "slash"@
    } else if usage == 0x39 {
        "caps_lock"@
    } else if 0x3a <= usage <= 0x45 {
        seq!['f'] + text::decimal_text((usage - 0x3a + 1) as nat)
    } else if usage == 0x49 {
        "insert"@
    } else if usage == 0x4a {
        "home"@
    } else if usage == 0x4b {
        "pageup"@
    } else if usage == 0x4c {
        "delete"@
    } else if usage == 0x4d {
        "end"@
    } else if usage == 0x4e {
        "pagedown"@
    } else if usage == 0x4f {
        "right"@
    } else if usage == 0x50 {
        "left"@
    } else if usage == 0x51 {
        "down"@
    } else if usage == 0x52 {
        "up"@
    } else if 0x68 <= usage <= 0x73 {
        seq!['f'] + text::decimal_text((usage - 0x68 + 13) as nat)
    } else if usage == 0xe0 {
        "left_ctrl"@
    } else if usage == 0xe1 {
        "left_shift"@
    } else if usage == 0xe2 {
        "left_option"@
    } else if usage == 0xe3 {
        "left_command"@
    } else if usage == 0xe4 {
        "right_ctrl"@
    } else if usage == 0xe5 {
        "right_shift"@
    } else if usage == 0xe6 {
        "right_option"@
    } else if usage == 0xe7 {
        "right_command"@
    } else {
        "hid-"@ + text::decimal_text(usage as nat)
    }
}

pub open spec fn letter_char(i: int) -> char {
    (('a' as u8) + i) as u8 as char
}

/// The modifier's name and a plus sign, if the modifier is in the set.
pub open spec fn modifier_text(modifiers: ModifierMask, modifier: ModifierMask, name: Seq<char>) -> Seq<char> {
    if modifiers.has_all(modifier) {
        name + seq!['+']
    } else {
        Seq::empty()
    }
}

/// How a hotkey is written: its modifiers in a fixed order, then its key.
pub open spec fn hotkey_text(hotkey: Hotkey) -> Seq<char> {
    modifier_text(hotkey.modifiers, ModifierMask(1), "ctrl"@) + modifier_text(
        hotkey.modifiers,
        ModifierMask(2),
        "alt"@,
    ) + modifier_text(hotkey.modifiers, ModifierMask(4), "shift"@) + modifier_text(
        hotkey.modifiers,
        ModifierMask(8),
        "meta"@,
    ) + key_text(hotkey.key.number())
}

fn find_modifier(word: &Vec<char>) -> (r: Option<ModifierMask>)
    ensures
        r == named_modifier(word@),
{
    if text::is_text(word, "ctrl") || text::is_text(word, "control") {
        Some(ModifierMask(1))
    } else if text::is_text(word, "alt") || text::is_text(word, "option") {
        Some(ModifierMask(2))
    } else if text::is_text(word, "shift") {
        Some(ModifierMask(4))
    } else if text::is_text(word, "meta") || text::is_text(word, "cmd") || text::is_text(
        word,
        "command",
    ) || text::is_text(word, "win") || text::is_text(word, "super") {
        Some(ModifierMask(8))
    } else {
        None
    }
}

fn find_character_key(word: &Vec<char>) -> (r: Option<u16>)
    ensures
        r == character_key(word@),
{
    if word.len() != 1 {
        return None;
    }
    let c = word[0];
    if 'a' <= c && c <= 'z' {
        Some(0x04 + (c as u8 - 'a' as u8) as u16)
    } else if 'A' <= c && c <= 'Z' {
        Some(0x04 + (c as u8 - 'A' as u8) as u16)
    } else if c == '0' {
        Some(0x27)
    } else if '1' <= c && c <= '9' {
        Some(0x1e + (c as u8 - '1' as u8) as u16)
    } else {
        None
    }
}

fn find_special_key(word: &Vec<char>) -> (r: Option<u16>)
    ensures
        r == special_key(word@),
{
    if text::is_text(word, "esc") || text::is_text(word, "escape") {
        Some(0x29)
    } else if text::is_text(word, "enter") || text::is_text(word, "return") {
        Some(0x28)
    } else if text::is_text(word, "tab") {
        Some(0x2b)
    } else if text::is_text(word, "space") {
        Some(0x2c)
    } else if text::is_text(word, "backspace") {
        Some(0x2a)
    } else if text::is_text(word, "delete") {
        Some(0x4c)
    } else if text::is_text(word, "insert") {
        Some(0x49)
    } else if text::is_text(word, "home") {
        Some(0x4a)
    } else if text::is_text(word, "end") {
        Some(0x4d)
    } else if text::is_text(word, "pageup") {
        Some(0x4b)
    } else if text::is_text(word, "pagedown") {
        Some(0x4e)
    } else if text::is_text(word, "right") {
        Some(0x4f)
    } else if text::is_text(word, "left") {
        Some(0x50)
    } else if text::is_text(word, "down") {
        Some(0x51)
    } else if text::is_text(word, "up") {
        Some(0x52)
    } else {
        None
    }
}

fn find_key(word: &Vec<char>) -> (r: Result<u16, HotkeyError>)
    ensures
        r == named_key(word@),
{
    if let Some(usage) = find_character_key(word) {
        return Ok(usage);
    }
    if let Some(usage) = find_special_key(word) {
        return Ok(usage);
    }
    if word.len() > 0 && word[0] == 'f' {
        assert(word@.skip(1) =~= word@.drop_first());
        match text::parse_u16(word, 1) {
            Some(number) => {
                if !(1 <= number && number <= 24) {
                    Err(HotkeyError::FunctionKeyRange)
                } else if number <= 12 {
                    Ok(0x3a + number - 1)
                } else {
                    Ok(0x68 + number - 13)
                }
            },
            None => Err(HotkeyError::UnsupportedKey),
        }
    } else {
        Err(HotkeyError::UnsupportedKey)
    }
}

/// The usage of the key that a word names.
pub fn parse_named_key(value: &str) -> (r: Result<u16, HotkeyError>)
    ensures
        r == named_key(value@),
{
    find_key(&text::chars_of(value))
}

fn add_part(known: PartialHotkey, part: &Vec<char>) -> (r: Result<PartialHotkey, HotkeyError>)
    ensures
        r == with_part(known, normal_part(part@)),
{
    let word = text::trim_and_lower(part);
    if word.len() == 0 {
        return Err(HotkeyError::BlankPart);
    }
    if let Some(modifier) = find_modifier(&word) {
        if known.modifiers.contains(modifier) {
            return Err(HotkeyError::DuplicateModifier);
        }
        return Ok(PartialHotkey { modifiers: known.modifiers.with(modifier), key: known.key });
    }
    if known.key.is_some() {
        return Err(HotkeyError::SecondKey);
    }
    match find_key(&word) {
        Ok(usage) => Ok(PartialHotkey { modifiers: known.modifiers, key: Some(usage) }),
        Err(error) => Err(error),
    }
}

pub(crate) proof fn lemma_error_stays(parts: Seq<Seq<char>>, k: int)
    requires
        0 <= k <= parts.len(),
        read_parts(parts.take(k)) is Err,
    ensures
        read_parts(parts) == read_parts(parts.take(k)),
    decreases parts.len(),
{
    if k == parts.len() {
        assert(parts.take(k) =~= parts);
    } else {
        assert(parts.drop_last().take(k) =~= parts.take(k));
        lemma_error_stays(parts.drop_last(), k);
    }
}

proof fn lemma_split_prefix(value: Seq<char>, k: int, separator: char)
    requires
        0 <= k <= value.len(),
    ensures
        text::split_at(value.take(k), separator).len() > 0,
        text::split_at(value, separator).len() >= text::split_at(value.take(k), separator).len(),
        ({
            let part = text::split_at(value.take(k), separator);
            text::split_at(value, separator).take(part.len() - 1) == part.drop_last()
        }),
    decreases value.len(),
{
    let whole = text::split_at(value, separator);
    let part = text::split_at(value.take(k), separator);
    if k == value.len() {
        assert(value.take(k) =~= value);
        if value.len() > 0 {
            lemma_split_prefix(value.drop_last(), k - 1, separator);
        }
        assert(whole.take(part.len() - 1) =~= part.drop_last());
    } else {
        assert(value.drop_last().take(k) =~= value.take(k));
        lemma_split_prefix(value.drop_last(), k, separator);
        let inner = text::split_at(value.drop_last(), separator);
        assert(whole.take(part.len() - 1) =~= inner.take(part.len() - 1));
    }
}

impl Hotkey {
    /// The hotkey that the program uses unless told otherwise.
    pub const DEFAULT: &'static str = "ctrl+alt+shift+esc";

    pub fn matches(self, usage: u16, modifiers: ModifierMask) -> (r: bool)
        ensures
            r == (self.key.number() == usage && self.modifiers == modifiers),
    {
        self.key.usage() == usage && self.modifiers == modifiers
    }

    /// Reads a hotkey: modifiers and one key, with plus signs between them.
    pub fn from_str(value: &str) -> (r: Result<Self, HotkeyError>)
        ensures
            r == parsed_hotkey(value@),
    {
        Self::from_chars(&text::chars_of(value))
    }

    /// Reads a hotkey from characters.
    pub fn from_chars(chars: &Vec<char>) -> (r: Result<Self, HotkeyError>)
        ensures
            r == parsed_hotkey(chars@),
    {
        let ghost all = text::split_at(chars@, '+');
        let mut known = PartialHotkey { modifiers: ModifierMask(0), key: None };
        let mut part: Vec<char> = Vec::new();
        let mut i: usize = 0;
        assert(chars@.take(0) =~= Seq::<char>::empty());
        while i < chars.len()
            invariant
                i <= chars@.len(),
                all == text::split_at(chars@, '+'),
                text::split_at(chars@.take(i as int), '+').len() > 0,
                text::split_at(chars@.take(i as int), '+').last() == part@,
                read_parts(text::split_at(chars@.take(i as int), '+').drop_last()) == Ok::<
                    PartialHotkey,
                    HotkeyError,
                >(known),
            decreases chars@.len() - i,
        {
            let c = chars[i];
            let ghost before = text::split_at(chars@.take(i as int), '+');
            let ghost after = text::split_at(chars@.take(i + 1), '+');
            proof {
                assert(chars@.take(i + 1).drop_last() =~= chars@.take(i as int));
            }
            if c == '+' {
                proof {
                    assert(after =~= before.push(Seq::empty()));
                    assert(after.drop_last() =~= before);
                }
                match add_part(known, &part) {
                    Ok(next) => {
                        known = next;
                    },
                    Err(error) => {
                        proof {
                            lemma_split_prefix(chars@, i + 1, '+');
                            assert(all.take(after.len() - 1) == before);
                            lemma_error_stays(all, after.len() - 1);
                        }
                        return Err(error);
                    },
                }
                part = Vec::new();
            } else {
                proof {
                    assert(after.drop_last() =~= before.drop_last());
                }
                part.push(c);
            }
            i += 1;
        }
        assert(chars@.take(i as int) =~= chars@);
        match add_part(known, &part) {
            Ok(known) => {
                if known.modifiers.bits() == 0 {
                    return Err(HotkeyError::NoModifier);
                }
                match known.key {
                    Some(usage) => Ok(
                        Hotkey { modifiers: known.modifiers, key: HotkeyKey::Hid(usage) },
                    ),
                    None => Err(HotkeyError::NoKey),
                }
            },
            Err(error) => Err(error),
        }
    }

    /// The hotkey as text.
    pub fn to_string(&self) -> (r: String)
        ensures
            r@ == hotkey_text(*self),
    {
        let mut out = String::new();
        proof {
            reveal_strlit("ctrl+");
            reveal_strlit("ctrl");
            reveal_strlit("alt+");
            reveal_strlit("alt");
            reveal_strlit("shift+");
            reveal_strlit("shift");
            reveal_strlit("meta+");
            reveal_strlit("meta");
            assert("ctrl+"@ =~= "ctrl"@ + seq!['+']);
            assert("alt+"@ =~= "alt"@ + seq!['+']);
            assert("shift+"@ =~= "shift"@ + seq!['+']);
            assert("meta+"@ =~= "meta"@ + seq!['+']);
        }
        if self.modifiers.contains(ModifierMask::ctrl()) {
            out.append("ctrl+");
        }
        assert(out@ =~= modifier_text(self.modifiers, ModifierMask(1), "ctrl"@));
        if self.modifiers.contains(ModifierMask::alt()) {
            out.append("alt+");
        }
        assert(out@ =~= modifier_text(self.modifiers, ModifierMask(1), "ctrl"@) + modifier_text(
            self.modifiers,
            ModifierMask(2),
            "alt"@,
        ));
        if self.modifiers.contains(ModifierMask::shift()) {
            out.append("shift+");
        }
        assert(out@ =~= modifier_text(self.modifiers, ModifierMask(1), "ctrl"@) + modifier_text(
            self.modifiers,
            ModifierMask(2),
            "alt"@,
        ) + modifier_text(self.modifiers, ModifierMask(4), "shift"@));
        if self.modifiers.contains(ModifierMask::meta()) {
            out.append("meta+");
        }
        assert(out@ =~= modifier_text(self.modifiers, ModifierMask(1), "ctrl"@) + modifier_text(
            self.modifiers,
            ModifierMask(2),
            "alt"@,
        ) + modifier_text(self.modifiers, ModifierMask(4), "shift"@) + modifier_text(
            self.modifiers,
            ModifierMask(8),
            "meta"@,
        ));
        append_key_name(&mut out, self.key.usage());
        out
    }
}

impl std::str::FromStr for Hotkey {
    type Err = HotkeyError;

    fn from_str(value: &str) -> (r: Result<Self, HotkeyError>)
        ensures
            r == parsed_hotkey(value@),
    {
        Hotkey::from_str(value)
    }
}

/// The fixed name of a key that is no letter, digit or function key.
fn fixed_key_name(usage: u16) -> (r: Option<&'static str>)
    ensures
        match r {
            Some(name) => name@ == key_text(usage),
            None => 0x04 <= usage <= 0x27 || 0x3a <= usage <= 0x45 || 0x68 <= usage <= 0x73
                || key_text(usage) == "hid-"@ + text::decimal_text(usage as nat),
        },
{
    match usage {
        0x28 => Some("enter"),
        0x29 => Some("esc"),
        0x2a => Some("backspace"),
        0x2b => Some("tab"),
        0x2c => Some("space"),
        0x2d => Some("minus"),
        0x2e => Some("equal"),
        0x2f => Some("left_bracket"),
        0x30 => Some("right_bracket"),
        0x31 => Some("backslash"),
        0x33 => Some("semicolon"),
        0x34 => Some("apostrophe"),
        0x35 => Some("grave"),
        0x36 => Some("comma"),
        0x37 => Some("period"),
        0x38 => Some("slash"),
        0x39 => Some("caps_lock"),
        0x49 => Some("insert"),
        0x4a => Some("home"),
        0x4b => Some("pageup"),
        0x4c => Some("delete"),
        0x4d => Some("end"),
        0x4e => Some("pagedown"),
        0x4f => Some("right"),
        0x50 => Some("left"),
        0x51 => Some("down"),
        0x52 => Some("up"),
        0xe0 => Some("left_ctrl"),
        0xe1 => Some("left_shift"),
        0xe2 => Some("left_option"),
        0xe3 => Some("left_command"),
        0xe4 => Some("right_ctrl"),
        0xe5 => Some("right_shift"),
        0xe6 => Some("right_option"),
        0xe7 => Some("right_command"),
        _ => None,
    }
}

/// Appends the name of the key with this usage.
pub fn append_key_name(out: &mut String, usage: u16)
    ensures
        final(out)@ == old(out)@ + key_text(usage),
{
    proof {
        reveal_strlit("f");
        assert("f"@ =~= seq!['f']);
    }
    if let Some(name) = fixed_key_name(usage) {
        out.append(name);
    } else if 0x04 <= usage && usage <= 0x1d {
        proof {
            reveal_strlit("abcdefghijklmnopqrstuvwxyz");
        }
        let i: usize = (usage - 0x04) as usize;
        let letter = "abcdefghijklmnopqrstuvwxyz".substring_char(i, i + 1);
        assert(letter@ =~= seq![letter_char(usage - 0x04)]);
        out.append(letter);
    } else if 0x1e <= usage && usage <= 0x26 {
        text::append_decimal(out, (usage - 0x1e + 1) as u64);
    } else if usage == 0x27 {
        text::append_decimal(out, 0);
    } else if 0x3a <= usage && usage <= 0x45 {
        out.append("f");
        text::append_decimal(out, (usage - 0x3a + 1) as u64);
        assert(out@ =~= old(out)@ + key_text(usage));
    } else if 0x68 <= usage && usage <= 0x73 {
        out.append("f");
        text::append_decimal(out, (usage - 0x68 + 13) as u64);
        assert(out@ =~= old(out)@ + key_text(usage));
    } else {
        out.append("hid-");
        text::append_decimal(out, usage as u64);
        assert(out@ =~= old(out)@ + key_text(usage));
    }
}

/// The name of the key with this usage.
pub fn key_name(usage: u16) -> (r: String)
    ensures
        r@ == key_text(usage),
{
    let mut out = String::new();
    append_key_name(&mut out, usage);
    assert(out@ =~= key_text(usage));
    out
}

} // verus!
