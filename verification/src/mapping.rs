//! Mapping keys between platforms, and following which mapped keys are down.

use crate::hotkey::ModifierMask;
use crate::protocol::{KeySnapshot, SnapshotView};
use crate::text;
use std::collections::{BTreeMap, BTreeSet};
use vstd::prelude::*;
use vstd::string::*;

verus! {

broadcast use vstd::std_specs::btree::group_btree_axioms;

/// The operating system of one end.
#[derive(Clone, Copy, Debug, PartialEq, Eq, Structural)]
pub enum InputPlatform {
    Macos,
    Windows,
}

/// The order of texts, character by character.
pub open spec fn text_before(a: Seq<char>, b: Seq<char>) -> bool
    decreases a.len(),
{
    if b.len() == 0 {
        false
    } else if a.len() == 0 {
        true
    } else if a[0] != b[0] {
        a[0] < b[0]
    } else {
        text_before(a.drop_first(), b.drop_first())
    }
}

/// What a list of names and the names they stand for says.
pub open spec fn entry_views(entries: Seq<(String, String)>) -> Seq<(Seq<char>, Seq<char>)> {
    entries.map_values(|e: (String, String)| (e.0@, e.1@))
}

/// Names and the names they stand for, with no name twice, in the order of the names.
#[derive(Debug, PartialEq, Eq)]
pub struct NameTable {
    entries: Vec<(String, String)>,
}

impl View for NameTable {
    type V = Seq<(Seq<char>, Seq<char>)>;

    closed spec fn view(&self) -> Seq<(Seq<char>, Seq<char>)> {
        entry_views(self.entries@)
    }
}

/// Whether the names of a table ascend.
pub open spec fn names_ascend(entries: Seq<(Seq<char>, Seq<char>)>) -> bool {
    forall|i: int, j: int|
        0 <= i < j < entries.len() ==> text_before((#[trigger] entries[i]).0, (#[trigger] entries[j]).0)
}

/// The table with one more entry; an entry with the same name is replaced.
pub open spec fn with_entry(
    entries: Seq<(Seq<char>, Seq<char>)>,
    name: Seq<char>,
    value: Seq<char>,
) -> Seq<(Seq<char>, Seq<char>)>
    decreases entries.len(),
{
    if entries.len() == 0 || text_before(entries.last().0, name) {
        entries.push((name, value))
    } else if entries.last().0 == name {
        entries.drop_last().push((name, value))
    } else {
        with_entry(entries.drop_last(), name, value).push(entries.last())
    }
}

proof fn lemma_text_before_asymmetric(a: Seq<char>, b: Seq<char>)
    ensures
        !(text_before(a, b) && text_before(b, a)),
        text_before(a, b) ==> a != b,
        !text_before(a, b) && !text_before(b, a) ==> a == b,
    decreases a.len(),
{
    if a.len() > 0 && b.len() > 0 && a[0] == b[0] {
        lemma_text_before_asymmetric(a.drop_first(), b.drop_first());
        if a.drop_first() == b.drop_first() {
            assert(a =~= seq![a[0]] + a.drop_first());
            assert(b =~= seq![b[0]] + b.drop_first());
        }
    } else if a.len() == 0 && b.len() == 0 {
        assert(a =~= b);
    }
}

proof fn lemma_text_before_transitive(a: Seq<char>, b: Seq<char>, c: Seq<char>)
    requires
        text_before(a, b),
        text_before(b, c),
    ensures
        text_before(a, c),
    decreases a.len(),
{
    if a.len() > 0 && a[0] == b[0] && b[0] == c[0] {
        lemma_text_before_transitive(a.drop_first(), b.drop_first(), c.drop_first());
    }
}

fn is_text_before(a: &str, b: &str) -> (r: bool)
    ensures
        r == text_before(a@, b@),
{
    let x = text::chars_of(a);
    let y = text::chars_of(b);
    let mut i: usize = 0;
    assert(x@.skip(0) =~= x@);
    assert(y@.skip(0) =~= y@);
    while i < x.len() && i < y.len() && x[i] == y[i]
        invariant
            i <= x@.len(),
            i <= y@.len(),
            text_before(x@, y@) == text_before(x@.skip(i as int), y@.skip(i as int)),
        decreases x@.len() - i,
    {
        assert(x@.skip(i as int).drop_first() =~= x@.skip(i + 1));
        assert(y@.skip(i as int).drop_first() =~= y@.skip(i + 1));
        assert(x@.skip(i as int)[0] == y@.skip(i as int)[0]);
        i += 1;
    }
    if i >= y.len() {
        assert(y@.skip(i as int).len() == 0);
        false
    } else if i >= x.len() {
        assert(x@.skip(i as int).len() == 0);
        true
    } else {
        assert(x@.skip(i as int)[0] == x@[i as int]);
        assert(y@.skip(i as int)[0] == y@[i as int]);
        x[i] < y[i]
    }
}

proof fn lemma_entry_inserted(
    entries: Seq<(Seq<char>, Seq<char>)>,
    name: Seq<char>,
    value: Seq<char>,
    k: int,
)
    requires
        0 <= k <= entries.len(),
        k == 0 || text_before(entries[k - 1].0, name),
        forall|i: int|
            k <= i < entries.len() ==> !text_before((#[trigger] entries[i]).0, name) && entries[i].0 != name,
    ensures
        with_entry(entries, name, value) == entries.insert(k, (name, value)),
    decreases entries.len(),
{
    if k == entries.len() {
        assert(entries.insert(k, (name, value)) =~= entries.push((name, value)));
    } else {
        assert(!text_before(entries[entries.len() - 1].0, name));
        lemma_entry_inserted(entries.drop_last(), name, value, k);
        assert(entries.drop_last().insert(k, (name, value)).push(entries.last()) =~= entries.insert(
            k,
            (name, value),
        ));
    }
}

proof fn lemma_entry_replaced(
    entries: Seq<(Seq<char>, Seq<char>)>,
    name: Seq<char>,
    value: Seq<char>,
    k: int,
)
    requires
        0 <= k < entries.len(),
        entries[k].0 == name,
        forall|i: int|
            k < i < entries.len() ==> !text_before((#[trigger] entries[i]).0, name) && entries[i].0 != name,
    ensures
        with_entry(entries, name, value) == entries.update(k, (name, value)),
    decreases entries.len(),
{
    lemma_text_before_asymmetric(name, name);
    if k == entries.len() - 1 {
        assert(entries.drop_last().push((name, value)) =~= entries.update(k, (name, value)));
    } else {
        assert(!text_before(entries[entries.len() - 1].0, name));
        lemma_entry_replaced(entries.drop_last(), name, value, k);
        assert(entries.drop_last().update(k, (name, value)).push(entries.last()) =~= entries.update(
            k,
            (name, value),
        ));
    }
}

impl NameTable {
    #[verifier::type_invariant]
    spec fn in_order(&self) -> bool {
        names_ascend(self@)
    }

    /// The table without entries.
    pub fn new() -> (r: Self)
        ensures
            r@ == Seq::<(Seq<char>, Seq<char>)>::empty(),
    {
        let r = NameTable { entries: Vec::new() };
        assert(r@ =~= Seq::<(Seq<char>, Seq<char>)>::empty());
        r
    }

    /// Takes out all entries.
    pub fn clear(&mut self)
        ensures
            final(self)@ == Seq::<(Seq<char>, Seq<char>)>::empty(),
    {
        self.entries = Vec::new();
        assert(self@ =~= Seq::<(Seq<char>, Seq<char>)>::empty());
    }

    /// Puts in an entry, or replaces the one with the same name.
    pub fn insert(&mut self, name: String, value: String)
        ensures
            final(self)@ == with_entry(old(self)@, name@, value@),
            names_ascend(final(self)@),
    {
        let ghost before = self@;
        proof {
            use_type_invariant(&*self);
            table_stays_in_order(before, name@, value@);
        }
        let mut entries: Vec<(String, String)> = Vec::new();
        std::mem::swap(&mut entries, &mut self.entries);
        let mut k: usize = entries.len();
        let mut found = false;
        while k > 0 && !found && !is_text_before(entries[k - 1].0.as_str(), name.as_str())
            invariant
                k <= entries@.len(),
                entry_views(entries@) == before,
                before.len() == entries@.len(),
                !found ==> forall|i: int|
                    k <= i < before.len() ==> !text_before((#[trigger] before[i]).0, name@) && before[i].0
                        != name@,
                found ==> 0 < k && before[k - 1].0 == name@ && forall|i: int|
                    k <= i < before.len() ==> !text_before((#[trigger] before[i]).0, name@) && before[i].0
                        != name@,
            decreases k, if found { 0int } else { 1int },
        {
            assert(before[k - 1].0 == entries@[k - 1].0@);
            if entries[k - 1].0 == name {
                found = true;
            } else {
                k -= 1;
            }
        }
        if found {
            proof {
                lemma_entry_replaced(before, name@, value@, k - 1);
            }
            let ghost (n, v) = (name@, value@);
            entries.remove(k - 1);
            entries.insert(k - 1, (name, value));
            assert(entry_views(entries@) =~= before.update(k - 1, (n, v)));
        } else {
            proof {
                if k > 0 {
                    assert(before[k - 1].0 == entries@[k - 1].0@);
                }
                lemma_entry_inserted(before, name@, value@, k as int);
            }
            let ghost (n, v) = (name@, value@);
            entries.insert(k, (name, value));
            assert(entry_views(entries@) =~= before.insert(k as int, (n, v)));
        }
        self.entries = entries;
    }

    fn count(&self) -> (r: usize)
        ensures
            r == self@.len(),
    {
        self.entries.len()
    }

    fn name_at(&self, i: usize) -> (r: &String)
        requires
            i < self@.len(),
        ensures
            r@ == self@[i as int].0,
    {
        &self.entries[i].0
    }

    fn value_at(&self, i: usize) -> (r: &String)
        requires
            i < self@.len(),
        ensures
            r@ == self@[i as int].1,
    {
        &self.entries[i].1
    }
}

impl Clone for NameTable {
    fn clone(&self) -> (r: Self)
        ensures
            r@ == self@,
            names_ascend(r@),
    {
        proof {
            use_type_invariant(self);
        }
        let mut entries: Vec<(String, String)> = Vec::new();
        let mut i: usize = 0;
        while i < self.entries.len()
            invariant
                i <= self.entries@.len(),
                entry_views(entries@) == self@.take(i as int),
            decreases self.entries@.len() - i,
        {
            let ghost before = entries@;
            entries.push((self.entries[i].0.clone(), self.entries[i].1.clone()));
            assert(entry_views(entries@) =~= entry_views(before).push(self@[i as int]));
            assert(self@.take(i + 1) =~= self@.take(i as int).push(self@[i as int]));
            i += 1;
        }
        assert(self@.take(i as int) =~= self@);
        NameTable { entries }
    }
}

proof fn lemma_with_entry_members(entries: Seq<(Seq<char>, Seq<char>)>, name: Seq<char>, value: Seq<char>, i: int)
    requires
        0 <= i < with_entry(entries, name, value).len(),
    ensures
        with_entry(entries, name, value)[i] == (name, value) || entries.contains(
            with_entry(entries, name, value)[i],
        ),
    decreases entries.len(),
{
    let grown = with_entry(entries, name, value);
    if entries.len() == 0 || text_before(entries.last().0, name) {
        if i < entries.len() {
            assert(grown[i] == entries[i]);
        }
    } else if entries.last().0 == name {
        if i < entries.len() - 1 {
            assert(grown[i] == entries[i]);
        }
    } else {
        let inner = with_entry(entries.drop_last(), name, value);
        if i < inner.len() {
            lemma_with_entry_members(entries.drop_last(), name, value, i);
            if entries.drop_last().contains(inner[i]) {
                let j = choose|j: int| 0 <= j < entries.drop_last().len() && entries.drop_last()[j] == inner[i];
                assert(entries[j] == grown[i]);
            }
        } else {
            assert(grown[i] == entries[entries.len() - 1]);
        }
    }
}

/// A table stays in the order of its names, without a name twice, when an entry is put in, and
/// then holds that entry.
pub proof fn table_stays_in_order(entries: Seq<(Seq<char>, Seq<char>)>, name: Seq<char>, value: Seq<char>)
    requires
        names_ascend(entries),
    ensures
        names_ascend(with_entry(entries, name, value)),
        with_entry(entries, name, value).contains((name, value)),
    decreases entries.len(),
{
    let grown = with_entry(entries, name, value);
    if entries.len() == 0 || text_before(entries.last().0, name) {
        assert forall|i: int, j: int| 0 <= i < j < grown.len() implies text_before(
            (#[trigger] grown[i]).0,
            (#[trigger] grown[j]).0,
        ) by {
            if j == entries.len() && i < entries.len() - 1 {
                assert(text_before(entries[i].0, entries[entries.len() - 1].0));
                lemma_text_before_transitive(entries[i].0, entries.last().0, name);
            }
        }
        assert(grown[entries.len() as int] == (name, value));
    } else if entries.last().0 == name {
        assert forall|i: int, j: int| 0 <= i < j < grown.len() implies text_before(
            (#[trigger] grown[i]).0,
            (#[trigger] grown[j]).0,
        ) by {
            assert(grown[i].0 == entries[i].0 && grown[j].0 == entries[j].0);
        }
        assert(grown[entries.len() - 1] == (name, value));
    } else {
        let rest = entries.drop_last();
        assert(names_ascend(rest)) by {
            assert forall|i: int, j: int| 0 <= i < j < rest.len() implies text_before(
                (#[trigger] rest[i]).0,
                (#[trigger] rest[j]).0,
            ) by {
                assert(rest[i] == entries[i] && rest[j] == entries[j]);
            }
        }
        table_stays_in_order(rest, name, value);
        let inner = with_entry(rest, name, value);
        let at = choose|at: int| 0 <= at < inner.len() && inner[at] == (name, value);
        assert(grown[at] == (name, value));
        assert forall|i: int, j: int| 0 <= i < j < grown.len() implies text_before(
            (#[trigger] grown[i]).0,
            (#[trigger] grown[j]).0,
        ) by {
            if j < inner.len() {
                assert(grown[i] == inner[i] && grown[j] == inner[j]);
            } else {
                lemma_with_entry_members(rest, name, value, i);
                lemma_text_before_asymmetric(entries.last().0, name);
                if rest.contains(inner[i]) {
                    let m = choose|m: int| 0 <= m < rest.len() && rest[m] == inner[i];
                    assert(text_before(entries[m].0, entries[entries.len() - 1].0));
                }
            }
        }
    }
}

/// Which keys stand for which, in each direction.
#[derive(Clone, Debug, PartialEq, Eq)]
pub struct KeyMappingConfig {
    pub macos_to_windows: NameTable,
    pub windows_to_macos: NameTable,
}

/// The entries of the built-in mapping from macOS to Windows, in order.
pub open spec fn default_macos_to_windows() -> Seq<(Seq<char>, Seq<char>)> {
    with_entry(
        with_entry(
            with_entry(
                with_entry(Seq::empty(), "left_option"@, "left_win"@),
                "right_option"@,
                "right_win"@,
            ),
            "left_command"@,
            "left_alt"@,
        ),
        "right_command"@,
        "right_alt"@,
    )
}

/// The entries of the built-in mapping from Windows to macOS, in order.
pub open spec fn default_windows_to_macos() -> Seq<(Seq<char>, Seq<char>)> {
    with_entry(
        with_entry(
            with_entry(
                with_entry(Seq::empty(), "left_win"@, "left_option"@),
                "right_win"@,
                "right_option"@,
            ),
            "left_alt"@,
            "left_command"@,
        ),
        "right_alt"@,
        "right_command"@,
    )
}

impl Default for KeyMappingConfig {
    /// Option and the Windows key stand for each other, and so do Command and Alt.
    fn default() -> (r: Self)
        ensures
            r.macos_to_windows@ == default_macos_to_windows(),
            r.windows_to_macos@ == default_windows_to_macos(),
    {
        let mut macos_to_windows = NameTable::new();
        macos_to_windows.insert("left_option".to_owned(), "left_win".to_owned());
        macos_to_windows.insert("right_option".to_owned(), "right_win".to_owned());
        macos_to_windows.insert("left_command".to_owned(), "left_alt".to_owned());
        macos_to_windows.insert("right_command".to_owned(), "right_alt".to_owned());
        let mut windows_to_macos = NameTable::new();
        windows_to_macos.insert("left_win".to_owned(), "left_option".to_owned());
        windows_to_macos.insert("right_win".to_owned(), "right_option".to_owned());
        windows_to_macos.insert("left_alt".to_owned(), "left_command".to_owned());
        windows_to_macos.insert("right_alt".to_owned(), "right_command".to_owned());
        KeyMappingConfig { macos_to_windows, windows_to_macos }
    }
}

impl InputPlatform {
    /// The platform for the name of an operating system. Names other than `windows` count as
    /// macOS.
    pub fn current(os_name: &str) -> (r: Self)
        ensures
            r == if os_name@ == "windows"@ {
                InputPlatform::Windows
            } else {
                InputPlatform::Macos
            },
    {
        if text::is_text(&text::chars_of(os_name), "windows") {
            InputPlatform::Windows
        } else {
            InputPlatform::Macos
        }
    }
}

/// Why a key mapping is refused. The entry is the one that was being read.
#[derive(Clone, Copy, Debug, PartialEq, Eq, Structural)]
pub enum MappingError {
    UnsupportedSource { entry: usize },
    UnsupportedTarget { entry: usize },
}

/// The usage of a key whose name is the same on both platforms.
pub open spec fn common_key(name: Seq<char>) -> Option<u16> {
    if name.len() == 1 && 'a' <= name[0] <= 'z' {
        Some((0x04 + (name[0] as int - 'a' as int)) as u16)
    } else if name.len() == 1 && '1' <= name[0] <= '9' {
        Some((0x1e + (name[0] as int - '1' as int)) as u16)
    } else if name.len() == 1 && name[0] == '0' {
        Some(0x27)
    } else if name.len() > 0 && name[0] == 'f' && (text::parsed_u16(name.drop_first()) matches Some(n)
        && 1 <= n <= 15) {
        Some((0x3a + text::parsed_u16(name.drop_first())->0 - 1) as u16)
    } else {
        common_word(name)
    }
}

/// The usage of a key that has a word for its name on both platforms.
pub open spec fn common_word(name: Seq<char>) -> Option<u16> {
    if name == "enter"@ {
        Some(0x28)
    } else if name == "escape"@ {
        Some(0x29)
    } else if name == "backspace"@ {
        Some(0x2a)
    } else if name == "tab"@ {
        Some(0x2b)
    } else if name == "space"@ {
        Some(0x2c)
    } else if name == "minus"@ {
        Some(0x2d)
    } else if name == "equal"@ {
        Some(0x2e)
    } else if name == "left_bracket"@ {
        Some(0x2f)
    } else if name == "right_bracket"@ {
        Some(0x30)
    } else if name == "backslash"@ {
        Some(0x31)
    } else if name == "semicolon"@ {
        Some(0x33)
    } else if name == "apostrophe"@ {
        Some(0x34)
    } else if name == "grave"@ {
        Some(0x35)
    } else if name == "comma"@ {
        Some(0x36)
    } else if name == "period"@ {
        Some(0x37)
    } else if name == "slash"@ {
        Some(0x38)
    } else if name == "caps_lock"@ {
        Some(0x39)
    } else if name == "insert"@ {
        Some(0x49)
    } else if name == "home"@ {
        Some(0x4a)
    } else if name == "page_up"@ {
        Some(0x4b)
    } else if name == "delete"@ {
        Some(0x4c)
    } else if name == "end"@ {
        Some(0x4d)
    } else if name == "page_down"@ {
        Some(0x4e)
    } else if name == "right"@ {
        Some(0x4f)
    } else if name == "left"@ {
        Some(0x50)
    } else if name == "down"@ {
        Some(0x51)
    } else if name == "up"@ {
        Some(0x52)
    } else {
        None
    }
}

/// The usage of a modifier key, by its name on a platform.
pub open spec fn modifier_key(platform: InputPlatform, name: Seq<char>) -> Option<u16> {
    let macos = platform is Macos;
    if name == "left_ctrl"@ {
        Some(0xe0)
    } else if name == "left_shift"@ {
        Some(0xe1)
    } else if name == if macos { "left_option"@ } else { "left_alt"@ } {
        Some(0xe2)
    } else if name == if macos { "left_command"@ } else { "left_win"@ } {
        Some(0xe3)
    } else if name == "right_ctrl"@ {
        Some(0xe4)
    } else if name == "right_shift"@ {
        Some(0xe5)
    } else if name == if macos { "right_option"@ } else { "right_alt"@ } {
        Some(0xe6)
    } else if name == if macos { "right_command"@ } else { "right_win"@ } {
        Some(0xe7)
    } else {
        None
    }
}

/// Whether a platform has the key.
pub open spec fn has_key(platform: InputPlatform, usage: u16) -> bool {
    match platform {
        InputPlatform::Macos => 0x04 <= usage <= 0x31 || 0x33 <= usage <= 0x34 || 0x36 <= usage
            <= 0x52 || 0xe0 <= usage <= 0xe7,
        InputPlatform::Windows => 0x04 <= usage <= 0x31 || 0x33 <= usage <= 0x45 || 0x49 <= usage
            <= 0x52 || 0xe0 <= usage <= 0xe7,
    }
}

/// The usage of the key that a name stands for on a platform.
pub open spec fn key_by_name(platform: InputPlatform, name: Seq<char>) -> Option<u16> {
    let usage = if common_key(name) is Some {
        common_key(name)
    } else {
        modifier_key(platform, name)
    };
    if usage is Some && has_key(platform, usage->0) {
        usage
    } else {
        None
    }
}

/// The usages that the entries map, in order up to the first error. Where two names stand for
/// the same key, the later entry counts.
pub open spec fn compiled(
    entries: Seq<(Seq<char>, Seq<char>)>,
    source: InputPlatform,
    target: InputPlatform,
) -> Result<Map<u16, u16>, MappingError>
    decreases entries.len(),
{
    if entries.len() == 0 {
        Ok(Map::empty())
    } else {
        match compiled(entries.drop_last(), source, target) {
            Err(error) => Err(error),
            Ok(mapping) => {
                let entry = (entries.len() - 1) as usize;
                if key_by_name(source, entries.last().0) is None {
                    Err(MappingError::UnsupportedSource { entry })
                } else if key_by_name(target, entries.last().1) is None {
                    Err(MappingError::UnsupportedTarget { entry })
                } else {
                    Ok(
                        mapping.insert(
                            key_by_name(source, entries.last().0)->0,
                            key_by_name(target, entries.last().1)->0,
                        ),
                    )
                }
            },
        }
    }
}

/// The mapping from one platform to another. Between equal platforms nothing is mapped.
pub open spec fn direction(
    macos_to_windows: Seq<(Seq<char>, Seq<char>)>,
    windows_to_macos: Seq<(Seq<char>, Seq<char>)>,
    source: InputPlatform,
    target: InputPlatform,
) -> Result<Map<u16, u16>, MappingError> {
    match (source, target) {
        (InputPlatform::Macos, InputPlatform::Windows) => compiled(macos_to_windows, source, target),
        (InputPlatform::Windows, InputPlatform::Macos) => compiled(windows_to_macos, source, target),
        _ => Ok(Map::empty()),
    }
}

fn find_common_word(name: &Vec<char>) -> (r: Option<u16>)
    ensures
        r == common_word(name@),
{
    if text::is_text(name, "enter") {
        Some(0x28)
    } else if text::is_text(name, "escape") {
        Some(0x29)
    } else if text::is_text(name, "backspace") {
        Some(0x2a)
    } else if text::is_text(name, "tab") {
        Some(0x2b)
    } else if text::is_text(name, "space") {
        Some(0x2c)
    } else if text::is_text(name, "minus") {
        Some(0x2d)
    } else if text::is_text(name, "equal") {
        Some(0x2e)
    } else if text::is_text(name, "left_bracket") {
        Some(0x2f)
    } else if text::is_text(name, "right_bracket") {
        Some(0x30)
    } else if text::is_text(name, "backslash") {
        Some(0x31)
    } else if text::is_text(name, "semicolon") {
        Some(0x33)
    } else if text::is_text(name, "apostrophe") {
        Some(0x34)
    } else if text::is_text(name, "grave") {
        Some(0x35)
    } else if text::is_text(name, "comma") {
        Some(0x36)
    } else if text::is_text(name, "period") {
        Some(0x37)
    } else if text::is_text(name, "slash") {
        Some(0x38)
    } else if text::is_text(name, "caps_lock") {
        Some(0x39)
    } else if text::is_text(name, "insert") {
        Some(0x49)
    } else if text::is_text(name, "home") {
        Some(0x4a)
    } else if text::is_text(name, "page_up") {
        Some(0x4b)
    } else if text::is_text(name, "delete") {
        Some(0x4c)
    } else if text::is_text(name, "end") {
        Some(0x4d)
    } else if text::is_text(name, "page_down") {
        Some(0x4e)
    } else if text::is_text(name, "right") {
        Some(0x4f)
    } else if text::is_text(name, "left") {
        Some(0x50)
    } else if text::is_text(name, "down") {
        Some(0x51)
    } else if text::is_text(name, "up") {
        Some(0x52)
    } else {
        None
    }
}

fn find_common_key(name: &Vec<char>) -> (r: Option<u16>)
    ensures
        r == common_key(name@),
{
    if name.len() == 1 {
        let c = name[0];
        if 'a' <= c && c <= 'z' {
            return Some(0x04 + (c as u8 - 'a' as u8) as u16);
        }
        if '1' <= c && c <= '9' {
            return Some(0x1e + (c as u8 - '1' as u8) as u16);
        }
        if c == '0' {
            return Some(0x27);
        }
    }
    if name.len() > 0 && name[0] == 'f' {
        assert(name@.skip(1) =~= name@.drop_first());
        if let Some(number) = text::parse_u16(name, 1) {
            if 1 <= number && number <= 15 {
                return Some(0x3a + number - 1);
            }
        }
    }
    find_common_word(name)
}

fn find_modifier_key(platform: InputPlatform, name: &Vec<char>) -> (r: Option<u16>)
    ensures
        r == modifier_key(platform, name@),
{
    let macos = matches!(platform, InputPlatform::Macos);
    if text::is_text(name, "left_ctrl") {
        Some(0xe0)
    } else if text::is_text(name, "left_shift") {
        Some(0xe1)
    } else if text::is_text(name, if macos { "left_option" } else { "left_alt" }) {
        Some(0xe2)
    } else if text::is_text(name, if macos { "left_command" } else { "left_win" }) {
        Some(0xe3)
    } else if text::is_text(name, "right_ctrl") {
        Some(0xe4)
    } else if text::is_text(name, "right_shift") {
        Some(0xe5)
    } else if text::is_text(name, if macos { "right_option" } else { "right_alt" }) {
        Some(0xe6)
    } else if text::is_text(name, if macos { "right_command" } else { "right_win" }) {
        Some(0xe7)
    } else {
        None
    }
}

/// The usage of a key whose name is the same on both platforms.
pub fn parse_common_key_name(name: &str) -> (r: Option<u16>)
    ensures
        r == common_key(name@),
{
    find_common_key(&text::chars_of(name))
}

/// The usage of a modifier key, by its name on a platform.
pub fn parse_modifier_name(platform: InputPlatform, name: &str) -> (r: Option<u16>)
    ensures
        r == modifier_key(platform, name@),
{
    find_modifier_key(platform, &text::chars_of(name))
}

/// Whether a platform has the key.
pub fn platform_supports_usage(platform: InputPlatform, usage: u16) -> (r: bool)
    ensures
        r == has_key(platform, usage),
{
    match platform {
        InputPlatform::Macos => (0x04 <= usage && usage <= 0x31) || (0x33 <= usage && usage <= 0x34)
            || (0x36 <= usage && usage <= 0x52) || (0xe0 <= usage && usage <= 0xe7),
        InputPlatform::Windows => (0x04 <= usage && usage <= 0x31) || (0x33 <= usage && usage
            <= 0x45) || (0x49 <= usage && usage <= 0x52) || (0xe0 <= usage && usage <= 0xe7),
    }
}

/// The usage of the key that a name stands for on a platform.
pub fn parse_key_name(platform: InputPlatform, name: &str) -> (r: Option<u16>)
    ensures
        r == key_by_name(platform, name@),
{
    let chars = text::chars_of(name);
    let usage = match find_common_key(&chars) {
        Some(usage) => Some(usage),
        None => find_modifier_key(platform, &chars),
    };
    match usage {
        Some(usage) => if platform_supports_usage(platform, usage) {
            Some(usage)
        } else {
            None
        },
        None => None,
    }
}

proof fn lemma_compile_error_stays(
    entries: Seq<(Seq<char>, Seq<char>)>,
    source: InputPlatform,
    target: InputPlatform,
    k: int,
)
    requires
        0 <= k <= entries.len(),
        compiled(entries.take(k), source, target) is Err,
    ensures
        compiled(entries, source, target) == compiled(entries.take(k), source, target),
    decreases entries.len(),
{
    if k == entries.len() {
        assert(entries.take(k) =~= entries);
    } else {
        assert(entries.drop_last().take(k) =~= entries.take(k));
        lemma_compile_error_stays(entries.drop_last(), source, target, k);
    }
}

fn compile_entries(entries: &NameTable, source: InputPlatform, target: InputPlatform) -> (r: Result<
    BTreeMap<u16, u16>,
    MappingError,
>)
    ensures
        match r {
            Ok(mapping) => compiled(entries@, source, target) == Ok::<Map<u16, u16>, MappingError>(
                mapping@,
            ),
            Err(error) => compiled(entries@, source, target) == Err::<Map<u16, u16>, MappingError>(
                error,
            ),
        },
{
    let mut mapping: BTreeMap<u16, u16> = BTreeMap::new();
    let mut i: usize = 0;
    assert(entries@.take(0) =~= Seq::<(Seq<char>, Seq<char>)>::empty());
    while i < entries.count()
        invariant
            i <= entries@.len(),
            compiled(entries@.take(i as int), source, target) == Ok::<Map<u16, u16>, MappingError>(
                mapping@,
            ),
        decreases entries@.len() - i,
    {
        let ghost next = entries@.take(i + 1);
        proof {
            assert(next.drop_last() =~= entries@.take(i as int));
            assert(next.last() == entries@[i as int]);
        }
        let from = match parse_key_name(source, entries.name_at(i).as_str()) {
            Some(usage) => usage,
            None => {
                proof {
                    lemma_compile_error_stays(entries@, source, target, i + 1);
                }
                return Err(MappingError::UnsupportedSource { entry: i });
            },
        };
        let to = match parse_key_name(target, entries.value_at(i).as_str()) {
            Some(usage) => usage,
            None => {
                proof {
                    lemma_compile_error_stays(entries@, source, target, i + 1);
                }
                return Err(MappingError::UnsupportedTarget { entry: i });
            },
        };
        mapping.insert(from, to);
        i += 1;
    }
    assert(entries@.take(i as int) =~= entries@);
    Ok(mapping)
}

/// The mapping from one platform to another.
pub fn compile_direction(config: &KeyMappingConfig, source: InputPlatform, target: InputPlatform) -> (r: Result<
    BTreeMap<u16, u16>,
    MappingError,
>)
    ensures
        match r {
            Ok(mapping) => direction(
                config.macos_to_windows@,
                config.windows_to_macos@,
                source,
                target,
            ) == Ok::<Map<u16, u16>, MappingError>(mapping@),
            Err(error) => direction(
                config.macos_to_windows@,
                config.windows_to_macos@,
                source,
                target,
            ) == Err::<Map<u16, u16>, MappingError>(error),
        },
{
    match (source, target) {
        (InputPlatform::Macos, InputPlatform::Windows) => compile_entries(
            &config.macos_to_windows,
            source,
            target,
        ),
        (InputPlatform::Windows, InputPlatform::Macos) => compile_entries(
            &config.windows_to_macos,
            source,
            target,
        ),
        _ => Ok(BTreeMap::new()),
    }
}

/// Tests both directions of a mapping.
pub fn validate_key_mapping(config: &KeyMappingConfig) -> (r: Result<(), MappingError>)
    ensures
        r == match compiled(
            config.macos_to_windows@,
            InputPlatform::Macos,
            InputPlatform::Windows,
        ) {
            Err(error) => Err::<(), MappingError>(error),
            Ok(_) => match compiled(
                config.windows_to_macos@,
                InputPlatform::Windows,
                InputPlatform::Macos,
            ) {
                Err(error) => Err(error),
                Ok(_) => Ok(()),
            },
        },
{
    if let Err(error) = compile_direction(config, InputPlatform::Macos, InputPlatform::Windows) {
        return Err(error);
    }
    if let Err(error) = compile_direction(config, InputPlatform::Windows, InputPlatform::Macos) {
        return Err(error);
    }
    Ok(())
}

/// Which of the keys in a set count as modifiers, as bits.
pub open spec fn modifier_bits(keys: Set<u16>) -> u8 {
    let ctrl: int = if keys.contains(0xe0) || keys.contains(0xe4) { 1 } else { 0 };
    let shift: int = if keys.contains(0xe1) || keys.contains(0xe5) { 4 } else { 0 };
    let alt: int = if keys.contains(0xe2) || keys.contains(0xe6) { 2 } else { 0 };
    let meta: int = if keys.contains(0xe3) || keys.contains(0xe7) { 8 } else { 0 };
    (ctrl + alt + shift + meta) as u8
}

/// The members of a set below `limit`, in order.
pub open spec fn members_below(keys: Set<u16>, limit: nat) -> Seq<u16>
    decreases limit,
{
    if limit == 0 {
        Seq::empty()
    } else {
        let before = members_below(keys, (limit - 1) as nat);
        if keys.contains((limit - 1) as u16) {
            before.push((limit - 1) as u16)
        } else {
            before
        }
    }
}

/// The members of a set, in order.
pub open spec fn in_ascending_order(keys: Set<u16>) -> Seq<u16> {
    members_below(keys, 0x1_0000)
}

pub open spec fn ascends(list: Seq<u16>) -> bool {
    forall|i: int, j: int| 0 <= i < j < list.len() ==> (#[trigger] list[i]) < (#[trigger] list[j])
}

proof fn lemma_ascending_is_unique(list: Seq<u16>, keys: Set<u16>, limit: nat)
    requires
        limit <= 0x1_0000,
        ascends(list),
        forall|u: u16| #[trigger] list.contains(u) <==> keys.contains(u) && u < limit,
    ensures
        list == members_below(keys, limit),
    decreases limit,
{
    if limit == 0 {
        if list.len() > 0 {
            assert(list.contains(list[0]));
        }
        assert(list =~= Seq::<u16>::empty());
    } else {
        let top = (limit - 1) as u16;
        if keys.contains(top) {
            assert(list.contains(top));
            let at = choose|at: int| 0 <= at < list.len() && list[at] == top;
            if at < list.len() - 1 {
                assert(list[at] < list[list.len() - 1]);
                assert(list.contains(list[list.len() - 1]));
            }
            let inner = list.drop_last();
            assert forall|u: u16| #[trigger] inner.contains(u) <==> keys.contains(u) && u < limit - 1 by {
                if inner.contains(u) {
                    let i = choose|i: int| 0 <= i < inner.len() && inner[i] == u;
                    assert(list[i] == u);
                    assert(list.contains(u));
                    assert(list[i] < list[list.len() - 1]);
                }
                if keys.contains(u) && u < limit - 1 {
                    assert(list.contains(u));
                    let i = choose|i: int| 0 <= i < list.len() && list[i] == u;
                    assert(inner[i] == u);
                }
            }
            assert(ascends(inner)) by {
                assert forall|i: int, j: int| 0 <= i < j < inner.len() implies (#[trigger] inner[i]) < (#[trigger] inner[j]) by {
                    assert(list[i] < list[j]);
                }
            }
            lemma_ascending_is_unique(inner, keys, (limit - 1) as nat);
            assert(list =~= inner.push(top));
        } else {
            assert forall|u: u16| #[trigger] list.contains(u) <==> keys.contains(u) && u < limit - 1 by {
            }
            lemma_ascending_is_unique(list, keys, (limit - 1) as nat);
        }
    }
}

/// References to numbers are ordered as the numbers.
proof fn lemma_references_are_ordered<'a>()
    ensures
        vstd::laws_cmp::obeys_cmp::<&'a u16>(),
{
    reveal(vstd::laws_eq::obeys_eq_spec_properties);
    reveal(vstd::laws_cmp::obeys_partial_cmp_spec_properties);
    reveal(vstd::laws_cmp::obeys_cmp_partial_ord);
    reveal(vstd::laws_cmp::obeys_cmp_ord);
    assert(vstd::laws_eq::obeys_eq::<&'a u16>());
}

/// The members of a set, in order.
pub fn ascending_keys(set: &BTreeSet<u16>) -> (r: Vec<u16>)
    ensures
        r@ == in_ascending_order(set@),
{
    let mut keys: Vec<u16> = Vec::new();
    for key in iter: set.iter()
        invariant
            keys@.len() == iter.index(),
            forall|i: int| 0 <= i < keys@.len() ==> keys@[i] == *iter.seq()[i],
    {
        keys.push(*key);
    }
    proof {
        let listed = vstd::std_specs::iter::IteratorSpec::remaining(&set.iter());
        assert(keys@ =~= listed.unref());
        assert(listed.unref().to_set() == set@);
        lemma_listed_keys(keys@, listed, set@);
    }
    keys
}

proof fn lemma_listed_keys(keys: Seq<u16>, listed: Seq<&u16>, set: Set<u16>)
    requires
        keys == listed.unref(),
        keys.to_set() == set,
        vstd::std_specs::btree::increasing_seq(listed),
    ensures
        keys == in_ascending_order(set),
{
    lemma_references_are_ordered();
    assert(ascends(keys)) by {
        assert forall|i: int, j: int| 0 <= i < j < keys.len() implies (#[trigger] keys[i]) < (#[trigger] keys[j]) by {
            assert(vstd::std_specs::cmp::OrdSpec::cmp_spec(&listed[i], &listed[j]) is Less);
            assert(keys[i] == *listed[i] && keys[j] == *listed[j]);
        }
    }
    assert forall|u: u16| #[trigger] keys.contains(u) <==> set.contains(u) && u < 0x1_0000 by {
        assert(keys.to_set().contains(u) <==> keys.contains(u));
    }
    lemma_ascending_is_unique(keys, set, 0x1_0000);
}

/// The modifiers among some keys.
pub fn modifiers_from_usages(usages: &Vec<u16>) -> (r: ModifierMask)
    ensures
        r == ModifierMask(modifier_bits(usages@.to_set())),
{
    let mut ctrl: u8 = 0;
    let mut shift: u8 = 0;
    let mut alt: u8 = 0;
    let mut meta: u8 = 0;
    let mut i: usize = 0;
    let ghost all = usages@.to_set();
    while i < usages.len()
        invariant
            i <= usages@.len(),
            ctrl == 0 || ctrl == 1,
            shift == 0 || shift == 4,
            alt == 0 || alt == 2,
            meta == 0 || meta == 8,
            (ctrl == 1) == (usages@.take(i as int).contains(0xe0) || usages@.take(i as int).contains(0xe4)),
            (shift == 4) == (usages@.take(i as int).contains(0xe1) || usages@.take(i as int).contains(0xe5)),
            (alt == 2) == (usages@.take(i as int).contains(0xe2) || usages@.take(i as int).contains(0xe6)),
            (meta == 8) == (usages@.take(i as int).contains(0xe3) || usages@.take(i as int).contains(0xe7)),
        decreases usages@.len() - i,
    {
        let usage: u16 = usages[i];
        proof {
            let before = usages@.take(i as int);
            let after = usages@.take(i + 1);
            assert(after =~= before.push(usage));
            assert forall|u: u16| #[trigger] after.contains(u) <==> before.contains(u) || u == usage by {
                if before.contains(u) {
                    let k = choose|k: int| 0 <= k < before.len() && before[k] == u;
                    assert(after[k] == u);
                }
                if u == usage {
                    assert(after[i as int] == u);
                }
                if after.contains(u) && u != usage {
                    let k = choose|k: int| 0 <= k < after.len() && after[k] == u;
                    assert(before[k] == u);
                }
            }
        }
        if usage == 0xe0 || usage == 0xe4 {
            ctrl = 1;
        } else if usage == 0xe1 || usage == 0xe5 {
            shift = 4;
        } else if usage == 0xe2 || usage == 0xe6 {
            alt = 2;
        } else if usage == 0xe3 || usage == 0xe7 {
            meta = 8;
        }
        i += 1;
    }
    assert(usages@.take(i as int) =~= usages@);
    ModifierMask(ctrl + alt + shift + meta)
}

/// Keys that are down, and how they are mapped.
#[derive(Debug)]
pub struct KeyMapper {
    mapping: BTreeMap<u16, u16>,
    pressed_sources: BTreeMap<u16, u16>,
    target_counts: BTreeMap<u16, usize>,
}

/// A key event after mapping.
#[derive(Clone, Copy, Debug, PartialEq, Eq, Structural)]
pub struct MappedKey {
    pub usage: u16,
    pub modifiers: ModifierMask,
    pub down: bool,
    pub repeat: bool,
}

/// The state of a mapper: which key stands for which, the mapped key that each held key
/// stands for, and how many held keys stand for each mapped key.
pub struct MapperView {
    pub mapping: Map<u16, u16>,
    pub pressed: Map<u16, u16>,
    pub counts: Map<u16, usize>,
}

impl View for KeyMapper {
    type V = MapperView;

    closed spec fn view(&self) -> MapperView {
        MapperView {
            mapping: self.mapping@,
            pressed: self.pressed_sources@,
            counts: self.target_counts@,
        }
    }
}

impl MapperView {
    /// The key that a key is mapped to; keys without an entry stay as they are.
    pub open spec fn target(self, usage: u16) -> u16 {
        if self.mapping.contains_key(usage) {
            self.mapping[usage]
        } else {
            usage
        }
    }

    /// Nothing held.
    pub open spec fn released(self) -> MapperView {
        MapperView { mapping: self.mapping, pressed: Map::empty(), counts: Map::empty() }
    }

    /// How many held keys stand for a mapped key.
    pub open spec fn count(self, target: u16) -> int {
        if self.counts.contains_key(target) {
            self.counts[target] as int
        } else {
            0
        }
    }

    /// One more held key.
    pub open spec fn with_pressed(self, usage: u16) -> MapperView {
        let target = self.target(usage);
        let count = if self.count(target) < usize::MAX {
            self.count(target) + 1
        } else {
            self.count(target)
        };
        MapperView {
            mapping: self.mapping,
            pressed: self.pressed.insert(usage, target),
            counts: self.counts.insert(target, count as usize),
        }
    }

    /// The keys of a list held, one after the other.
    pub open spec fn with_all_pressed(self, usages: Seq<u16>) -> MapperView
        decreases usages.len(),
    {
        if usages.len() == 0 {
            self
        } else {
            self.with_all_pressed(usages.drop_last()).with_pressed(usages.last())
        }
    }

    /// One held key fewer.
    pub open spec fn without_pressed(self, usage: u16) -> MapperView {
        let target = self.pressed[usage];
        MapperView {
            mapping: self.mapping,
            pressed: self.pressed.remove(usage),
            counts: if !self.counts.contains_key(target) {
                self.counts
            } else if self.counts[target] > 1 {
                self.counts.insert(target, (self.counts[target] - 1) as usize)
            } else {
                self.counts.remove(target)
            },
        }
    }

    /// The mapped keys that are down.
    pub open spec fn down(self) -> Set<u16> {
        self.counts.dom()
    }

    /// The modifiers among the mapped keys that are down.
    pub open spec fn modifier_mask(self) -> ModifierMask {
        ModifierMask(modifier_bits(self.down()))
    }

    /// The state after a key event.
    pub open spec fn after_key(self, usage: u16, down: bool, repeat: bool) -> MapperView {
        if repeat {
            self
        } else if down {
            if self.pressed.contains_key(usage) {
                self
            } else {
                self.with_pressed(usage)
            }
        } else if self.pressed.contains_key(usage) {
            self.without_pressed(usage)
        } else {
            self
        }
    }

    /// The mapped key of a key event: that of the held key where it repeats or goes up.
    pub open spec fn event_target(self, usage: u16) -> u16 {
        if self.pressed.contains_key(usage) {
            self.pressed[usage]
        } else {
            self.target(usage)
        }
    }

    /// Whether a key event is passed on. Going down counts for the first key that stands for
    /// the mapped key, going up for the last one.
    pub open spec fn passes(self, usage: u16, down: bool, repeat: bool) -> bool {
        if repeat {
            true
        } else if down {
            !self.pressed.contains_key(usage) && self.count(self.target(usage)) == 0
        } else {
            self.pressed.contains_key(usage) && self.counts.contains_key(self.pressed[usage])
                && self.counts[self.pressed[usage]] <= 1
        }
    }

    /// What is passed on for a key event.
    pub open spec fn key_output(self, usage: u16, down: bool, repeat: bool) -> Option<MappedKey> {
        if self.passes(usage, down, repeat) {
            Some(
                MappedKey {
                    usage: self.event_target(usage),
                    modifiers: self.after_key(usage, down, repeat).modifier_mask(),
                    down,
                    repeat,
                },
            )
        } else {
            None
        }
    }

    /// What is passed on for a snapshot: each mapped key once, in order.
    pub open spec fn snapshot_output(self, snapshot: SnapshotView) -> SnapshotView {
        let after = self.released().with_all_pressed(snapshot.usages);
        SnapshotView {
            usages: in_ascending_order(after.down()),
            modifiers: after.modifier_mask(),
            buttons: snapshot.buttons,
        }
    }
}

impl KeyMapper {
    /// A mapper between two platforms. Between equal platforms every key stays as it is, and
    /// the mapping is not even read.
    pub fn new(config: &KeyMappingConfig, local: InputPlatform, remote: InputPlatform) -> (r: Result<
        Self,
        MappingError,
    >)
        ensures
            match r {
                Ok(mapper) => {
                    &&& direction(
                        config.macos_to_windows@,
                        config.windows_to_macos@,
                        local,
                        remote,
                    ) == Ok::<Map<u16, u16>, MappingError>(mapper@.mapping)
                    &&& mapper@.pressed == Map::<u16, u16>::empty()
                    &&& mapper@.counts == Map::<u16, usize>::empty()
                },
                Err(error) => direction(
                    config.macos_to_windows@,
                    config.windows_to_macos@,
                    local,
                    remote,
                ) == Err::<Map<u16, u16>, MappingError>(error),
            },
    {
        match compile_direction(config, local, remote) {
            Ok(mapping) => Ok(
                KeyMapper {
                    mapping,
                    pressed_sources: BTreeMap::new(),
                    target_counts: BTreeMap::new(),
                },
            ),
            Err(error) => Err(error),
        }
    }

    /// Forgets which keys are held.
    pub fn clear(&mut self)
        ensures
            final(self)@ == old(self)@.released(),
    {
        self.pressed_sources.clear();
        self.target_counts.clear();
    }

    /// The key that a key is mapped to.
    pub fn map_usage(&self, usage: u16) -> (r: u16)
        ensures
            r == self@.target(usage),
    {
        match self.mapping.get(&usage) {
            Some(target) => *target,
            None => usage,
        }
    }

    /// The modifiers among the mapped keys that are down.
    pub fn modifiers(&self) -> (r: ModifierMask)
        ensures
            r == self@.modifier_mask(),
    {
        let down = &self.target_counts;
        let ctrl: u8 = if down.contains_key(&0xe0) || down.contains_key(&0xe4) { 1 } else { 0 };
        let shift: u8 = if down.contains_key(&0xe1) || down.contains_key(&0xe5) { 4 } else { 0 };
        let alt: u8 = if down.contains_key(&0xe2) || down.contains_key(&0xe6) { 2 } else { 0 };
        let meta: u8 = if down.contains_key(&0xe3) || down.contains_key(&0xe7) { 8 } else { 0 };
        ModifierMask(ctrl + alt + shift + meta)
    }

    fn count_of(&self, target: u16) -> (r: usize)
        ensures
            r == self@.count(target),
    {
        match self.target_counts.get(&target) {
            Some(count) => *count,
            None => 0,
        }
    }

    fn press(&mut self, usage: u16) -> (r: u16)
        ensures
            final(self)@ == old(self)@.with_pressed(usage),
            r == old(self)@.target(usage),
    {
        let target: u16 = self.map_usage(usage);
        let count: usize = self.count_of(target).saturating_add(1);
        self.pressed_sources.insert(usage, target);
        self.target_counts.insert(target, count);
        target
    }

    fn down_keys(&self) -> (r: Vec<u16>)
        ensures
            r@ == in_ascending_order(self@.down()),
    {
        let mut keys: Vec<u16> = Vec::new();
        let down = &self.target_counts;
        for key in iter: down.keys()
            invariant
                keys@.len() == iter.index(),
                forall|i: int| 0 <= i < keys@.len() ==> keys@[i] == *iter.seq()[i],
        {
            keys.push(*key);
        }
        proof {
            let listed = vstd::std_specs::iter::IteratorSpec::remaining(&down.keys());
            assert(keys@ =~= listed.unref());
            assert(listed.unref().to_set() == down@.dom());
            lemma_listed_keys(keys@, listed, down@.dom());
        }
        keys
    }

    /// Takes over the keys that are held, and gives the mapped ones.
    pub fn map_snapshot(&mut self, snapshot: &KeySnapshot) -> (r: KeySnapshot)
        ensures
            final(self)@ == old(self)@.released().with_all_pressed(snapshot@.usages),
            r@ == old(self)@.snapshot_output(snapshot@),
    {
        self.clear();
        let ghost start = self@;
        let mut i: usize = 0;
        assert(snapshot.usages@.take(0) =~= Seq::<u16>::empty());
        while i < snapshot.usages.len()
            invariant
                i <= snapshot.usages@.len(),
                self@ == start.with_all_pressed(snapshot.usages@.take(i as int)),
            decreases snapshot.usages@.len() - i,
        {
            proof {
                let next = snapshot.usages@.take(i + 1);
                assert(next.drop_last() =~= snapshot.usages@.take(i as int));
                assert(next.last() == snapshot.usages@[i as int]);
            }
            let source: u16 = snapshot.usages[i];
            self.press(source);
            i += 1;
        }
        assert(snapshot.usages@.take(i as int) =~= snapshot.usages@);
        let buttons = snapshot.buttons.clone();
        assert(buttons@ =~= snapshot.buttons@);
        KeySnapshot { usages: self.down_keys(), modifiers: self.modifiers(), buttons }
    }

    /// Maps a key event and says what to pass on, if anything.
    pub fn map_key(&mut self, usage: u16, down: bool, repeat: bool) -> (r: Option<MappedKey>)
        ensures
            final(self)@ == old(self)@.after_key(usage, down, repeat),
            r == old(self)@.key_output(usage, down, repeat),
    {
        if repeat {
            let target: u16 = match self.pressed_sources.get(&usage) {
                Some(target) => *target,
                None => self.map_usage(usage),
            };
            return Some(MappedKey { usage: target, modifiers: self.modifiers(), down, repeat });
        }
        let target: u16 = if down {
            if self.pressed_sources.contains_key(&usage) {
                return None;
            }
            let before: usize = self.count_of(self.map_usage(usage));
            let target: u16 = self.press(usage);
            if before > 0 {
                return None;
            }
            target
        } else {
            let target: u16 = match self.pressed_sources.remove(&usage) {
                Some(target) => target,
                None => {
                    assert(self@.pressed =~= old(self)@.pressed);
                    return None;
                },
            };
            if !self.target_counts.contains_key(&target) {
                return None;
            }
            let count: usize = self.count_of(target);
            if count > 1 {
                self.target_counts.insert(target, count - 1);
                return None;
            }
            self.target_counts.remove(&target);
            target
        };
        Some(MappedKey { usage: target, modifiers: self.modifiers(), down, repeat })
    }
}

/// Putting in an entry replaces the one with its name and leaves all others as they are.
pub proof fn table_keeps_the_other_entries(
    entries: Seq<(Seq<char>, Seq<char>)>,
    name: Seq<char>,
    value: Seq<char>,
    other: (Seq<char>, Seq<char>),
)
    requires
        names_ascend(entries),
    ensures
        with_entry(entries, name, value).contains(other) <==> if other.0 == name {
            other.1 == value
        } else {
            entries.contains(other)
        },
    decreases entries.len(),
{
    let grown = with_entry(entries, name, value);
    table_stays_in_order(entries, name, value);
    lemma_text_before_asymmetric(name, name);
    if entries.contains(other) && other.0 != name {
        let m = choose|m: int| 0 <= m < entries.len() && entries[m] == other;
        if entries.len() == 0 || text_before(entries.last().0, name) {
            assert(grown[m] == other);
        } else if entries.last().0 == name {
            assert(grown[m] == other);
        } else if m == entries.len() - 1 {
            assert(grown[grown.len() - 1] == other);
        } else {
            let rest = entries.drop_last();
            assert forall|i: int, j: int| 0 <= i < j < rest.len() implies text_before(
                (#[trigger] rest[i]).0,
                (#[trigger] rest[j]).0,
            ) by {
                assert(rest[i] == entries[i] && rest[j] == entries[j]);
            }
            assert(rest[m] == other);
            table_keeps_the_other_entries(rest, name, value, other);
            let inner = with_entry(rest, name, value);
            let at = choose|at: int| 0 <= at < inner.len() && inner[at] == other;
            assert(grown[at] == other);
        }
    }
    if grown.contains(other) {
        let at = choose|at: int| 0 <= at < grown.len() && grown[at] == other;
        lemma_with_entry_members(entries, name, value, at);
        if other.0 == name {
            let put = choose|put: int| 0 <= put < grown.len() && grown[put] == (name, value);
            if at < put {
                assert(text_before(grown[at].0, grown[put].0));
            } else if put < at {
                assert(text_before(grown[put].0, grown[at].0));
            }
        }
    }
}

} // verus!
