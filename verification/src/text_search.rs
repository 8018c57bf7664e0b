//! Typeahead support: keyboard layouts, the physical key codes they share, layout
//! detection from observed key presses, and phonetically related characters.
use vstd::prelude::*;

verus! {

/// A keyboard layout that typeahead matching knows about.
#[derive(Clone, Copy, PartialEq, Eq, Structural, Debug)]
pub enum KeyboardLayout {
    /// QWERTY.
    Qwerty,
    /// Colemak-DH.
    ColemakDH,
    /// Colemak.
    Colemak,
    /// Dvorak.
    Dvorak,
    /// Workman.
    Workman,
    /// AZERTY.
    Azerty,
    /// QWERTZ.
    Qwertz,
    /// No layout could be determined.
    Unknown,
}

impl Default for KeyboardLayout {
    fn default() -> (r: KeyboardLayout)
        ensures
            r == KeyboardLayout::Unknown,
    {
        KeyboardLayout::Unknown
    }
}

/// The four rows (digits, top, home, bottom) of ten keys of each known layout; none for
/// `Unknown`.
pub open spec fn layout_rows(l: KeyboardLayout) -> Seq<Seq<char>> {
    match l {
        KeyboardLayout::Qwerty => seq![
            seq!['1', '2', '3', '4', '5', '6', '7', '8', '9', '0'],
            seq!['q', 'w', 'e', 'r', 't', 'y', 'u', 'i', 'o', 'p'],
            seq!['a', 's', 'd', 'f', 'g', 'h', 'j', 'k', 'l', ';'],
            seq!['z', 'x', 'c', 'v', 'b', 'n', 'm', ',', '.', '/'],
        ],
        KeyboardLayout::ColemakDH => seq![
            seq!['1', '2', '3', '4', '5', '6', '7', '8', '9', '0'],
            seq!['q', 'w', 'f', 'p', 'b', 'j', 'l', 'u', 'y', ';'],
            seq!['a', 'r', 's', 't', 'g', 'm', 'n', 'e', 'i', 'o'],
            seq!['x', 'c', 'd', 'v', 'z', 'k', 'h', ',', '.', '/'],
        ],
        KeyboardLayout::Colemak => seq![
            seq!['1', '2', '3', '4', '5', '6', '7', '8', '9', '0'],
            seq!['q', 'w', 'f', 'p', 'g', 'j', 'l', 'u', 'y', ';'],
            seq!['a', 'r', 's', 't', 'd', 'h', 'n', 'e', 'i', 'o'],
            seq!['z', 'x', 'c', 'v', 'b', 'k', 'm', ',', '.', '/'],
        ],
        KeyboardLayout::Dvorak => seq![
            seq!['1', '2', '3', '4', '5', '6', '7', '8', '9', '0'],
            seq!['\'', ',', '.', 'p', 'y', 'f', 'g', 'c', 'r', 'l'],
            seq!['a', 'o', 'e', 'u', 'i', 'd', 'h', 't', 'n', 's'],
            seq![';', 'q', 'j', 'k', 'x', 'b', 'm', 'w', 'v', 'z'],
        ],
        KeyboardLayout::Workman => seq![
            seq!['1', '2', '3', '4', '5', '6', '7', '8', '9', '0'],
            seq!['q', 'd', 'r', 'w', 'b', 'j', 'f', 'u', 'p', ';'],
            seq!['a', 's', 'h', 't', 'g', 'y', 'n', 'e', 'o', 'i'],
            seq!['z', 'x', 'm', 'c', 'v', 'k', 'l', ',', '.', '/'],
        ],
        KeyboardLayout::Azerty => seq![
            seq!['1', '2', '3', '4', '5', '6', '7', '8', '9', '0'],
            seq!['a', 'z', 'e', 'r', 't', 'y', 'u', 'i', 'o', 'p'],
            seq!['q', 's', 'd', 'f', 'g', 'h', 'j', 'k', 'l', 'm'],
            seq!['w', 'x', 'c', 'v', 'b', 'n', ',', ';', ':', '!'],
        ],
        KeyboardLayout::Qwertz => seq![
            seq!['1', '2', '3', '4', '5', '6', '7', '8', '9', '0'],
            seq!['q', 'w', 'e', 'r', 't', 'z', 'u', 'i', 'o', 'p'],
            seq!['a', 's', 'd', 'f', 'g', 'h', 'j', 'k', 'l', 'ö'],
            seq!['y', 'x', 'c', 'v', 'b', 'n', 'm', ',', '.', '-'],
        ],
        KeyboardLayout::Unknown => Seq::empty(),
    }
}

/// Row `row` of a known layout.
fn layout_row(l: KeyboardLayout, row: usize) -> (r: [char; 10])
    requires
        l != KeyboardLayout::Unknown,
        row < 4,
    ensures
        r@ == layout_rows(l)[row as int],
{
    match l {
        KeyboardLayout::Qwerty => match row {
            0 => ['1', '2', '3', '4', '5', '6', '7', '8', '9', '0'],
            1 => ['q', 'w', 'e', 'r', 't', 'y', 'u', 'i', 'o', 'p'],
            2 => ['a', 's', 'd', 'f', 'g', 'h', 'j', 'k', 'l', ';'],
            _ => ['z', 'x', 'c', 'v', 'b', 'n', 'm', ',', '.', '/'],
        },
        KeyboardLayout::ColemakDH => match row {
            0 => ['1', '2', '3', '4', '5', '6', '7', '8', '9', '0'],
            1 => ['q', 'w', 'f', 'p', 'b', 'j', 'l', 'u', 'y', ';'],
            2 => ['a', 'r', 's', 't', 'g', 'm', 'n', 'e', 'i', 'o'],
            _ => ['x', 'c', 'd', 'v', 'z', 'k', 'h', ',', '.', '/'],
        },
        KeyboardLayout::Colemak => match row {
            0 => ['1', '2', '3', '4', '5', '6', '7', '8', '9', '0'],
            1 => ['q', 'w', 'f', 'p', 'g', 'j', 'l', 'u', 'y', ';'],
            2 => ['a', 'r', 's', 't', 'd', 'h', 'n', 'e', 'i', 'o'],
            _ => ['z', 'x', 'c', 'v', 'b', 'k', 'm', ',', '.', '/'],
        },
        KeyboardLayout::Dvorak => match row {
            0 => ['1', '2', '3', '4', '5', '6', '7', '8', '9', '0'],
            1 => ['\'', ',', '.', 'p', 'y', 'f', 'g', 'c', 'r', 'l'],
            2 => ['a', 'o', 'e', 'u', 'i', 'd', 'h', 't', 'n', 's'],
            _ => [';', 'q', 'j', 'k', 'x', 'b', 'm', 'w', 'v', 'z'],
        },
        KeyboardLayout::Workman => match row {
            0 => ['1', '2', '3', '4', '5', '6', '7', '8', '9', '0'],
            1 => ['q', 'd', 'r', 'w', 'b', 'j', 'f', 'u', 'p', ';'],
            2 => ['a', 's', 'h', 't', 'g', 'y', 'n', 'e', 'o', 'i'],
            _ => ['z', 'x', 'm', 'c', 'v', 'k', 'l', ',', '.', '/'],
        },
        KeyboardLayout::Azerty => match row {
            0 => ['1', '2', '3', '4', '5', '6', '7', '8', '9', '0'],
            1 => ['a', 'z', 'e', 'r', 't', 'y', 'u', 'i', 'o', 'p'],
            2 => ['q', 's', 'd', 'f', 'g', 'h', 'j', 'k', 'l', 'm'],
            _ => ['w', 'x', 'c', 'v', 'b', 'n', ',', ';', ':', '!'],
        },
        KeyboardLayout::Qwertz => match row {
            0 => ['1', '2', '3', '4', '5', '6', '7', '8', '9', '0'],
            1 => ['q', 'w', 'e', 'r', 't', 'z', 'u', 'i', 'o', 'p'],
            2 => ['a', 's', 'd', 'f', 'g', 'h', 'j', 'k', 'l', 'ö'],
            _ => ['y', 'x', 'c', 'v', 'b', 'n', 'm', ',', '.', '-'],
        },
        KeyboardLayout::Unknown => ['1', '2', '3', '4', '5', '6', '7', '8', '9', '0'],
    }
}

/// Whether `c` is the key in column `col` of row `row` of `l`.
pub open spec fn key_at(l: KeyboardLayout, c: char, col: int, row: int) -> bool {
    let rows = layout_rows(l);
    0 <= row < rows.len() && 0 <= col < rows[row].len() && rows[row][col] == c
}

/// Whether `(col, row)` is the first place of `c` in `l`, rows taken top to bottom and
/// each row left to right.
pub open spec fn first_key_at(l: KeyboardLayout, c: char, col: int, row: int) -> bool {
    &&& key_at(l, c, col, row)
    &&& forall|col2: int, row2: int|
        (row2 < row || (row2 == row && col2 < col)) ==> !#[trigger] key_at(l, c, col2, row2)
}

/// A first place of `c` in `l`, when there is one.
pub open spec fn some_first_key(l: KeyboardLayout, c: char) -> (int, int) {
    choose|col: int, row: int| first_key_at(l, c, col, row)
}

/// The `(column, row)` where `c` first occurs in `l`, if it occurs.
pub open spec fn position_of(l: KeyboardLayout, c: char) -> Option<(int, int)> {
    if exists|col: int, row: int| first_key_at(l, c, col, row) {
        Some(some_first_key(l, c))
    } else {
        None
    }
}

/// A position taken as integers.
pub open spec fn position_view(p: Option<(usize, usize)>) -> Option<(int, int)> {
    match p {
        Some((col, row)) => Some((col as int, row as int)),
        None => None,
    }
}

/// There is at most one first place of a character.
pub proof fn lemma_first_key_unique(l: KeyboardLayout, c: char, col1: int, row1: int, col2: int, row2: int)
    requires
        first_key_at(l, c, col1, row1),
        first_key_at(l, c, col2, row2),
    ensures
        col1 == col2 && row1 == row2,
{
    if row1 < row2 || (row1 == row2 && col1 < col2) {
        assert(!key_at(l, c, col1, row1));
    } else if row2 < row1 || (row2 == row1 && col2 < col1) {
        assert(!key_at(l, c, col2, row2));
    }
}

impl KeyboardLayout {
    /// The `(column, row)` of `c` on this layout; `None` for characters it lacks and for
    /// `Unknown`.
    pub fn char_position(&self, c: char) -> (r: Option<(usize, usize)>)
        ensures
            position_view(r) == position_of(*self, c),
            r matches Some((col, row)) ==> col < 10 && row < 4,
    {
        let l = *self;
        if l == KeyboardLayout::Unknown {
            proof {
                if exists|col: int, row: int| first_key_at(l, c, col, row) {
                    let p = some_first_key(l, c);
                    assert(key_at(l, c, p.0, p.1));
                }
            }
            return None;
        }
        assert(layout_rows(l).len() == 4);
        let mut row: usize = 0;
        while row < 4
            invariant
                row <= 4,
                l == *self,
                l != KeyboardLayout::Unknown,
                layout_rows(l).len() == 4,
                forall|r: int| 0 <= r < 4 ==> #[trigger] layout_rows(l)[r].len() == 10,
                forall|col2: int, row2: int| row2 < row ==> !#[trigger] key_at(l, c, col2, row2),
            decreases 4 - row,
        {
            let keys = layout_row(l, row);
            let mut col: usize = 0;
            while col < 10
                invariant
                    col <= 10,
                    row < 4,
                    l == *self,
                    layout_rows(l).len() == 4,
                    layout_rows(l)[row as int].len() == 10,
                    keys@ == layout_rows(l)[row as int],
                    forall|col2: int, row2: int| row2 < row ==> !#[trigger] key_at(l, c, col2, row2),
                    forall|col2: int| col2 < col ==> !#[trigger] key_at(l, c, col2, row as int),
                decreases 10 - col,
            {
                if keys[col] == c {
                    proof {
                        assert(key_at(l, c, col as int, row as int));
                        assert(first_key_at(l, c, col as int, row as int));
                        let p = some_first_key(l, c);
                        lemma_first_key_unique(l, c, p.0, p.1, col as int, row as int);
                        assert(position_of(l, c) == Some(p));
                        assert(p == (col as int, row as int));
                    }
                    return Some((col, row));
                }
                col = col + 1;
            }
            row = row + 1;
        }
        proof {
            if exists|col: int, row: int| first_key_at(l, c, col, row) {
                let p = some_first_key(l, c);
                assert(key_at(l, c, p.0, p.1));
            }
        }
        None
    }
}

/// The character a physical key code stands for on a QWERTY keyboard: `KeyA`..`KeyZ` give
/// the lower-case letter, `Digit0`..`Digit9` the digit; other codes give none.
pub open spec fn code_char(code: Seq<char>) -> Option<char> {
    if code.len() == 4 && code[0] == 'K' && code[1] == 'e' && code[2] == 'y' && 'A' <= code[3]
        && code[3] <= 'Z' {
        Some(((code[3] as int) + 32) as char)
    } else if code.len() == 6 && code[0] == 'D' && code[1] == 'i' && code[2] == 'g' && code[3]
        == 'i' && code[4] == 't' && '0' <= code[5] && code[5] <= '9' {
        Some(code[5])
    } else {
        None
    }
}

/// The character of a key code such as `KeyQ` or `Digit7`.
pub fn code_to_char(code: &str) -> (r: Option<char>)
    ensures
        r == code_char(code@),
{
    let n = code.unicode_len();
    if n == 4 && code.get_char(0) == 'K' && code.get_char(1) == 'e' && code.get_char(2) == 'y' {
        let c = code.get_char(3);
        if 'A' <= c && c <= 'Z' {
            let b: u8 = c as u8;
            return Some((b + 32) as char);
        }
        return None;
    }
    if n == 6 && code.get_char(0) == 'D' && code.get_char(1) == 'i' && code.get_char(2) == 'g'
        && code.get_char(3) == 'i' && code.get_char(4) == 't' {
        let c = code.get_char(5);
        if '0' <= c && c <= '9' {
            return Some(c);
        }
    }
    None
}

/// The layouts that detection tries, in order of preference.
pub open spec fn known_layouts() -> Seq<KeyboardLayout> {
    seq![
        KeyboardLayout::Qwerty,
        KeyboardLayout::ColemakDH,
        KeyboardLayout::Colemak,
        KeyboardLayout::Dvorak,
        KeyboardLayout::Workman,
        KeyboardLayout::Azerty,
        KeyboardLayout::Qwertz,
    ]
}

/// Whether pressing the physical key `code` typing `to` agrees with layout `l`: the code
/// names a QWERTY key, and `to` sits at that key's place on `l`.
pub open spec fn entry_fits(l: KeyboardLayout, code: Seq<char>, to: char) -> bool {
    match code_char(code) {
        Some(from) => position_of(KeyboardLayout::Qwerty, from) is Some && position_of(
            KeyboardLayout::Qwerty,
            from,
        ) == position_of(l, to),
        None => false,
    }
}

/// Whether every observed key press agrees with `l`.
pub open spec fn fits_all(l: KeyboardLayout, entries: Seq<(Seq<char>, char)>) -> bool {
    forall|i: int| 0 <= i < entries.len() ==> #[trigger] entry_fits(l, entries[i].0, entries[i].1)
}

/// The first known layout, from index `k` on, that every key press agrees with.
pub open spec fn guess_from(entries: Seq<(Seq<char>, char)>, k: int) -> KeyboardLayout
    decreases 7 - k,
{
    if k < 0 || k >= 7 {
        KeyboardLayout::Unknown
    } else if fits_all(known_layouts()[k], entries) {
        known_layouts()[k]
    } else {
        guess_from(entries, k + 1)
    }
}

/// The layout detected from the observed key presses: the first known layout they all
/// agree with, else `Unknown`.
pub open spec fn guess_spec(entries: Seq<(Seq<char>, char)>) -> KeyboardLayout {
    guess_from(entries, 0)
}

/// Observed key presses as plain values.
pub open spec fn entries_view(s: Seq<(String, char)>) -> Seq<(Seq<char>, char)> {
    Seq::new(s.len(), |i: int| (s[i].0@, s[i].1))
}

fn known_layout(k: usize) -> (r: KeyboardLayout)
    requires
        k < 7,
    ensures
        r == known_layouts()[k as int],
{
    match k {
        0 => KeyboardLayout::Qwerty,
        1 => KeyboardLayout::ColemakDH,
        2 => KeyboardLayout::Colemak,
        3 => KeyboardLayout::Dvorak,
        4 => KeyboardLayout::Workman,
        5 => KeyboardLayout::Azerty,
        _ => KeyboardLayout::Qwertz,
    }
}

fn entry_fits_exec(l: KeyboardLayout, code: &str, to: char) -> (r: bool)
    ensures
        r == entry_fits(l, code@, to),
{
    match code_to_char(code) {
        None => false,
        Some(from) => match (KeyboardLayout::Qwerty.char_position(from), l.char_position(to)) {
            (Some(a), Some(b)) => a.0 == b.0 && a.1 == b.1,
            (Some(a), None) => false,
            (None, _) => false,
        },
    }
}

fn fits_all_exec(l: KeyboardLayout, known: &[(String, char)]) -> (r: bool)
    ensures
        r == fits_all(l, entries_view(known@)),
{
    let ghost e = entries_view(known@);
    let mut i: usize = 0;
    while i < known.len()
        invariant
            0 <= i <= known@.len(),
            e == entries_view(known@),
            forall|j: int| 0 <= j < i ==> #[trigger] entry_fits(l, e[j].0, e[j].1),
        decreases known@.len() - i,
    {
        let (code, to) = &known[i];
        if !entry_fits_exec(l, code.as_str(), *to) {
            assert(!entry_fits(l, e[i as int].0, e[i as int].1));
            return false;
        }
        i = i + 1;
    }
    true
}

impl KeyboardLayout {
    /// Detects the layout from observed `(key code, typed character)` pairs: the first
    /// known layout that all of them agree with, or `Unknown`.
    pub fn guess(known_key_positions: &[(String, char)]) -> (r: KeyboardLayout)
        ensures
            r == guess_spec(entries_view(known_key_positions@)),
    {
        let ghost e = entries_view(known_key_positions@);
        let mut k: usize = 0;
        while k < 7
            invariant
                k <= 7,
                e == entries_view(known_key_positions@),
                guess_spec(e) == guess_from(e, k as int),
            decreases 7 - k,
        {
            let l = known_layout(k);
            if fits_all_exec(l, known_key_positions) {
                return l;
            }
            k = k + 1;
        }
        KeyboardLayout::Unknown
    }
}

/// Whether some entry of `m` has key `code`.
pub open spec fn has_code(m: Seq<(Seq<char>, char)>, code: Seq<char>) -> bool {
    exists|j: int| 0 <= j < m.len() && #[trigger] m[j].0 == code
}

/// The index of an entry of `m` with key `code`.
pub open spec fn code_index(m: Seq<(Seq<char>, char)>, code: Seq<char>) -> int {
    choose|j: int| 0 <= j < m.len() && #[trigger] m[j].0 == code
}

/// The character learned for `code`, if any.
pub open spec fn mapped(m: Seq<(Seq<char>, char)>, code: Seq<char>) -> Option<char> {
    if has_code(m, code) {
        Some(m[code_index(m, code)].1)
    } else {
        None
    }
}

/// No key code occurs twice.
pub open spec fn codes_distinct(m: Seq<(Seq<char>, char)>) -> bool {
    forall|i: int, j: int| 0 <= i < m.len() && 0 <= j < m.len() && i != j ==> #[trigger] m[i].0 != #[trigger] m[j].0
}

/// The entries after learning that `code` types `c`: an entry with that code is
/// replaced in place, else one is added at the end.
pub open spec fn learned(m: Seq<(Seq<char>, char)>, code: Seq<char>, c: char) -> Seq<(Seq<char>, char)> {
    if has_code(m, code) {
        m.update(code_index(m, code), (code, c))
    } else {
        m.push((code, c))
    }
}

/// Learns the keyboard layout from the key presses it observes.
pub struct AdaptiveKeyboard {
    physical_mappings: Vec<(String, char)>,
    layout: KeyboardLayout,
}

impl AdaptiveKeyboard {
    /// The observed `(key code, character)` pairs, in the order first seen.
    pub closed spec fn mappings(&self) -> Seq<(Seq<char>, char)> {
        entries_view(self.physical_mappings@)
    }

    /// The detected layout.
    pub closed spec fn layout_spec(&self) -> KeyboardLayout {
        self.layout
    }

    /// Each code is learned once and the layout is the one the pairs give.
    pub open spec fn wf(&self) -> bool {
        &&& codes_distinct(self.mappings())
        &&& self.layout_spec() == guess_spec(self.mappings())
    }

    /// A keyboard that has seen nothing and assumes QWERTY.
    pub fn new() -> (r: AdaptiveKeyboard)
        ensures
            r.wf(),
            r.mappings() == Seq::<(Seq<char>, char)>::empty(),
            r.layout_spec() == KeyboardLayout::Qwerty,
    {
        let r = AdaptiveKeyboard { physical_mappings: Vec::new(), layout: KeyboardLayout::Qwerty };
        proof {
            assert(r.mappings() =~= Seq::<(Seq<char>, char)>::empty());
            assert(fits_all(KeyboardLayout::Qwerty, r.mappings()));
        }
        r
    }

    /// Records that the physical key `physical_code` typed `logical_char`, and detects the
    /// layout again.
    pub fn learn_from_event(&mut self, physical_code: &str, logical_char: char)
        requires
            old(self).wf(),
        ensures
            final(self).wf(),
            final(self).mappings() == learned(old(self).mappings(), physical_code@, logical_char),
            final(self).layout_spec() == guess_spec(final(self).mappings()),
    {
        let ghost m = self.mappings();
        let code = physical_code.to_owned();
        let mut i: usize = 0;
        let n = self.physical_mappings.len();
        while i < n
            invariant
                0 <= i <= n,
                n == self.physical_mappings@.len(),
                m == self.mappings(),
                code@ == physical_code@,
                forall|j: int| 0 <= j < i ==> #[trigger] m[j].0 != code@,
            ensures
                i <= n,
                i < n ==> m[i as int].0 == code@,
                forall|j: int| 0 <= j < i ==> #[trigger] m[j].0 != code@,
            decreases n - i,
        {
            if self.physical_mappings[i].0.eq(&code) {
                break;
            }
            i = i + 1;
        }
        let ghost nm;
        if i < n {
            proof {
                assert(m[i as int].0 == code@);
                assert(has_code(m, code@));
                let j = code_index(m, code@);
                if j != i {
                    assert(m[j].0 != m[i as int].0);
                }
            }
            self.physical_mappings.set(i, (code, logical_char));
            proof {
                nm = m.update(i as int, (physical_code@, logical_char));
                assert(self.mappings() =~= nm);
            }
        } else {
            proof {
                assert(!has_code(m, code@));
            }
            self.physical_mappings.push((code, logical_char));
            proof {
                nm = m.push((physical_code@, logical_char));
                assert(self.mappings() =~= nm);
            }
        }
        let layout = KeyboardLayout::guess(self.physical_mappings.as_slice());
        self.layout = layout;
        proof {
            assert(self.mappings() == nm);
            assert(codes_distinct(nm));
        }
    }

    /// The detected layout.
    pub fn layout(&self) -> (r: KeyboardLayout)
        ensures
            r == self.layout_spec(),
    {
        self.layout
    }

    /// The character learned for `physical_code`, if any.
    pub fn mapping(&self, physical_code: &str) -> (r: Option<char>)
        requires
            self.wf(),
        ensures
            r == mapped(self.mappings(), physical_code@),
    {
        let ghost m = self.mappings();
        let code = physical_code.to_owned();
        let mut i: usize = 0;
        while i < self.physical_mappings.len()
            invariant
                0 <= i <= self.physical_mappings@.len(),
                m == self.mappings(),
                codes_distinct(m),
                code@ == physical_code@,
                forall|j: int| 0 <= j < i ==> #[trigger] m[j].0 != code@,
            decreases self.physical_mappings@.len() - i,
        {
            if self.physical_mappings[i].0.eq(&code) {
                proof {
                    assert(m[i as int].0 == code@);
                    let j = code_index(m, code@);
                    if j != i {
                        assert(m[j].0 != m[i as int].0);
                    }
                }
                return Some(self.physical_mappings[i].1);
            }
            i = i + 1;
        }
        None
    }
}

impl Default for AdaptiveKeyboard {
    fn default() -> (r: AdaptiveKeyboard)
        ensures
            r.wf(),
            r.mappings() == Seq::<(Seq<char>, char)>::empty(),
            r.layout_spec() == KeyboardLayout::Qwerty,
    {
        AdaptiveKeyboard::new()
    }
}

/// Small groups of characters that sound alike across Latin, Cyrillic, Greek, Arabic and
/// Bengali script.
pub open spec fn phonetic_groups() -> Seq<Seq<char>> {
    seq![
        seq!['a', 'а', 'α', 'ا', 'আ'],
        seq!['b', 'б', 'β', 'ب', 'ব'],
        seq!['s', 'с', 'σ', 'س', 'স'],
        seq!['t', 'т', 'τ', 'ت', 'ত'],
        seq!['n', 'н', 'ν', 'ن', 'ন'],
        seq!['r', 'р', 'ρ', 'ر', 'র'],
        seq!['l', 'л', 'λ', 'ل', 'ল'],
        seq!['m', 'м', 'μ', 'م', 'ম'],
        seq!['k', 'к', 'κ', 'ك', 'ক'],
        seq!['p', 'п', 'π', 'پ', 'প'],
        seq!['f', 'ф', 'φ', 'ف', 'ফ'],
        seq!['o', 'о', 'ο', 'و', 'ও'],
        seq!['e', 'е', 'ε', 'ه', 'এ'],
        seq!['i', 'и', 'ι', 'ي', 'ই'],
        seq!['u', 'у', 'υ', 'و', 'উ'],
        seq!['d', 'д', 'δ', 'د', 'দ'],
        seq!['g', 'г', 'γ', 'ج', 'গ'],
        seq!['h', 'х', 'η', 'ه', 'হ'],
        seq!['v', 'в', 'β', 'و', 'ভ'],
        seq!['z', 'з', 'ζ', 'ز', 'জ'],
        seq!['y', 'й', 'υ', 'ي'],
    ]
}

fn phonetic_group(g: usize) -> (r: Vec<char>)
    requires
        g < 21,
    ensures
        r@ == phonetic_groups()[g as int],
{
    match g {
        0 => vec!['a', 'а', 'α', 'ا', 'আ'],
        1 => vec!['b', 'б', 'β', 'ب', 'ব'],
        2 => vec!['s', 'с', 'σ', 'س', 'স'],
        3 => vec!['t', 'т', 'τ', 'ت', 'ত'],
        4 => vec!['n', 'н', 'ν', 'ن', 'ন'],
        5 => vec!['r', 'р', 'ρ', 'ر', 'র'],
        6 => vec!['l', 'л', 'λ', 'ل', 'ল'],
        7 => vec!['m', 'м', 'μ', 'م', 'ম'],
        8 => vec!['k', 'к', 'κ', 'ك', 'ক'],
        9 => vec!['p', 'п', 'π', 'پ', 'প'],
        10 => vec!['f', 'ф', 'φ', 'ف', 'ফ'],
        11 => vec!['o', 'о', 'ο', 'و', 'ও'],
        12 => vec!['e', 'е', 'ε', 'ه', 'এ'],
        13 => vec!['i', 'и', 'ι', 'ي', 'ই'],
        14 => vec!['u', 'у', 'υ', 'و', 'উ'],
        15 => vec!['d', 'д', 'δ', 'د', 'দ'],
        16 => vec!['g', 'г', 'γ', 'ج', 'গ'],
        17 => vec!['h', 'х', 'η', 'ه', 'হ'],
        18 => vec!['v', 'в', 'β', 'و', 'ভ'],
        19 => vec!['z', 'з', 'ζ', 'ز', 'জ'],
        _ => vec!['y', 'й', 'υ', 'ي'],
    }
}

/// Whether `a` and `b` are in one phonetic group.
pub fn shares_phonetic_group(a: char, b: char) -> (r: bool)
    ensures
        r == exists|g: int|
            0 <= g < phonetic_groups().len() && #[trigger] phonetic_groups()[g].contains(a)
                && phonetic_groups()[g].contains(b),
{
    assert(phonetic_groups().len() == 21);
    let mut g: usize = 0;
    while g < 21
        invariant
            g <= 21,
            phonetic_groups().len() == 21,
            forall|h: int| 0 <= h < g ==> !(#[trigger] phonetic_groups()[h].contains(a) && phonetic_groups()[h].contains(b)),
        decreases 21 - g,
    {
        let group = phonetic_group(g);
        let mut has_a = false;
        let mut has_b = false;
        let mut k: usize = 0;
        while k < group.len()
            invariant
                0 <= k <= group@.len(),
                has_a == (exists|j: int| 0 <= j < k && group@[j] == a),
                has_b == (exists|j: int| 0 <= j < k && group@[j] == b),
            decreases group@.len() - k,
        {
            if group[k] == a {
                has_a = true;
            }
            if group[k] == b {
                has_b = true;
            }
            k = k + 1;
        }
        proof {
            assert(group@ == phonetic_groups()[g as int]);
            assert(has_a == phonetic_groups()[g as int].contains(a));
            assert(has_b == phonetic_groups()[g as int].contains(b));
        }
        if has_a && has_b {
            return true;
        }
        g = g + 1;
    }
    false
}

/// After learning that `code` types `c`, looking `code` up gives `c`, and every other code
/// gives what it gave before.
pub proof fn law_learned_lookup(m: Seq<(Seq<char>, char)>, code: Seq<char>, c: char, other: Seq<char>)
    requires
        codes_distinct(m),
        other != code,
    ensures
        mapped(learned(m, code, c), code) == Some(c),
        mapped(learned(m, code, c), other) == mapped(m, other),
        codes_distinct(learned(m, code, c)),
{
    let l = learned(m, code, c);
    if has_code(m, code) {
        let i = code_index(m, code);
        assert(l[i].0 == code);
        assert(has_code(l, code));
        let j = code_index(l, code);
        if j != i {
            assert(l[j] == m[j]);
            assert(m[j].0 != m[i].0);
        }
        assert forall|a: int, b: int| 0 <= a < l.len() && 0 <= b < l.len() && a != b implies #[trigger] l[a].0 != #[trigger] l[b].0 by {
            if a == i {
                assert(m[b].0 != m[i].0);
            } else if b == i {
                assert(m[a].0 != m[i].0);
            }
        }
    } else {
        assert(l[m.len() as int].0 == code);
        assert(has_code(l, code));
        let j = code_index(l, code);
        if j < m.len() {
            assert(l[j] == m[j]);
        }
    }
    if has_code(m, other) {
        let k = code_index(m, other);
        assert(l[k].0 == other) by {
            if has_code(m, code) {
                let i = code_index(m, code);
                assert(k != i);
            }
        }
        assert(has_code(l, other));
        let k2 = code_index(l, other);
        if k2 != k {
            assert(l[k2].0 == other);
            if k2 < m.len() {
                if has_code(m, code) && k2 == code_index(m, code) {
                    assert(l[k2].0 == code);
                } else {
                    assert(l[k2] == m[k2]);
                }
            } else {
                assert(l[k2].0 == code);
            }
        }
        assert(l[k2] == l[k]);
        if has_code(m, code) {
            let i = code_index(m, code);
            assert(k != i);
        }
    } else {
        if has_code(l, other) {
            let k2 = code_index(l, other);
            if k2 < m.len() && !(has_code(m, code) && k2 == code_index(m, code)) {
                assert(l[k2] == m[k2]);
                assert(has_code(m, other));
            }
        }
    }
}

} // verus!
