//! The color catalog: named colors with their display values, in a fixed
//! order.

use vstd::prelude::*;

verus! {

/// A displayable color: one of the base terminal colors or an explicit
/// RGB triple.
#[derive(Clone, Copy, PartialEq, Eq, Structural, Debug)]
pub enum ColorValue {
    Black,
    Red,
    Green,
    Yellow,
    Blue,
    Magenta,
    Cyan,
    White,
    Rgb(u8, u8, u8),
}

/// One catalog entry: a color name and the value to draw it with.
pub struct ColorEntry {
    pub name: String,
    pub value: ColorValue,
}

impl ColorEntry {
    /// Builds an entry from a name and a value.
    pub fn new(name: &str, value: ColorValue) -> (e: ColorEntry)
        ensures
            e.name@ == name@,
            e.value == value,
    {
        ColorEntry { name: name.to_owned(), value }
    }

    /// A copy of this entry: same name text, same value.
    pub fn duplicate(&self) -> (e: ColorEntry)
        ensures
            e.name@ == self.name@,
            e.value == self.value,
    {
        ColorEntry { name: self.name.clone(), value: self.value }
    }
}

/// Two entries carry the same name text and the same value.
pub open spec fn entry_same(a: ColorEntry, b: ColorEntry) -> bool {
    a.name@ == b.name@ && a.value == b.value
}

/// Two entry sequences agree entry by entry on name text and value.
pub open spec fn entries_equal(a: Seq<ColorEntry>, b: Seq<ColorEntry>) -> bool {
    &&& a.len() == b.len()
    &&& forall|i: int| 0 <= i < a.len() ==> entry_same(a[i], b[i])
}

/// No two entries share a name.
pub open spec fn unique_names(s: Seq<ColorEntry>) -> bool {
    forall|i: int, j: int|
        0 <= i < j < s.len() ==> #[trigger] s[i].name@ != #[trigger] s[j].name@
}

/// The names and values of the built-in palette, in display order.
pub open spec fn is_default_catalog(s: Seq<ColorEntry>) -> bool {
    &&& s.len() == 10
    &&& s[0].name@ == "Black"@ && s[0].value == ColorValue::Black
    &&& s[1].name@ == "Red"@ && s[1].value == ColorValue::Red
    &&& s[2].name@ == "Green"@ && s[2].value == ColorValue::Green
    &&& s[3].name@ == "Yellow"@ && s[3].value == ColorValue::Yellow
    &&& s[4].name@ == "Blue"@ && s[4].value == ColorValue::Blue
    &&& s[5].name@ == "Magenta"@ && s[5].value == ColorValue::Magenta
    &&& s[6].name@ == "Cyan"@ && s[6].value == ColorValue::Cyan
    &&& s[7].name@ == "White"@ && s[7].value == ColorValue::White
    &&& s[8].name@ == "Crimson"@ && s[8].value == (ColorValue::Rgb(220, 20, 60))
    &&& s[9].name@ == "Teal"@ && s[9].value == (ColorValue::Rgb(0, 128, 128))
}

/// Law: the names of the built-in palette are unique, so a name identifies
/// one entry.
pub proof fn lemma_default_catalog_unique(s: Seq<ColorEntry>)
    requires
        is_default_catalog(s),
    ensures
        unique_names(s),
{
    reveal_strlit("Black");
    reveal_strlit("Red");
    reveal_strlit("Green");
    reveal_strlit("Yellow");
    reveal_strlit("Blue");
    reveal_strlit("Magenta");
    reveal_strlit("Cyan");
    reveal_strlit("White");
    reveal_strlit("Crimson");
    reveal_strlit("Teal");
    assert forall|i: int, j: int| 0 <= i < j < s.len() implies s[i].name@ != s[j].name@ by {
        assert(s[0].name@.len() == 5 && s[0].name@[0] == 'B');
        assert(s[1].name@.len() == 3);
        assert(s[2].name@.len() == 5 && s[2].name@[0] == 'G');
        assert(s[3].name@.len() == 6);
        assert(s[4].name@.len() == 4 && s[4].name@[0] == 'B');
        assert(s[5].name@.len() == 7 && s[5].name@[0] == 'M');
        assert(s[6].name@.len() == 4 && s[6].name@[0] == 'C');
        assert(s[7].name@.len() == 5 && s[7].name@[0] == 'W');
        assert(s[8].name@.len() == 7 && s[8].name@[0] == 'C');
        assert(s[9].name@.len() == 4 && s[9].name@[0] == 'T');
    }
}

/// The built-in palette the application starts with.
pub fn default_catalog() -> (v: Vec<ColorEntry>)
    ensures
        is_default_catalog(v@),
{
    let mut v: Vec<ColorEntry> = Vec::new();
    v.push(ColorEntry::new("Black", ColorValue::Black));
    v.push(ColorEntry::new("Red", ColorValue::Red));
    v.push(ColorEntry::new("Green", ColorValue::Green));
    v.push(ColorEntry::new("Yellow", ColorValue::Yellow));
    v.push(ColorEntry::new("Blue", ColorValue::Blue));
    v.push(ColorEntry::new("Magenta", ColorValue::Magenta));
    v.push(ColorEntry::new("Cyan", ColorValue::Cyan));
    v.push(ColorEntry::new("White", ColorValue::White));
    v.push(ColorEntry::new("Crimson", ColorValue::Rgb(220, 20, 60)));
    v.push(ColorEntry::new("Teal", ColorValue::Rgb(0, 128, 128)));
    v
}

} // verus!
