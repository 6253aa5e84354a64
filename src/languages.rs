//! The table of known languages and their display glyphs.

use vstd::prelude::*;
use crate::text::{lower_of, str_equal, to_lower};

verus! {

/// A known language: the names it goes by and its display glyph.
pub struct Language {
    pub names: Vec<&'static str>,
    pub icon: &'static str,
}

impl Language {
    pub open spec fn names_view(&self) -> Seq<Seq<char>> {
        self.names@.map_values(|n: &'static str| n@)
    }
}

/// The names of each table entry, in table order.
pub open spec fn table_names() -> Seq<Seq<Seq<char>>> {
    seq![
        seq!["C"@],
        seq!["C++"@, "CPP"@],
        seq!["C#"@],
        seq!["Typescript"@, "TS"@],
        seq!["Javascript"@, "JS"@],
        seq!["Go"@],
        seq!["Rust"@]
    ]
}

/// The glyph of each table entry, in table order.
pub open spec fn table_icons() -> Seq<Seq<char>> {
    seq![""@, "󰙲"@, ""@, "󰛦"@, ""@, "󰟓"@, "󱘗"@]
}

/// The language table, in its fixed order.
pub fn languages() -> (r: Vec<Language>)
    ensures
        r@.len() == table_names().len(),
        forall|i: int|
            0 <= i < r@.len() ==> (#[trigger] r@[i]).names_view() == table_names()[i] && r@[i].icon@
                == table_icons()[i],
{
    let mut v: Vec<Language> = Vec::new();
    v.push(Language { names: vec!["C"], icon: "" });
    v.push(Language { names: vec!["C++", "CPP"], icon: "󰙲" });
    v.push(Language { names: vec!["C#"], icon: "" });
    v.push(Language { names: vec!["Typescript", "TS"], icon: "󰛦" });
    v.push(Language { names: vec!["Javascript", "JS"], icon: "" });
    v.push(Language { names: vec!["Go"], icon: "󰟓" });
    v.push(Language { names: vec!["Rust"], icon: "󱘗" });
    proof {
        assert forall|i: int| 0 <= i < v@.len() implies (#[trigger] v@[i]).names_view() == table_names()[i] by {
            assert(v@[i].names_view() =~= table_names()[i]);
        }
    }
    v
}

/// A name denotes a table entry when it equals one of the entry's names once
/// both are in lower case.
pub open spec fn names_match(names: Seq<Seq<char>>, name: Seq<char>) -> bool {
    exists|j: int| 0 <= j < names.len() && lower_of(#[trigger] names[j]) == lower_of(name)
}

fn entry_matches(lang: &Language, lowered: &str, Ghost(name): Ghost<Seq<char>>) -> (r: bool)
    requires
        lowered@ == lower_of(name),
    ensures
        r == names_match(lang.names_view(), name),
{
    let n = lang.names.len();
    let mut j: usize = 0;
    while j < n
        invariant
            n == lang.names@.len(),
            j <= n,
            lowered@ == lower_of(name),
            forall|k: int| 0 <= k < j ==> lower_of(#[trigger] lang.names_view()[k]) != lower_of(name),
        decreases n - j,
    {
        let candidate = to_lower(lang.names[j]);
        if str_equal(candidate.as_str(), lowered) {
            assert(lang.names_view()[j as int] == lang.names@[j as int]@);
            return true;
        }
        assert(lang.names_view()[j as int] == lang.names@[j as int]@);
        j = j + 1;
    }
    false
}

/// The first table entry that a name denotes.
pub open spec fn first_entry_for(name: Seq<char>, i: int) -> bool {
    &&& 0 <= i < table_names().len()
    &&& names_match(table_names()[i], name)
    &&& forall|k: int| 0 <= k < i ==> !names_match(#[trigger] table_names()[k], name)
}

impl Language {
    /// The first language of the table one of whose names equals `name`,
    /// ignoring case.
    pub fn from_name(name: &str) -> (r: Option<Language>)
        ensures
            match r {
                None => forall|i: int|
                    0 <= i < table_names().len() ==> !names_match(#[trigger] table_names()[i], name@),
                Some(l) => exists|i: int|
                    #[trigger] first_entry_for(name@, i) && l.names_view() == table_names()[i] && l.icon@
                        == table_icons()[i],
            },
    {
        let mut table = languages();
        let lowered = to_lower(name);
        let n = table.len();
        let mut i: usize = 0;
        while i < n
            invariant
                n == table@.len(),
                n == table_names().len(),
                i <= n,
                lowered@ == lower_of(name@),
                forall|k: int|
                    0 <= k < n ==> (#[trigger] table@[k]).names_view() == table_names()[k]
                        && table@[k].icon@ == table_icons()[k],
                forall|k: int| 0 <= k < i ==> !names_match(#[trigger] table_names()[k], name@),
            decreases n - i,
        {
            if entry_matches(&table[i], lowered.as_str(), Ghost(name@)) {
                let found = table.remove(i);
                assert(first_entry_for(name@, i as int));
                return Some(found);
            }
            i = i + 1;
        }
        None
    }
}

/// The glyph shown for a language label: its table entry's, else a generic
/// one.
pub fn icon_for(language: &str) -> (r: &'static str)
    ensures
        (forall|i: int|
            0 <= i < table_names().len() ==> !names_match(#[trigger] table_names()[i], language@))
            ==> r@ == "\u{f011b}"@,
        forall|i: int| #[trigger] first_entry_for(language@, i) ==> r@ == table_icons()[i],
{
    match Language::from_name(language) {
        Some(l) => {
            proof {
                let i = choose|i: int| #[trigger] first_entry_for(language@, i) && l.names_view() == table_names()[i] && l.icon@ == table_icons()[i];
                assert forall|j: int| #[trigger] first_entry_for(language@, j) implies j == i by {
                    if j < i {
                        assert(!names_match(table_names()[j], language@));
                    } else if i < j {
                        assert(!names_match(table_names()[i], language@));
                    }
                }
            }
            l.icon
        },
        None => {
            proof {
                assert forall|i: int| !(#[trigger] first_entry_for(language@, i)) by {
                }
            }
            "\u{f011b}"
        },
    }
}

} // verus!
