//! The application state: the typed filter, the current selection, and the
//! visible subset of the catalog that the filter keeps.

use vstd::prelude::*;
use crate::color::{ColorEntry, ColorValue, default_catalog, entries_equal, is_default_catalog};
use crate::text::{contains_ci, contains_filter};

verus! {

/// An entry stays visible under a filter when the filter text is a
/// case-insensitive substring of its name.
pub open spec fn entry_visible(e: ColorEntry, filter: Seq<char>) -> bool {
    contains_ci(e.name@, filter)
}

/// The visible subset of a catalog under a filter, in catalog order.
pub open spec fn visible_model(catalog: Seq<ColorEntry>, filter: Seq<char>) -> Seq<ColorEntry> {
    catalog.filter(|e: ColorEntry| entry_visible(e, filter))
}

/// The filter text after one backspace: the last character is removed, and
/// an empty filter is left as it is.
pub open spec fn removed_last(filter: Seq<char>) -> Seq<char> {
    if filter.len() == 0 {
        filter
    } else {
        filter.drop_last()
    }
}

/// The filter text after `n` backspaces.
pub open spec fn removed_n(filter: Seq<char>, n: nat) -> Seq<char>
    decreases n,
{
    if n == 0 {
        filter
    } else {
        removed_n(removed_last(filter), (n - 1) as nat)
    }
}

/// The interactive state: the catalog being browsed, the typed filter, and
/// the color picked last, if any.
pub struct App {
    pub catalog: Vec<ColorEntry>,
    pub filter: Vec<char>,
    pub selected: Option<(String, ColorValue)>,
}

impl App {
    /// A fresh state over the built-in palette: empty filter, no selection.
    pub fn new() -> (app: App)
        ensures
            is_default_catalog(app.catalog@),
            app.filter@ == Seq::<char>::empty(),
            app.selected is None,
    {
        App { catalog: default_catalog(), filter: Vec::new(), selected: None }
    }

    /// A fresh state over a caller-supplied catalog: empty filter, no
    /// selection.
    pub fn with_catalog(catalog: Vec<ColorEntry>) -> (app: App)
        ensures
            app.catalog == catalog,
            app.filter@ == Seq::<char>::empty(),
            app.selected is None,
    {
        App { catalog, filter: Vec::new(), selected: None }
    }

    /// Appends one typed character to the filter text. Catalog and
    /// selection are untouched.
    pub fn handle_input(&mut self, c: char)
        ensures
            final(self).filter@ == old(self).filter@.push(c),
            final(self).catalog == old(self).catalog,
            final(self).selected == old(self).selected,
    {
        self.filter.push(c);
    }

    /// Removes the last character of the filter text; on an empty filter it
    /// does nothing. Catalog and selection are untouched.
    pub fn delete_input(&mut self)
        ensures
            final(self).filter@ == removed_last(old(self).filter@),
            final(self).catalog == old(self).catalog,
            final(self).selected == old(self).selected,
            old(self).filter@.len() == 0 ==> *final(self) == *old(self),
    {
        if self.filter.len() > 0 {
            self.filter.pop();
            proof {
                assert(self.filter@ =~= removed_last(old(self).filter@));
            }
        }
    }

    /// Records the given pair as the current selection, overwriting any
    /// prior one. Catalog and filter are untouched.
    pub fn select_color(&mut self, name: &str, value: ColorValue)
        ensures
            final(self).selected matches Some(sel) && sel.0@ == name@ && sel.1 == value,
            final(self).catalog == old(self).catalog,
            final(self).filter == old(self).filter,
    {
        self.selected = Some((name.to_owned(), value));
    }

    /// The catalog entries whose name contains the filter text as a
    /// case-insensitive substring, in catalog order.
    pub fn visible_entries(&self) -> (v: Vec<ColorEntry>)
        ensures
            entries_equal(v@, visible_model(self.catalog@, self.filter@)),
    {
        let ghost pred = |e: ColorEntry| entry_visible(e, self.filter@);
        let mut v: Vec<ColorEntry> = Vec::new();
        let n = self.catalog.len();
        let mut i: usize = 0;
        while i < n
            invariant
                i <= n,
                n == self.catalog@.len(),
                pred == (|e: ColorEntry| entry_visible(e, self.filter@)),
                entries_equal(v@, self.catalog@.take(i as int).filter(pred)),
            decreases n - i,
        {
            let ghost prefix = self.catalog@.take(i as int);
            let e = &self.catalog[i];
            proof {
                assert(self.catalog@.take(i + 1).drop_last() =~= prefix);
                assert(self.catalog@.take(i + 1) =~= prefix.push(self.catalog@[i as int]));
                reveal(Seq::filter);
            }
            if contains_filter(e.name.as_str(), &self.filter) {
                v.push(e.duplicate());
            }
            i += 1;
        }
        proof {
            assert(self.catalog@.take(n as int) =~= self.catalog@);
        }
        v
    }
}

/// What one frame displays: the filter text, the selection to echo back, and
/// the labeled swatches to draw, in order. The renderer executes this plan
/// against the terminal.
pub struct RenderPlan {
    pub filter: Vec<char>,
    pub selected: Option<(String, ColorValue)>,
    pub swatches: Vec<ColorEntry>,
}

impl App {
    /// The layout instructions for the next frame: the current filter text,
    /// the current selection, and one swatch per visible catalog entry, in
    /// catalog order.
    pub fn render_plan(&self) -> (plan: RenderPlan)
        ensures
            plan.filter@ == self.filter@,
            entries_equal(plan.swatches@, visible_model(self.catalog@, self.filter@)),
            match self.selected {
                None => plan.selected is None,
                Some(sel) => plan.selected matches Some(p) && p.0@ == sel.0@ && p.1 == sel.1,
            },
    {
        let mut filter: Vec<char> = Vec::new();
        let n = self.filter.len();
        let mut i: usize = 0;
        while i < n
            invariant
                i <= n,
                n == self.filter@.len(),
                filter@ == self.filter@.take(i as int),
            decreases n - i,
        {
            filter.push(self.filter[i]);
            proof {
                assert(filter@ =~= self.filter@.take(i + 1));
            }
            i += 1;
        }
        proof {
            assert(self.filter@.take(n as int) =~= self.filter@);
        }
        let selected = match &self.selected {
            None => None,
            Some(sel) => Some((sel.0.clone(), sel.1)),
        };
        RenderPlan { filter, selected, swatches: self.visible_entries() }
    }
}

/// Law: the visible set is exactly the catalog narrowed by the filter — it
/// never grows past the catalog, every entry it holds matches the filter,
/// and every catalog entry that matches the filter appears in it.
pub proof fn lemma_visible_entries_law(catalog: Seq<ColorEntry>, filter: Seq<char>)
    ensures
        visible_model(catalog, filter).len() <= catalog.len(),
        forall|i: int|
            0 <= i < visible_model(catalog, filter).len() ==> entry_visible(
                #[trigger] visible_model(catalog, filter)[i],
                filter,
            ),
        forall|i: int|
            0 <= i < catalog.len() && entry_visible(#[trigger] catalog[i], filter)
                ==> visible_model(catalog, filter).contains(catalog[i]),
{
    broadcast use vstd::seq_lib::group_filter_ensures;

}

/// Law: one backspace on an empty filter changes nothing, and a second one
/// changes nothing either.
pub proof fn lemma_delete_on_empty(filter: Seq<char>)
    requires
        filter.len() == 0,
    ensures
        removed_last(filter) == filter,
        removed_last(removed_last(filter)) == filter,
{
}

/// Law: typing any characters and then backspacing as many times returns
/// the filter text to what it was before.
pub proof fn lemma_filter_round_trip(filter: Seq<char>, typed: Seq<char>)
    ensures
        removed_n(filter + typed, typed.len()) == filter,
    decreases typed.len(),
{
    if typed.len() == 0 {
        assert(filter + typed =~= filter);
    } else {
        assert(removed_last(filter + typed) =~= filter + typed.drop_last());
        lemma_filter_round_trip(filter, typed.drop_last());
    }
}

/// Law: appending one character is the same as concatenating the one-character
/// sequence, so a run of `handle_input` calls appends the typed characters in
/// order.
pub proof fn lemma_push_is_concat(filter: Seq<char>, c: char)
    ensures
        filter.push(c) == filter + seq![c],
{
    assert(filter.push(c) =~= filter + seq![c]);
}

} // verus!
