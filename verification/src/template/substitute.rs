//! Substitutions in a text: each looks for its placeholder and, where it
//! finds it, puts its replacement in every place of it.

use vstd::prelude::*;

use crate::text::chars::{contains, occurs, replace, replaced};

verus! {

/// A placeholder and what replaces it.
#[derive(Debug)]
pub struct Swap {
    pub placeholder: Vec<char>,
    pub replacement: Vec<char>,
}

/// One substitution: the key that it is known by, the placeholder that it
/// looks for, and a second placeholder to look for where the first is not
/// found.
#[derive(Debug)]
pub struct Substitution {
    pub key: String,
    pub first: Swap,
    pub second: Option<Swap>,
}

/// A `Swap` as sequences of characters.
pub struct SwapView {
    pub placeholder: Seq<char>,
    pub replacement: Seq<char>,
}

/// A `Substitution` as sequences of characters.
pub struct SubstitutionView {
    pub key: Seq<char>,
    pub first: SwapView,
    pub second: Option<SwapView>,
}

impl View for Swap {
    type V = SwapView;

    open spec fn view(&self) -> SwapView {
        SwapView { placeholder: self.placeholder@, replacement: self.replacement@ }
    }
}

impl View for Substitution {
    type V = SubstitutionView;

    open spec fn view(&self) -> SubstitutionView {
        SubstitutionView {
            key: self.key@,
            first: self.first@,
            second: match self.second {
                Some(swap) => Some(swap@),
                None => None,
            },
        }
    }
}

impl SubstitutionView {
    /// The substitution finds one of its placeholders in `text`.
    pub open spec fn finds(self, text: Seq<char>) -> bool {
        occurs(text, self.first.placeholder) || (self.second matches Some(swap) && occurs(
            text,
            swap.placeholder,
        ))
    }

    /// `text` after the substitution: every first placeholder replaced if
    /// there is one, else every second placeholder.
    pub open spec fn apply(self, text: Seq<char>) -> Seq<char> {
        if occurs(text, self.first.placeholder) {
            replaced(text, self.first.placeholder, self.first.replacement)
        } else {
            match self.second {
                Some(swap) => if occurs(text, swap.placeholder) {
                    replaced(text, swap.placeholder, swap.replacement)
                } else {
                    text
                },
                None => text,
            }
        }
    }
}

/// The substitutions of a list, each as its view.
pub open spec fn views(list: Seq<Substitution>) -> Seq<SubstitutionView> {
    list.map_values(|s: Substitution| s@)
}

/// `text` after the substitutions of a list, one after another.
pub open spec fn substituted(text: Seq<char>, list: Seq<SubstitutionView>) -> Seq<char>
    decreases list.len(),
{
    if list.len() == 0 {
        text
    } else {
        list.last().apply(substituted(text, list.drop_last()))
    }
}

/// The keys of the substitutions that found no placeholder when their turn
/// came, in the order of the list.
pub open spec fn unused(text: Seq<char>, list: Seq<SubstitutionView>) -> Seq<Seq<char>>
    decreases list.len(),
{
    if list.len() == 0 {
        Seq::empty()
    } else {
        let before = unused(text, list.drop_last());
        if list.last().finds(substituted(text, list.drop_last())) {
            before
        } else {
            before.push(list.last().key)
        }
    }
}

/// Carries out the substitutions of a list on `text`, one after another,
/// and tells the keys of those that found nothing to replace.
pub fn substitute(text: Vec<char>, list: &Vec<Substitution>) -> (outcome: (Vec<char>, Vec<String>))
    ensures
        outcome.0@ == substituted(text@, views(list@)),
        outcome.1@.map_values(|k: String| k@) == unused(text@, views(list@)),
{
    let mut content = text;
    let mut missing: Vec<String> = Vec::new();
    let mut i: usize = 0;
    assert(missing@.map_values(|k: String| k@) =~= unused(text@, views(list@).take(0)));
    while i < list.len()
        invariant
            0 <= i <= list.len(),
            content@ == substituted(text@, views(list@).take(i as int)),
            missing@.map_values(|k: String| k@) == unused(text@, views(list@).take(i as int)),
        decreases list.len() - i,
    {
        let ghost before = missing@.map_values(|k: String| k@);
        proof {
            assert(views(list@).take(i + 1).drop_last() =~= views(list@).take(i as int));
            assert(views(list@).take(i + 1).last() == list@[i as int]@);
        }
        let item = &list[i];
        if contains(&content, &item.first.placeholder) {
            content = replace(&content, &item.first.placeholder, &item.first.replacement);
        } else {
            let mut found = false;
            if let Some(swap) = &item.second {
                if contains(&content, &swap.placeholder) {
                    content = replace(&content, &swap.placeholder, &swap.replacement);
                    found = true;
                }
            }
            if !found {
                missing.push(item.key.clone());
                assert(missing@.map_values(|k: String| k@) =~= before.push(item.key@));
            }
        }
        i = i + 1;
    }
    assert(views(list@).take(i as int) =~= views(list@));
    (content, missing)
}

} // verus!
