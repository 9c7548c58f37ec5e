//! Names defined at compile time, and what each stands for.

use vstd::prelude::*;

use crate::text::chars::{from_chars, texts, to_chars};
use crate::text::compare::same_text;

verus! {

/// Whether a text is a JSON value.
pub uninterp spec fn is_json(text: Seq<char>) -> bool;

/// `serde_json::Value::from_str`: whether the text parses as a JSON value.
#[verifier::external_body]
pub(crate) fn parses_as_json(text: &str) -> (parses: bool)
    ensures
        parses == is_json(text@),
{
    <serde_json::Value as std::str::FromStr>::from_str(text).is_ok()
}

/// The names that an environment defines, each with the text given for it.
/// As opposed to an environment of values, this one allows for names with
/// no text, which stand for `undefined`.
#[derive(Debug)]
pub struct OptionEnvMap(pub Vec<(String, Option<String>)>);

/// What a defined name stands for.
#[derive(Debug)]
pub enum DefineValue {
    /// Nothing: the name is `undefined`.
    Undefined,
    /// An expression, to be evaluated where the name is used.
    Evaluate(String),
    /// A JSON value, given as its text.
    Json(String),
}

/// A `DefineValue` with its text as a sequence of characters.
pub enum DefineValueView {
    Undefined,
    Evaluate(Seq<char>),
    Json(Seq<char>),
}

impl View for DefineValue {
    type V = DefineValueView;

    open spec fn view(&self) -> DefineValueView {
        match self {
            DefineValue::Undefined => DefineValueView::Undefined,
            DefineValue::Evaluate(text) => DefineValueView::Evaluate(text@),
            DefineValue::Json(text) => DefineValueView::Json(text@),
        }
    }
}

/// A definition: the segments of the name, and what it stands for.
#[derive(Debug)]
pub struct Define {
    pub name: Vec<String>,
    pub value: DefineValue,
}

/// A `Define` with its texts as sequences of characters.
pub struct DefineView {
    pub name: Seq<Seq<char>>,
    pub value: DefineValueView,
}

impl View for Define {
    type V = DefineView;

    open spec fn view(&self) -> DefineView {
        DefineView { name: texts(self.name@), value: self.value@ }
    }
}

/// The parts of a text between its separators: one part more than there are
/// separators, each as long as it is, down to nothing.
pub open spec fn split_on(text: Seq<char>, separator: char) -> Seq<Seq<char>>
    decreases text.len(),
{
    if text.len() == 0 {
        seq![Seq::empty()]
    } else {
        let before = split_on(text.drop_last(), separator);
        if text.last() == separator {
            before.push(Seq::empty())
        } else {
            before.drop_last().push(before.last().push(text.last()))
        }
    }
}

/// What the value given for a name stands for: nothing where none is given;
/// a JSON value where the text is one; else an expression.
pub open spec fn value_of(given: Option<Seq<char>>) -> DefineValueView {
    match given {
        None => DefineValueView::Undefined,
        Some(text) => if is_json(text) {
            DefineValueView::Json(text)
        } else {
            DefineValueView::Evaluate(text)
        },
    }
}

/// What is given for a name, as characters.
pub open spec fn given(value: Option<String>) -> Option<Seq<char>> {
    match value {
        Some(text) => Some(text@),
        None => None,
    }
}

/// Some definition of the list has this name.
pub open spec fn defines_name(list: Seq<DefineView>, name: Seq<Seq<char>>) -> bool {
    exists|k: int| 0 <= k < list.len() && (#[trigger] list[k]).name == name
}

/// The definitions that an environment makes: one for each of its names, in
/// their order, the name split at its dots. Where a name comes twice, the
/// first time counts.
pub open spec fn defined(env: Seq<(String, Option<String>)>) -> Seq<DefineView>
    decreases env.len(),
{
    if env.len() == 0 {
        Seq::empty()
    } else {
        let before = defined(env.drop_last());
        let name = split_on(env.last().0@, '.');
        if defines_name(before, name) {
            before
        } else {
            before.push(DefineView { name, value: value_of(given(env.last().1)) })
        }
    }
}

/// Splits a text at its separators.
pub fn split(text: &str, separator: char) -> (parts: Vec<String>)
    ensures
        texts(parts@) == split_on(text@, separator),
{
    let chars = to_chars(text);
    let mut parts: Vec<String> = Vec::new();
    let mut current: Vec<char> = Vec::new();
    let mut i: usize = 0;
    assert(texts(parts@).push(current@) =~= split_on(chars@.take(0), separator));
    while i < chars.len()
        invariant
            0 <= i <= chars.len(),
            texts(parts@).push(current@) == split_on(chars@.take(i as int), separator),
        decreases chars.len() - i,
    {
        let ghost before = texts(parts@);
        let ghost so_far = split_on(chars@.take(i as int), separator);
        proof {
            assert(chars@.take(i + 1).drop_last() =~= chars@.take(i as int));
            assert(so_far.drop_last() =~= before);
            assert(so_far.last() == current@);
        }
        if chars[i] == separator {
            parts.push(from_chars(&current));
            current = Vec::new();
            assert(texts(parts@) =~= so_far);
        } else {
            current.push(chars[i]);
        }
        i = i + 1;
    }
    assert(chars@.take(i as int) =~= chars@);
    let ghost before = texts(parts@);
    parts.push(from_chars(&current));
    assert(texts(parts@) =~= before.push(current@));
    parts
}

/// Whether two names have the same segments.
pub fn same_name(a: &Vec<String>, b: &Vec<String>) -> (same: bool)
    ensures
        same == (texts(a@) == texts(b@)),
{
    if a.len() != b.len() {
        assert(texts(a@).len() != texts(b@).len());
        return false;
    }
    let mut i: usize = 0;
    while i < a.len()
        invariant
            0 <= i <= a.len(),
            a.len() == b.len(),
            forall|j: int| 0 <= j < i ==> a@[j]@ == b@[j]@,
        decreases a.len() - i,
    {
        if !same_text(a[i].as_str(), b[i].as_str()) {
            assert(texts(a@)[i as int] != texts(b@)[i as int]);
            return false;
        }
        i = i + 1;
    }
    assert(texts(a@) =~= texts(b@));
    true
}

/// What a text stands for, given whether it is a JSON value.
pub fn define_text(text: &String, json: bool) -> (define: DefineValue)
    ensures
        define@ == if json {
            DefineValueView::Json(text@)
        } else {
            DefineValueView::Evaluate(text@)
        },
{
    if json {
        DefineValue::Json(text.clone())
    } else {
        DefineValue::Evaluate(text.clone())
    }
}

/// Decides what the value given for a name stands for.
pub fn define_value(value: &Option<String>) -> (define: DefineValue)
    ensures
        define@ == value_of(given(*value)),
{
    match value {
        Some(text) => define_text(text, parses_as_json(text.as_str())),
        None => DefineValue::Undefined,
    }
}

/// Makes the definitions that an environment asks for.
pub fn defines(env: &OptionEnvMap) -> (list: Vec<Define>)
    ensures
        list@.map_values(|d: Define| d@) == defined(env.0@),
{
    let define_env = &env.0;
    let mut list: Vec<Define> = Vec::new();
    let mut i: usize = 0;
    assert(list@.map_values(|d: Define| d@) =~= defined(define_env@.take(0)));
    while i < define_env.len()
        invariant
            0 <= i <= define_env.len(),
            list@.map_values(|d: Define| d@) == defined(define_env@.take(i as int)),
        decreases define_env.len() - i,
    {
        let ghost before = list@.map_values(|d: Define| d@);
        proof {
            assert(define_env@.take(i + 1).drop_last() =~= define_env@.take(i as int));
            assert(define_env@.take(i + 1).last() == define_env@[i as int]);
        }
        let name = split(define_env[i].0.as_str(), '.');
        let mut known = false;
        let mut k: usize = 0;
        while k < list.len() && !known
            invariant
                0 <= k <= list.len(),
                before == list@.map_values(|d: Define| d@),
                known ==> defines_name(before, texts(name@)),
                !known ==> forall|j: int| 0 <= j < k ==> (#[trigger] before[j]).name != texts(name@),
            decreases list.len() - k,
        {
            if same_name(&list[k].name, &name) {
                assert(before[k as int].name == texts(name@));
                known = true;
            }
            k = k + 1;
        }
        if !known {
            let value = define_value(&define_env[i].1);
            list.push(Define { name, value });
            assert(list@.map_values(|d: Define| d@) =~= before.push(
                DefineView {
                    name: split_on(define_env@[i as int].0@, '.'),
                    value: value_of(given(define_env@[i as int].1)),
                },
            ));
        }
        i = i + 1;
    }
    assert(define_env@.take(i as int) =~= define_env@);
    list
}

} // verus!
