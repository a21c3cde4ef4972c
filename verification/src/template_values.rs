//! The values that templates are rendered with.

use vstd::prelude::*;
use vstd::string::StringExecFns;
use crate::text::{decimal, decimal_string, text_eq};

verus! {

/// The model of a template value.
pub enum TemplateValueView {
    Null,
    Bool(bool),
    Number { text: Seq<char>, nonzero: bool },
    Text(Seq<char>),
    Array(Seq<TemplateValueView>),
    Object { members: usize },
}

/// A value of a template's context. A number carries its text and whether
/// it differs from zero; an object carries the number of its members.
#[derive(Debug)]
pub enum TemplateValue {
    Null,
    Bool(bool),
    Number { text: String, nonzero: bool },
    Text(String),
    Array(Vec<TemplateValue>),
    Object { members: usize },
}

/// The model of a value.
pub open spec fn model(value: TemplateValue) -> TemplateValueView
    decreases value,
{
    match value {
        TemplateValue::Null => TemplateValueView::Null,
        TemplateValue::Bool(b) => TemplateValueView::Bool(b),
        TemplateValue::Number { text, nonzero } => TemplateValueView::Number {
            text: text@,
            nonzero,
        },
        TemplateValue::Text(text) => TemplateValueView::Text(text@),
        TemplateValue::Array(items) => TemplateValueView::Array(
            Seq::new(
                items@.len(),
                |i: int|
                    if 0 <= i < items@.len() {
                        model(items@[i])
                    } else {
                        TemplateValueView::Null
                    },
            ),
        ),
        TemplateValue::Object { members } => TemplateValueView::Object { members },
    }
}

impl View for TemplateValue {
    type V = TemplateValueView;

    open spec fn view(&self) -> TemplateValueView {
        model(*self)
    }
}

/// The text that stands for a value: a text itself, a number's text,
/// `true` or `false`, the length of an array in square brackets, the
/// number of members of an object in braces, and nothing for null.
pub open spec fn value_text(value: TemplateValueView) -> Seq<char> {
    match value {
        TemplateValueView::Text(text) => text,
        TemplateValueView::Number { text, .. } => text,
        TemplateValueView::Bool(b) => if b {
            "true"@
        } else {
            "false"@
        },
        TemplateValueView::Array(items) => "["@ + decimal(items.len()) + "]"@,
        TemplateValueView::Object { members } => "{"@ + decimal(members as nat) + "}"@,
        TemplateValueView::Null => Seq::empty(),
    }
}

/// Whether a value counts as true: a boolean that is, a text that is not
/// empty, a number other than zero, an array or object that is not empty.
pub open spec fn truthy(value: TemplateValueView) -> bool {
    match value {
        TemplateValueView::Bool(b) => b,
        TemplateValueView::Text(text) => text.len() > 0,
        TemplateValueView::Number { nonzero, .. } => nonzero,
        TemplateValueView::Array(items) => items.len() > 0,
        TemplateValueView::Object { members } => members > 0,
        TemplateValueView::Null => false,
    }
}

impl TemplateValue {
    /// A copy of the value.
    pub fn copy(&self) -> (out: TemplateValue)
        ensures
            out@ == self@,
        decreases self,
    {
        match self {
            TemplateValue::Null => TemplateValue::Null,
            TemplateValue::Bool(b) => TemplateValue::Bool(*b),
            TemplateValue::Number { text, nonzero } => TemplateValue::Number {
                text: text.clone(),
                nonzero: *nonzero,
            },
            TemplateValue::Text(text) => TemplateValue::Text(text.clone()),
            TemplateValue::Array(items) => {
                let mut copies: Vec<TemplateValue> = Vec::new();
                let mut i: usize = 0;
                while i < items.len()
                    invariant
                        i <= items.len(),
                        copies@.len() == i,
                        self matches TemplateValue::Array(v) && v == items,
                        forall|j: int| 0 <= j < i ==> copies@[j]@ == items@[j]@,
                    decreases items.len() - i,
                {
                    copies.push(items[i].copy());
                    i += 1;
                }
                let out = TemplateValue::Array(copies);
                assert(out@->Array_0 =~= self@->Array_0);
                out
            },
            TemplateValue::Object { members } => TemplateValue::Object { members: *members },
        }
    }

    /// Writes the text that stands for the value.
    pub fn to_text(&self) -> (out: String)
        ensures
            out@ == value_text(self@),
    {
        match self {
            TemplateValue::Text(text) => text.clone(),
            TemplateValue::Number { text, .. } => text.clone(),
            TemplateValue::Bool(b) => if *b {
                String::from_str("true")
            } else {
                String::from_str("false")
            },
            TemplateValue::Array(items) => {
                let mut out = String::from_str("[");
                out.append(decimal_string(items.len() as u128).as_str());
                out.append("]");
                out
            },
            TemplateValue::Object { members } => {
                let mut out = String::from_str("{");
                out.append(decimal_string(*members as u128).as_str());
                out.append("}");
                out
            },
            TemplateValue::Null => String::new(),
        }
    }

    /// Whether the value counts as true.
    pub fn is_truthy(&self) -> (r: bool)
        ensures
            r == truthy(self@),
    {
        match self {
            TemplateValue::Bool(b) => *b,
            TemplateValue::Text(text) => !text.as_str().is_empty(),
            TemplateValue::Number { nonzero, .. } => *nonzero,
            TemplateValue::Array(items) => items.len() > 0,
            TemplateValue::Object { members } => *members > 0,
            TemplateValue::Null => false,
        }
    }
}

/// The model of a context: its entries in order of insertion.
pub type ContextView = Seq<(Seq<char>, TemplateValueView)>;

/// The position of the first entry named `name`, or the number of entries
/// where there is none.
pub open spec fn entry_position(context: ContextView, name: Seq<char>) -> nat
    decreases context.len(),
{
    if context.len() == 0 || context[0].0 == name {
        0
    } else {
        1 + entry_position(context.skip(1), name)
    }
}

/// The value under `name`, if the context holds one.
pub open spec fn value_of(context: ContextView, name: Seq<char>) -> Option<TemplateValueView> {
    let at = entry_position(context, name);
    if at < context.len() {
        Some(context[at as int].1)
    } else {
        None
    }
}

/// The context with `value` under `name`: in place of the entry of that
/// name, or at the end where there is none.
pub open spec fn with_value(context: ContextView, name: Seq<char>, value: TemplateValueView)
    -> ContextView {
    let at = entry_position(context, name);
    if at < context.len() {
        context.update(at as int, (name, value))
    } else {
        context.push((name, value))
    }
}

/// The model of a vector of entries.
pub open spec fn context_views(entries: Seq<(String, TemplateValue)>) -> ContextView {
    Seq::new(entries.len(), |i: int| (entries[i].0@, entries[i].1@))
}

/// The values that a template is rendered with, by name.
pub struct TemplateContext {
    entries: Vec<(String, TemplateValue)>,
}

impl View for TemplateContext {
    type V = ContextView;

    closed spec fn view(&self) -> ContextView {
        context_views(self.entries@)
    }
}

impl TemplateContext {
    /// The empty context.
    pub fn new() -> (context: TemplateContext)
        ensures
            context@ == ContextView::empty(),
    {
        TemplateContext { entries: Vec::new() }
    }

    /// The position of the first entry named `name`, or the number of
    /// entries.
    fn position(&self, name: &str) -> (at: usize)
        ensures
            at == entry_position(self@, name@),
            at <= self@.len(),
            self@.len() == self.entries@.len(),
    {
        let ghost entries = self@;
        let mut i: usize = 0;
        assert(entries.skip(0) =~= entries);
        while i < self.entries.len() && !text_eq(self.entries[i].0.as_str(), name)
            invariant
                i <= self.entries.len(),
                entries == self@,
                entry_position(entries, name@) == i + entry_position(
                    entries.skip(i as int),
                    name@,
                ),
            decreases self.entries.len() - i,
        {
            assert(entries.skip(i as int).skip(1) =~= entries.skip(i + 1));
            i += 1;
        }
        i
    }

    /// The value under `name`.
    pub fn get(&self, name: &str) -> (value: Option<&TemplateValue>)
        ensures
            match value {
                Some(v) => value_of(self@, name@) == Some(v@),
                None => value_of(self@, name@) is None,
            },
    {
        let at = self.position(name);
        if at < self.entries.len() {
            Some(&self.entries[at].1)
        } else {
            None
        }
    }

    /// Stores `value` under `name`.
    pub fn insert(&mut self, name: String, value: TemplateValue)
        ensures
            final(self)@ == with_value(old(self)@, name@, value@),
    {
        let at = self.position(name.as_str());
        if at < self.entries.len() {
            self.entries.set(at, (name, value));
        } else {
            self.entries.push((name, value));
        }
    }

    /// A copy of the context.
    pub fn copy(&self) -> (out: TemplateContext)
        ensures
            out@ == self@,
    {
        let mut entries: Vec<(String, TemplateValue)> = Vec::new();
        let mut i: usize = 0;
        while i < self.entries.len()
            invariant
                i <= self.entries.len(),
                entries@.len() == i,
                forall|j: int|
                    0 <= j < i ==> entries@[j].0@ == self.entries@[j].0@ && entries@[j].1@
                        == self.entries@[j].1@,
            decreases self.entries.len() - i,
        {
            entries.push((self.entries[i].0.clone(), self.entries[i].1.copy()));
            i += 1;
        }
        TemplateContext { entries }
    }
}

} // verus!
