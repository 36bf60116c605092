//! The input fields of a workbench query page, as a manifest declares them:
//! which control each gets, what it starts with and how it is labelled.
use vstd::prelude::*;
use crate::rocketmq_form::opt_text;
use crate::text::{copy_string, text_eq, trim, trimmed};

verus! {

/// The editor a manifest declares for a query input.
#[derive(Debug, Clone, Copy, PartialEq, Eq, Structural)]
pub enum QueryInputEditor {
    Text,
    Number,
    Password,
    Textarea,
    Select,
}

/// One option of a `select` input: the value it stands for and its label.
#[derive(Debug, Clone, PartialEq, Eq)]
pub struct QueryInputOption {
    pub value: String,
    pub label: String,
}

/// A query input as declared in a manifest.
#[derive(Debug, Clone, PartialEq, Eq)]
pub struct QueryInput {
    pub id: String,
    pub editor: QueryInputEditor,
    pub default: Option<String>,
    pub label: Option<String>,
    pub placeholder: Option<String>,
    pub description: Option<String>,
    pub options: Vec<QueryInputOption>,
}

/// The index of the first option whose value is `value`, if any.
pub open spec fn option_index(options: Seq<QueryInputOption>, value: Seq<char>) -> Option<int>
    decreases options.len(),
{
    if options.len() == 0 {
        None
    } else if options.last().value@ == value {
        match option_index(options.drop_last(), value) {
            Some(i) => Some(i),
            None => Some(options.len() - 1),
        }
    } else {
        option_index(options.drop_last(), value)
    }
}

/// The value a `select` input looks for among its options: its default,
/// or the empty text.
pub open spec fn wanted_text(input: QueryInput) -> Seq<char> {
    match input.default {
        Some(d) => d@,
        None => Seq::empty(),
    }
}

/// The option a `select` input starts on: the one matching the default
/// (an absent default matches an empty value), else the first.
pub open spec fn initial_index(input: QueryInput) -> int {
    match option_index(input.options@, wanted_text(input)) {
        Some(i) => i,
        None => 0,
    }
}

/// The label of a field: its declared label unless that is blank, else its
/// id.
pub open spec fn label_of(input: QueryInput) -> Seq<char> {
    match opt_text(input.label) {
        Some(l) => if trim(l).len() > 0 {
            l
        } else {
            input.id@
        },
        None => input.id@,
    }
}

/// The description of a field: the declared one, trimmed, unless empty.
pub open spec fn description_of(input: QueryInput) -> Option<Seq<char>> {
    match opt_text(input.description) {
        Some(d) => if trim(d).len() > 0 {
            Some(trim(d))
        } else {
            None
        },
        None => None,
    }
}

/// Whether the input is shown as a drop-down: a `select` editor with
/// options.  A `select` without options falls back to a text input.
pub fn is_select_input(input: &QueryInput) -> (r: bool)
    ensures
        r == (input.editor == QueryInputEditor::Select && input.options@.len() > 0),
{
    input.editor == QueryInputEditor::Select && input.options.len() > 0
}

/// The option a drop-down starts on.
pub fn select_initial_index(input: &QueryInput) -> (r: usize)
    ensures
        r as int == initial_index(*input),
{
    let wanted: String = match &input.default {
        Some(d) => copy_string(d),
        None => String::new(),
    };
    let ghost wanted_view = wanted_text(*input);
    assert(wanted@ == wanted_view);
    let n = input.options.len();
    let mut i: usize = 0;
    while i < n
        invariant
            n == input.options@.len(),
            wanted@ == wanted_view,
            wanted_view == wanted_text(*input),
            i <= n,
            option_index(input.options@.subrange(0, i as int), wanted_view) is None,
        decreases n - i,
    {
        let ghost prefix = input.options@.subrange(0, i as int);
        let ghost next = input.options@.subrange(0, i + 1);
        assert(next.drop_last() =~= prefix);
        if text_eq(input.options[i].value.as_str(), wanted.as_str()) {
            proof {
                lemma_index_found(input.options@, wanted_view, i as int);
            }
            return i;
        }
        i = i + 1;
    }
    assert(input.options@.subrange(0, n as int) =~= input.options@);
    0
}

/// The first match in a sequence whose first `i` options do not match is
/// at `i`, when option `i` matches.
proof fn lemma_index_found(options: Seq<QueryInputOption>, value: Seq<char>, i: int)
    requires
        0 <= i < options.len(),
        option_index(options.subrange(0, i), value) is None,
        options[i].value@ == value,
    ensures
        option_index(options, value) == Some(i),
    decreases options.len(),
{
    let next = options.subrange(0, i + 1);
    assert(next.drop_last() =~= options.subrange(0, i));
    if options.len() > i + 1 {
        assert(options.drop_last().subrange(0, i) =~= options.subrange(0, i));
        lemma_index_found(options.drop_last(), value, i);
    } else {
        assert(options =~= next);
    }
}

/// The label a field is shown with.
pub fn field_label(input: &QueryInput) -> (r: String)
    ensures
        r@ == label_of(*input),
{
    match &input.label {
        Some(label) => {
            let t = trimmed(label.as_str());
            if t.unicode_len() > 0 {
                copy_string(label)
            } else {
                copy_string(&input.id)
            }
        },
        None => copy_string(&input.id),
    }
}

/// The description shown under a field, if it has one.
pub fn field_description(input: &QueryInput) -> (r: Option<String>)
    ensures
        match description_of(*input) {
            Some(d) => r matches Some(s) && s@ == d,
            None => r is None,
        },
{
    match &input.description {
        Some(description) => {
            let t = trimmed(description.as_str());
            if t.unicode_len() > 0 {
                Some(t)
            } else {
                None
            }
        },
        None => None,
    }
}

} // verus!
