//! JSON values as the resource workbench reads them: rows, routes and
//! saved connection settings.
use vstd::prelude::*;
use crate::decimal::{parse_unsigned, parse_unsigned_chars};
use crate::text::{chars_of, copy_string, text_eq};

verus! {

/// A JSON value.  A number is held by its JSON text; an object holds its
/// members in order, each key once (objects read from `serde_json` come in
/// ascending key order).  Equality compares members in order.
#[derive(Debug)]
pub enum JsonValue {
    Null,
    Bool(bool),
    Number(String),
    Text(String),
    Array(Vec<JsonValue>),
    Object(Vec<(String, JsonValue)>),
}

/// The mathematical value of a JSON value.
pub enum JsonView {
    Null,
    Bool(bool),
    Number(Seq<char>),
    Text(Seq<char>),
    Array(Seq<JsonView>),
    Object(Seq<(Seq<char>, JsonView)>),
}

/// The mathematical value of a JSON value.
pub open spec fn json_view(v: JsonValue) -> JsonView
    decreases v,
{
    match v {
        JsonValue::Null => JsonView::Null,
        JsonValue::Bool(b) => JsonView::Bool(b),
        JsonValue::Number(n) => JsonView::Number(n@),
        JsonValue::Text(t) => JsonView::Text(t@),
        JsonValue::Array(items) => JsonView::Array(
            Seq::new(items@.len(), |i: int| if 0 <= i < items@.len() { json_view(items@[i]) } else { JsonView::Null }),
        ),
        JsonValue::Object(members) => JsonView::Object(
            Seq::new(
                members@.len(),
                |i: int| if 0 <= i < members@.len() {
                    (members@[i].0@, json_view(members@[i].1))
                } else {
                    (Seq::empty(), JsonView::Null)
                },
            ),
        ),
    }
}

/// A copy of a JSON value.
pub fn json_clone(v: &JsonValue) -> (r: JsonValue)
    ensures
        json_view(r) == json_view(*v),
    decreases v,
{
    match v {
        JsonValue::Null => JsonValue::Null,
        JsonValue::Bool(b) => JsonValue::Bool(*b),
        JsonValue::Number(n) => JsonValue::Number(copy_string(n)),
        JsonValue::Text(t) => JsonValue::Text(copy_string(t)),
        JsonValue::Array(items) => {
            let mut out: Vec<JsonValue> = Vec::new();
            let mut i: usize = 0;
            while i < items.len()
                invariant
                    *v is Array,
                    v->Array_0 == *items,
                    i <= items@.len(),
                    out@.len() == i,
                    forall|j: int| 0 <= j < i ==> json_view(#[trigger] out@[j]) == json_view(items@[j]),
                decreases items@.len() - i,
            {
                proof {
                    assert(decreases_to!(items => items[i as int]));
                    assert(decreases_to!(*v => v->Array_0));
                    assert(decreases_to!(*v => items[i as int]));
                }
                out.push(json_clone(&items[i]));
                i = i + 1;
            }
            let r = JsonValue::Array(out);
            assert(json_view(r) == json_view(*v)) by {
                if let JsonView::Array(a) = json_view(r) {
                    if let JsonView::Array(b) = json_view(*v) {
                        assert(a =~= b);
                    }
                }
            }
            r
        },
        JsonValue::Object(members) => {
            let mut out: Vec<(String, JsonValue)> = Vec::new();
            let mut i: usize = 0;
            while i < members.len()
                invariant
                    *v is Object,
                    v->Object_0 == *members,
                    i <= members@.len(),
                    out@.len() == i,
                    forall|j: int|
                        0 <= j < i ==> (#[trigger] out@[j]).0@ == members@[j].0@ && json_view(out@[j].1)
                            == json_view(members@[j].1),
                decreases members@.len() - i,
            {
                let member = &members[i];
                proof {
                    assert(decreases_to!(members => members[i as int]));
                    assert(decreases_to!(*v => v->Object_0));
                    assert(decreases_to!(*v => members[i as int].1));
                }
                out.push((copy_string(&member.0), json_clone(&member.1)));
                i = i + 1;
            }
            let r = JsonValue::Object(out);
            assert(json_view(r) == json_view(*v)) by {
                if let JsonView::Object(a) = json_view(r) {
                    if let JsonView::Object(b) = json_view(*v) {
                        assert(a =~= b);
                    }
                }
            }
            r
        },
    }
}

/// The items of an array's view are the views of its items.
pub proof fn lemma_array_view(items: Vec<JsonValue>, j: int)
    requires
        0 <= j < items@.len(),
    ensures
        json_view(JsonValue::Array(items)) is Array,
        json_view(JsonValue::Array(items))->Array_0.len() == items@.len(),
        json_view(JsonValue::Array(items))->Array_0[j] == json_view(items@[j]),
{
}

/// The members of an object's view are its keys with the views of its
/// values.
pub proof fn lemma_object_view(members: Vec<(String, JsonValue)>, j: int)
    requires
        0 <= j < members@.len(),
    ensures
        json_view(JsonValue::Object(members)) is Object,
        json_view(JsonValue::Object(members))->Object_0.len() == members@.len(),
        json_view(JsonValue::Object(members))->Object_0[j] == (members@[j].0@, json_view(members@[j].1)),
{
}

/// Whether two JSON values are equal, as `serde_json` compares them.
pub fn json_eq(a: &JsonValue, b: &JsonValue) -> (r: bool)
    ensures
        r == (json_view(*a) == json_view(*b)),
    decreases a,
{
    match (a, b) {
        (JsonValue::Null, JsonValue::Null) => true,
        (JsonValue::Bool(x), JsonValue::Bool(y)) => *x == *y,
        (JsonValue::Number(x), JsonValue::Number(y)) => text_eq(x.as_str(), y.as_str()),
        (JsonValue::Text(x), JsonValue::Text(y)) => text_eq(x.as_str(), y.as_str()),
        (JsonValue::Array(xs), JsonValue::Array(ys)) => {
            if xs.len() != ys.len() {
                assert(json_view(*a)->Array_0.len() != json_view(*b)->Array_0.len());
                return false;
            }
            let mut i: usize = 0;
            while i < xs.len()
                invariant
                    *a is Array,
                    a->Array_0 == *xs,
                    *b is Array,
                    b->Array_0 == *ys,
                    xs@.len() == ys@.len(),
                    i <= xs@.len(),
                    forall|j: int| 0 <= j < i ==> json_view(#[trigger] xs@[j]) == json_view(ys@[j]),
                decreases xs@.len() - i,
            {
                proof {
                    assert(decreases_to!(*a => a->Array_0));
                    assert(decreases_to!(xs => xs[i as int]));
                }
                if !json_eq(&xs[i], &ys[i]) {
                    proof {
                        lemma_array_view(*xs, i as int);
                        lemma_array_view(*ys, i as int);
                    }
                    return false;
                }
                i = i + 1;
            }
            proof {
                let va = json_view(*a)->Array_0;
                let vb = json_view(*b)->Array_0;
                assert forall|j: int| 0 <= j < va.len() implies va[j] == vb[j] by {
                    lemma_array_view(*xs, j);
                    lemma_array_view(*ys, j);
                }
                assert(va =~= vb);
            }
            true
        },
        (JsonValue::Object(xs), JsonValue::Object(ys)) => {
            if xs.len() != ys.len() {
                assert(json_view(*a)->Object_0.len() != json_view(*b)->Object_0.len());
                return false;
            }
            let mut i: usize = 0;
            while i < xs.len()
                invariant
                    *a is Object,
                    a->Object_0 == *xs,
                    *b is Object,
                    b->Object_0 == *ys,
                    xs@.len() == ys@.len(),
                    i <= xs@.len(),
                    forall|j: int|
                        0 <= j < i ==> (#[trigger] xs@[j]).0@ == ys@[j].0@ && json_view(xs@[j].1)
                            == json_view(ys@[j].1),
                decreases xs@.len() - i,
            {
                proof {
                    assert(decreases_to!(*a => a->Object_0));
                    assert(decreases_to!(xs => xs[i as int]));
                }
                let x = &xs[i];
                let y = &ys[i];
                if !text_eq(x.0.as_str(), y.0.as_str()) || !json_eq(&x.1, &y.1) {
                    proof {
                        lemma_object_view(*xs, i as int);
                        lemma_object_view(*ys, i as int);
                    }
                    return false;
                }
                i = i + 1;
            }
            proof {
                let va = json_view(*a)->Object_0;
                let vb = json_view(*b)->Object_0;
                assert forall|j: int| 0 <= j < va.len() implies va[j] == vb[j] by {
                    lemma_object_view(*xs, j);
                    lemma_object_view(*ys, j);
                }
                assert(va =~= vb);
            }
            true
        },
        _ => false,
    }
}

/// Whether a JSON value is `null`.
pub fn json_is_null(v: &JsonValue) -> (r: bool)
    ensures
        r == (json_view(*v) is Null),
{
    match v {
        JsonValue::Null => true,
        _ => false,
    }
}

/// The pieces of a text between its `/` separators, as `str::split('/')`
/// gives them: one more than there are separators.
pub open spec fn split_slash(s: Seq<char>) -> Seq<Seq<char>>
    decreases s.len(),
{
    if s.len() == 0 {
        seq![Seq::empty()]
    } else {
        let rest = split_slash(s.drop_last());
        if s.last() == '/' {
            rest.push(Seq::empty())
        } else {
            rest.update(rest.len() - 1, rest.last().push(s.last()))
        }
    }
}

/// `s` with each `first second` pair replaced by `by`, scanning from the
/// left without overlap, as `str::replace` does.
pub open spec fn replace_pair(s: Seq<char>, first: char, second: char, by: char) -> Seq<char>
    decreases s.len(),
{
    if s.len() < 2 {
        s
    } else if s[0] == first && s[1] == second {
        seq![by] + replace_pair(s.subrange(2, s.len() as int), first, second, by)
    } else {
        seq![s[0]] + replace_pair(s.drop_first(), first, second, by)
    }
}

/// A pointer token with its escapes undone: `~1` to `/`, then `~0` to `~`.
pub open spec fn unescape_token(token: Seq<char>) -> Seq<char> {
    replace_pair(replace_pair(token, '~', '1', '/'), '~', '0', '~')
}

/// The array index a token names: decimal digits without a sign or a
/// leading zero (`0` itself allowed), no larger than `usize::MAX`.
pub open spec fn array_index(token: Seq<char>) -> Option<nat> {
    if token.len() > 0 && (token[0] == '+' || (token[0] == '0' && token.len() != 1)) {
        None
    } else {
        parse_unsigned(token, usize::MAX as nat)
    }
}

/// The index of the first member with this key.
pub open spec fn first_key(members: Seq<(Seq<char>, JsonView)>, key: Seq<char>) -> Option<int>
    decreases members.len(),
{
    if members.len() == 0 {
        None
    } else {
        match first_key(members.drop_last(), key) {
            Some(i) => Some(i),
            None => if members.last().0 == key {
                Some(members.len() - 1)
            } else {
                None
            },
        }
    }
}

/// What one (unescaped) token selects in a value: an object's member of
/// that key, or an array's item at that index.
pub open spec fn member_of(v: JsonView, token: Seq<char>) -> Option<JsonView> {
    match v {
        JsonView::Object(members) => match first_key(members, token) {
            Some(i) => Some(members[i].1),
            None => None,
        },
        JsonView::Array(items) => match array_index(token) {
            Some(i) => if i < items.len() {
                Some(items[i as int])
            } else {
                None
            },
            None => None,
        },
        _ => None,
    }
}

/// The value reached from `v` through the tokens, in turn.
pub open spec fn walk(v: JsonView, tokens: Seq<Seq<char>>) -> Option<JsonView>
    decreases tokens.len(),
{
    if tokens.len() == 0 {
        Some(v)
    } else {
        match member_of(v, unescape_token(tokens[0])) {
            Some(child) => walk(child, tokens.drop_first()),
            None => None,
        }
    }
}

/// The value a JSON pointer (RFC 6901) names in `v`: the empty pointer
/// names `v`, a pointer that does not start with `/` names nothing, and
/// each `/`-separated token selects a member in turn.
pub open spec fn pointer_target(v: JsonView, pointer: Seq<char>) -> Option<JsonView> {
    if pointer.len() == 0 {
        Some(v)
    } else if pointer[0] != '/' {
        None
    } else {
        walk(v, split_slash(pointer.drop_first()))
    }
}

/// The views of a list of character vectors.
pub open spec fn char_views(v: Seq<Vec<char>>) -> Seq<Seq<char>> {
    Seq::new(v.len(), |i: int| v[i]@)
}

/// Splits a text at each `/`.
fn split_at_slashes(s: &[char]) -> (r: Vec<Vec<char>>)
    ensures
        char_views(r@) == split_slash(s@),
{
    let mut pieces: Vec<Vec<char>> = Vec::new();
    let mut current: Vec<char> = Vec::new();
    let mut i: usize = 0;
    while i < s.len()
        invariant
            i <= s@.len(),
            char_views(pieces@).push(current@) == split_slash(s@.subrange(0, i as int)),
        decreases s@.len() - i,
    {
        let ghost before = s@.subrange(0, i as int);
        let ghost after = s@.subrange(0, i + 1);
        assert(after.drop_last() =~= before);
        let c = s[i];
        if c == '/' {
            let ghost old_pieces = pieces@;
            let done = current;
            pieces.push(done);
            current = Vec::new();
            assert(char_views(pieces@) =~= char_views(old_pieces).push(done@));
            assert(char_views(pieces@).push(current@) =~= split_slash(before).push(Seq::empty()));
        } else {
            let ghost old_current = current@;
            current.push(c);
            assert(char_views(pieces@).push(current@) =~= split_slash(before).update(
                split_slash(before).len() - 1,
                old_current.push(c),
            ));
        }
        i = i + 1;
    }
    assert(s@.subrange(0, s@.len() as int) =~= s@);
    let ghost old_pieces = pieces@;
    let last = current;
    pieces.push(last);
    assert(char_views(pieces@) =~= char_views(old_pieces).push(last@));
    pieces
}

/// Replaces each `first second` pair by `by`, from the left.
fn replace_pair_chars(s: &[char], first: char, second: char, by: char) -> (r: Vec<char>)
    ensures
        r@ == replace_pair(s@, first, second, by),
{
    let n = s.len();
    let mut out: Vec<char> = Vec::new();
    let mut i: usize = 0;
    assert(s@.subrange(0, n as int) =~= s@);
    assert(out@ + replace_pair(s@, first, second, by) =~= replace_pair(s@, first, second, by));
    while i < n
        invariant
            n == s@.len(),
            i <= n,
            out@ + replace_pair(s@.subrange(i as int, n as int), first, second, by) == replace_pair(
                s@,
                first,
                second,
                by,
            ),
        decreases n - i,
    {
        let ghost rest = s@.subrange(i as int, n as int);
        if i + 1 < n && s[i] == first && s[i + 1] == second {
            assert(rest.subrange(2, rest.len() as int) =~= s@.subrange(i + 2, n as int));
            let ghost old_out = out@;
            out.push(by);
            assert(out@ + replace_pair(s@.subrange(i + 2, n as int), first, second, by) =~= old_out + (
            seq![by] + replace_pair(rest.subrange(2, rest.len() as int), first, second, by)));
            i = i + 2;
        } else {
            let ghost old_out = out@;
            out.push(s[i]);
            proof {
                if rest.len() < 2 {
                    assert(rest =~= seq![s@[i as int]]);
                    assert(s@.subrange(i + 1, n as int).len() == 0);
                    assert(out@ + replace_pair(s@.subrange(i + 1, n as int), first, second, by) =~= old_out
                        + rest);
                } else {
                    assert(rest.drop_first() =~= s@.subrange(i + 1, n as int));
                    assert(out@ + replace_pair(s@.subrange(i + 1, n as int), first, second, by) =~= old_out
                        + (seq![rest[0]] + replace_pair(rest.drop_first(), first, second, by)));
                }
            }
            i = i + 1;
        }
    }
    assert(s@.subrange(n as int, n as int).len() == 0);
    assert(out@ + replace_pair(s@.subrange(n as int, n as int), first, second, by) =~= out@);
    out
}

/// The array index a token names, if any.
fn token_index(token: &[char]) -> (r: Option<usize>)
    ensures
        match array_index(token@) {
            Some(i) => r == Some(i as usize),
            None => r is None,
        },
{
    if token.len() > 0 && (token[0] == '+' || (token[0] == '0' && token.len() != 1)) {
        return None;
    }
    match parse_unsigned_chars(token, usize::MAX as u64) {
        Some(i) => Some(i as usize),
        None => None,
    }
}

/// What one unescaped token selects in a value.
fn member<'a>(v: &'a JsonValue, token: &[char]) -> (r: Option<&'a JsonValue>)
    ensures
        match member_of(json_view(*v), token@) {
            Some(t) => r matches Some(x) && json_view(*x) == t,
            None => r is None,
        },
{
    match v {
        JsonValue::Object(members) => {
            let ghost view = json_view(*v)->Object_0;
            let mut i: usize = 0;
            while i < members.len()
                invariant
                    *v is Object,
                    v->Object_0 == *members,
                    view == json_view(*v)->Object_0,
                    i <= members@.len(),
                    first_key(view.subrange(0, i as int), token@) is None,
                decreases members@.len() - i,
            {
                proof {
                    lemma_object_view(*members, i as int);
                    assert(view.subrange(0, i + 1).drop_last() =~= view.subrange(0, i as int));
                }
                let key = chars_of(members[i].0.as_str());
                if crate::text::chars_eq(key.as_slice(), token) {
                    proof {
                        lemma_first_key_found(view, token@, i as int);
                    }
                    return Some(&members[i].1);
                }
                i = i + 1;
            }
            proof {
                if members@.len() > 0 {
                    lemma_object_view(*members, 0);
                }
                assert(view.len() == members@.len());
                assert(view.subrange(0, members@.len() as int) =~= view);
            }
            None
        },
        JsonValue::Array(items) => {
            match token_index(token) {
                Some(i) => if i < items.len() {
                    proof {
                        lemma_array_view(*items, i as int);
                    }
                    Some(&items[i])
                } else {
                    proof {
                        if items@.len() > 0 {
                            lemma_array_view(*items, 0);
                        }
                    }
                    None
                },
                None => None,
            }
        },
        _ => None,
    }
}

/// The first key match in a sequence whose first `i` members do not match
/// is at `i`, when member `i` matches.
pub proof fn lemma_first_key_found(members: Seq<(Seq<char>, JsonView)>, key: Seq<char>, i: int)
    requires
        0 <= i < members.len(),
        first_key(members.subrange(0, i), key) is None,
        members[i].0 == key,
    ensures
        first_key(members, key) == Some(i),
    decreases members.len(),
{
    let next = members.subrange(0, i + 1);
    assert(next.drop_last() =~= members.subrange(0, i));
    if members.len() > i + 1 {
        assert(members.drop_last().subrange(0, i) =~= members.subrange(0, i));
        lemma_first_key_found(members.drop_last(), key, i);
    } else {
        assert(members =~= next);
    }
}

/// The value a JSON pointer names in `v`, as `serde_json::Value::pointer`
/// finds it.
pub fn json_pointer<'a>(v: &'a JsonValue, pointer: &str) -> (r: Option<&'a JsonValue>)
    ensures
        match pointer_target(json_view(*v), pointer@) {
            Some(t) => r matches Some(x) && json_view(*x) == t,
            None => r is None,
        },
{
    let chars = chars_of(pointer);
    if chars.len() == 0 {
        return Some(v);
    }
    if chars[0] != '/' {
        return None;
    }
    let rest = crate::text::slice_range(chars.as_slice(), 1, chars.len());
    assert(rest@ =~= pointer@.drop_first());
    let tokens = split_at_slashes(rest.as_slice());
    let ghost all = char_views(tokens@);
    let mut current: &JsonValue = v;
    let mut k: usize = 0;
    assert(all.subrange(0, all.len() as int) =~= all);
    while k < tokens.len()
        invariant
            all == char_views(tokens@),
            all == split_slash(pointer@.drop_first()),
            pointer@.len() > 0 && pointer@[0] == '/',
            k <= tokens@.len(),
            walk(json_view(*v), all) == walk(json_view(*current), all.subrange(k as int, all.len() as int)),
        decreases tokens@.len() - k,
    {
        let ghost tail = all.subrange(k as int, all.len() as int);
        assert(tail[0] == tokens@[k as int]@);
        assert(tail.drop_first() =~= all.subrange(k + 1, all.len() as int));
        let once = replace_pair_chars(tokens[k].as_slice(), '~', '1', '/');
        let token = replace_pair_chars(once.as_slice(), '~', '0', '~');
        assert(token@ == unescape_token(tail[0]));
        match member(current, token.as_slice()) {
            Some(next) => {
                current = next;
            },
            None => {
                return None;
            },
        }
        k = k + 1;
    }
    assert(all.subrange(k as int, all.len() as int).len() == 0);
    Some(current)
}

/// The members of an object with `key` set to `value`: in place where the
/// key is present, else at the end.
pub open spec fn set_member(members: Seq<(Seq<char>, JsonView)>, key: Seq<char>, value: JsonView) -> Seq<
    (Seq<char>, JsonView),
> {
    match first_key(members, key) {
        Some(i) => members.update(i, (key, value)),
        None => members.push((key, value)),
    }
}

/// The views of object members.
pub open spec fn members_view(members: Seq<(String, JsonValue)>) -> Seq<(Seq<char>, JsonView)> {
    Seq::new(members.len(), |i: int| (members[i].0@, json_view(members[i].1)))
}

/// Sets a member of an object.
pub fn set_member_in(members: &mut Vec<(String, JsonValue)>, key: &String, value: JsonValue)
    ensures
        members_view(final(members)@) == set_member(members_view(old(members)@), key@, json_view(value)),
{
    let ghost view = members_view(members@);
    let mut i: usize = 0;
    while i < members.len()
        invariant
            view == members_view(members@),
            members@ == old(members)@,
            i <= members@.len(),
            first_key(view.subrange(0, i as int), key@) is None,
        decreases members@.len() - i,
    {
        assert(view.subrange(0, i + 1).drop_last() =~= view.subrange(0, i as int));
        if text_eq(members[i].0.as_str(), key.as_str()) {
            proof {
                lemma_first_key_found(view, key@, i as int);
            }
            let ghost v = json_view(value);
            members.set(i, (copy_string(key), value));
            assert(members_view(members@) =~= view.update(i as int, (key@, v)));
            return;
        }
        i = i + 1;
    }
    assert(view.subrange(0, members@.len() as int) =~= view);
    let ghost v = json_view(value);
    members.push((copy_string(key), value));
    assert(members_view(members@) =~= view.push((key@, v)));
}

} // verus!
