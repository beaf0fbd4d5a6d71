//! A model of JSON values and a verified printer for their text form.
//!
//! [`JsonValue`] is the executable representation; its view is the purely
//! mathematical [`JsonModel`], which contracts speak of. Numbers are carried
//! in their source text form, so nothing here depends on floating point.

use vstd::prelude::*;
use vstd::string::StrSliceExecFns;
use vstd::string::StringExecFns;

verus! {

/// One JSON value. A number is kept as the exact text that denotes it.
pub enum JsonValue {
    Null,
    Bool(bool),
    Num(String),
    Str(String),
    Arr(Vec<JsonValue>),
    Obj(Vec<(String, JsonValue)>),
}

/// The mathematical shape of a JSON value: what a [`JsonValue`] means.
pub enum JsonModel {
    Null,
    Bool(bool),
    Num(Seq<char>),
    Str(Seq<char>),
    Arr(Seq<JsonModel>),
    Obj(Seq<(Seq<char>, JsonModel)>),
}

/// The meaning of one executable JSON value.
pub open spec fn model(v: JsonValue) -> JsonModel
    decreases v,
{
    match v {
        JsonValue::Null => JsonModel::Null,
        JsonValue::Bool(b) => JsonModel::Bool(b),
        JsonValue::Num(t) => JsonModel::Num(t@),
        JsonValue::Str(s) => JsonModel::Str(s@),
        JsonValue::Arr(xs) => JsonModel::Arr(model_seq(xs@)),
        JsonValue::Obj(fs) => JsonModel::Obj(model_fields(fs@)),
    }
}

/// The meanings of a sequence of JSON values, element by element.
pub open spec fn model_seq(xs: Seq<JsonValue>) -> Seq<JsonModel>
    decreases xs,
{
    if xs.len() == 0 {
        Seq::empty()
    } else {
        seq![model(xs[0])] + model_seq(xs.skip(1))
    }
}

/// The meanings of an object's members, member by member.
pub open spec fn model_fields(fs: Seq<(String, JsonValue)>) -> Seq<(Seq<char>, JsonModel)>
    decreases fs,
{
    if fs.len() == 0 {
        Seq::empty()
    } else {
        seq![(fs[0].0@, model(fs[0].1))] + model_fields(fs.skip(1))
    }
}

impl View for JsonValue {
    type V = JsonModel;

    open spec fn view(&self) -> JsonModel {
        model(*self)
    }
}

/// `model_seq` maps the sequence element by element.
pub proof fn lemma_model_seq(xs: Seq<JsonValue>)
    ensures
        model_seq(xs).len() == xs.len(),
        forall|i: int| 0 <= i < xs.len() ==> model_seq(xs)[i] == model(xs[i]),
    decreases xs.len(),
{
    if xs.len() > 0 {
        lemma_model_seq(xs.skip(1));
        assert forall|i: int| 0 <= i < xs.len() implies model_seq(xs)[i] == model(xs[i]) by {
            if i > 0 {
                assert(model_seq(xs.skip(1))[i - 1] == model(xs.skip(1)[i - 1]));
                assert(xs.skip(1)[i - 1] == xs[i]);
            }
        }
    }
}

/// `model_fields` maps the member list member by member.
pub proof fn lemma_model_fields(fs: Seq<(String, JsonValue)>)
    ensures
        model_fields(fs).len() == fs.len(),
        forall|i: int|
            0 <= i < fs.len() ==> model_fields(fs)[i] == (fs[i].0@, model(fs[i].1)),
    decreases fs.len(),
{
    if fs.len() > 0 {
        lemma_model_fields(fs.skip(1));
        assert forall|i: int|
            0 <= i < fs.len() implies model_fields(fs)[i] == (fs[i].0@, model(fs[i].1)) by {
            if i > 0 {
                assert(model_fields(fs.skip(1))[i - 1] == (fs.skip(1)[i - 1].0@, model(
                    fs.skip(1)[i - 1].1,
                )));
                assert(fs.skip(1)[i - 1] == fs[i]);
            }
        }
    }
}

/// The text form of one escaped character inside a JSON string literal,
/// following the common compact convention: `"` and `\` are escaped, control
/// characters below space become `\b`, `\t`, `\n`, `\f`, `\r` or `\u00XX`,
/// and every other character stands for itself.
pub open spec fn escape_char(c: char) -> Seq<char> {
    if c == '"' {
        seq!['\\', '"']
    } else if c == '\\' {
        seq!['\\', '\\']
    } else if c == '\u{8}' {
        seq!['\\', 'b']
    } else if c == '\t' {
        seq!['\\', 't']
    } else if c == '\n' {
        seq!['\\', 'n']
    } else if c == '\u{c}' {
        seq!['\\', 'f']
    } else if c == '\r' {
        seq!['\\', 'r']
    } else if (c as u32) < 32 {
        seq!['\\', 'u', '0', '0', hex_digit(((c as u32) / 16) as nat), hex_digit(
            ((c as u32) % 16) as nat,
        )]
    } else {
        seq![c]
    }
}

/// The lower-case hexadecimal digit for a value below 16.
pub open spec fn hex_digit(n: nat) -> char {
    if n == 0 {
        '0'
    } else if n == 1 {
        '1'
    } else if n == 2 {
        '2'
    } else if n == 3 {
        '3'
    } else if n == 4 {
        '4'
    } else if n == 5 {
        '5'
    } else if n == 6 {
        '6'
    } else if n == 7 {
        '7'
    } else if n == 8 {
        '8'
    } else if n == 9 {
        '9'
    } else if n == 10 {
        'a'
    } else if n == 11 {
        'b'
    } else if n == 12 {
        'c'
    } else if n == 13 {
        'd'
    } else if n == 14 {
        'e'
    } else {
        'f'
    }
}

/// The escaped body of a JSON string literal, one character at a time.
pub open spec fn escape_text(s: Seq<char>) -> Seq<char>
    decreases s.len(),
{
    if s.len() == 0 {
        Seq::empty()
    } else {
        escape_char(s[0]) + escape_text(s.skip(1))
    }
}

/// A complete JSON string literal: quote, escaped body, quote.
pub open spec fn quoted_text(s: Seq<char>) -> Seq<char> {
    seq!['"'] + escape_text(s) + seq!['"']
}

/// The compact text form of a JSON value: no spacing around separators.
pub open spec fn json_text_of(v: JsonModel) -> Seq<char>
    decreases v,
{
    match v {
        JsonModel::Null => seq!['n', 'u', 'l', 'l'],
        JsonModel::Bool(b) => if b {
            seq!['t', 'r', 'u', 'e']
        } else {
            seq!['f', 'a', 'l', 's', 'e']
        },
        JsonModel::Num(t) => t,
        JsonModel::Str(s) => quoted_text(s),
        JsonModel::Arr(xs) => seq!['['] + arr_body_text(xs) + seq![']'],
        JsonModel::Obj(fs) => seq!['{'] + obj_body_text(fs) + seq!['}'],
    }
}

/// The comma-separated element list of a JSON array.
pub open spec fn arr_body_text(xs: Seq<JsonModel>) -> Seq<char>
    decreases xs,
{
    if xs.len() == 0 {
        Seq::empty()
    } else {
        json_text_of(xs[0]) + arr_tail_text(xs.skip(1))
    }
}

/// The elements after the first in a JSON array, each preceded by a comma.
pub open spec fn arr_tail_text(xs: Seq<JsonModel>) -> Seq<char>
    decreases xs,
{
    if xs.len() == 0 {
        Seq::empty()
    } else {
        seq![','] + json_text_of(xs[0]) + arr_tail_text(xs.skip(1))
    }
}

/// One `"key":value` member of a JSON object.
pub open spec fn member_text(f: (Seq<char>, JsonModel)) -> Seq<char>
    decreases f,
{
    quoted_text(f.0) + seq![':'] + json_text_of(f.1)
}

/// The comma-separated member list of a JSON object.
pub open spec fn obj_body_text(fs: Seq<(Seq<char>, JsonModel)>) -> Seq<char>
    decreases fs,
{
    if fs.len() == 0 {
        Seq::empty()
    } else {
        member_text(fs[0]) + obj_tail_text(fs.skip(1))
    }
}

/// The members after the first in a JSON object, each preceded by a comma.
pub open spec fn obj_tail_text(fs: Seq<(Seq<char>, JsonModel)>) -> Seq<char>
    decreases fs,
{
    if fs.len() == 0 {
        Seq::empty()
    } else {
        seq![','] + member_text(fs[0]) + obj_tail_text(fs.skip(1))
    }
}

/// The first value bound to `key` in an object's member list, if any.
pub open spec fn lookup(fs: Seq<(Seq<char>, JsonModel)>, key: Seq<char>) -> Option<JsonModel>
    decreases fs.len(),
{
    if fs.len() == 0 {
        Option::None
    } else if fs[0].0 == key {
        Option::Some(fs[0].1)
    } else {
        lookup(fs.skip(1), key)
    }
}

/// No key appears twice in the member list.
pub open spec fn unique_keys(fs: Seq<(Seq<char>, JsonModel)>) -> bool {
    forall|a: int, b: int| 0 <= a < b < fs.len() ==> fs[a].0 != fs[b].0
}

/// Looking a key up after appending one member: an earlier binding wins,
/// else the new member answers for its own key.
pub proof fn lemma_lookup_push(
    fs: Seq<(Seq<char>, JsonModel)>,
    f: (Seq<char>, JsonModel),
    key: Seq<char>,
)
    ensures
        lookup(fs.push(f), key) == (if lookup(fs, key) is Some {
            lookup(fs, key)
        } else if f.0 == key {
            Option::Some(f.1)
        } else {
            Option::<JsonModel>::None
        }),
    decreases fs.len(),
{
    if fs.len() == 0 {
        assert(fs.push(f)[0] == f);
        assert(fs.push(f).skip(1) =~= Seq::<(Seq<char>, JsonModel)>::empty());
        assert(lookup(fs, key) is None);
        if f.0 == key {
            assert(lookup(fs.push(f), key) == Option::Some(f.1));
        } else {
            assert(lookup(fs.push(f), key) == lookup(fs.push(f).skip(1), key));
            assert(lookup(fs.push(f), key) is None);
        }
    } else {
        assert(fs.push(f)[0] == fs[0]);
        assert(fs.push(f).skip(1) =~= fs.skip(1).push(f));
        lemma_lookup_push(fs.skip(1), f, key);
        if fs[0].0 == key {
            assert(lookup(fs.push(f), key) == Option::Some(fs[0].1));
            assert(lookup(fs, key) == Option::Some(fs[0].1));
        } else {
            assert(lookup(fs.push(f), key) == lookup(fs.skip(1).push(f), key));
            assert(lookup(fs, key) == lookup(fs.skip(1), key));
        }
    }
}

/// A key that looks up to nothing binds no member.
pub proof fn lemma_lookup_none(fs: Seq<(Seq<char>, JsonModel)>, key: Seq<char>)
    ensures
        lookup(fs, key) is None <==> (forall|a: int| 0 <= a < fs.len() ==> fs[a].0 != key),
    decreases fs.len(),
{
    if fs.len() > 0 {
        lemma_lookup_none(fs.skip(1), key);
        assert(forall|a: int| 1 <= a < fs.len() ==> fs[a] == fs.skip(1)[a - 1]);
    }
}

/// Relies on `String::push`: appends exactly one character to the string.
#[verifier::external_body]
pub fn push_char(out: &mut String, c: char)
    ensures
        final(out)@ == old(out)@ + seq![c],
{
    out.push(c);
}

/// Relies on `char::from_u32`: `Some` exactly for Unicode scalar values
/// (below the surrogate range, or between it and `0x10FFFF`), and the
/// character returned casts back to the same code point.
#[verifier::external_body]
pub fn char_from_u32(n: u32) -> (r: Option<char>)
    ensures
        r is Some <==> (n < 0xD800 || (0xE000 <= n && n <= 0x10FFFF)),
        r matches Some(c) ==> c as u32 == n,
{
    char::from_u32(n)
}

/// The exec counterpart of `hex_digit`.
pub fn hex_digit_char(n: u32) -> (r: char)
    requires
        n < 16,
    ensures
        r == hex_digit(n as nat),
{
    if n == 0 {
        '0'
    } else if n == 1 {
        '1'
    } else if n == 2 {
        '2'
    } else if n == 3 {
        '3'
    } else if n == 4 {
        '4'
    } else if n == 5 {
        '5'
    } else if n == 6 {
        '6'
    } else if n == 7 {
        '7'
    } else if n == 8 {
        '8'
    } else if n == 9 {
        '9'
    } else if n == 10 {
        'a'
    } else if n == 11 {
        'b'
    } else if n == 12 {
        'c'
    } else if n == 13 {
        'd'
    } else if n == 14 {
        'e'
    } else {
        'f'
    }
}

/// Whether two string slices hold the same characters.
pub fn str_eq(a: &str, b: &str) -> (r: bool)
    ensures
        r == (a@ == b@),
{
    let na: usize = a.unicode_len();
    let nb: usize = b.unicode_len();
    if na != nb {
        return false;
    }
    let mut i: usize = 0;
    while i < na
        invariant
            na == a@.len(),
            nb == b@.len(),
            na == nb,
            i <= na,
            forall|k: int| 0 <= k < i ==> a@[k] == b@[k],
        decreases na - i,
    {
        if a.get_char(i) != b.get_char(i) {
            return false;
        }
        i = i + 1;
    }
    proof {
        assert(a@ =~= b@);
    }
    true
}

/// Appends the escaped form of one character.
fn write_escaped_char(c: char, out: &mut String)
    ensures
        final(out)@ == old(out)@ + escape_char(c),
{
    if c == '"' {
        push_char(out, '\\');
        push_char(out, '"');
    } else if c == '\\' {
        push_char(out, '\\');
        push_char(out, '\\');
    } else if c == '\u{8}' {
        push_char(out, '\\');
        push_char(out, 'b');
    } else if c == '\t' {
        push_char(out, '\\');
        push_char(out, 't');
    } else if c == '\n' {
        push_char(out, '\\');
        push_char(out, 'n');
    } else if c == '\u{c}' {
        push_char(out, '\\');
        push_char(out, 'f');
    } else if c == '\r' {
        push_char(out, '\\');
        push_char(out, 'r');
    } else if (c as u32) < 32 {
        push_char(out, '\\');
        push_char(out, 'u');
        push_char(out, '0');
        push_char(out, '0');
        push_char(out, hex_digit_char((c as u32) / 16));
        push_char(out, hex_digit_char((c as u32) % 16));
    } else {
        push_char(out, c);
    }
}

/// Appends a complete JSON string literal for `s`.
pub fn write_json_string(s: &str, out: &mut String)
    ensures
        final(out)@ == old(out)@ + quoted_text(s@),
{
    let n: usize = s.unicode_len();
    push_char(out, '"');
    proof {
        assert(s@.skip(0) =~= s@);
    }
    let mut i: usize = 0;
    while i < n
        invariant
            n == s@.len(),
            i <= n,
            out@ + escape_text(s@.skip(i as int)) == old(out)@ + seq!['"'] + escape_text(s@),
        decreases n - i,
    {
        let c = s.get_char(i);
        let ghost pre = out@;
        proof {
            assert(s@.skip(i as int)[0] == c);
            assert(s@.skip(i as int).skip(1) =~= s@.skip(i as int + 1));
        }
        write_escaped_char(c, out);
        proof {
            assert(out@ + escape_text(s@.skip(i as int + 1)) =~= pre + escape_text(
                s@.skip(i as int),
            ));
        }
        i = i + 1;
    }
    proof {
        assert(s@.skip(n as int) =~= Seq::<char>::empty());
        assert(escape_text(Seq::<char>::empty()) == Seq::<char>::empty());
        assert(out@ =~= old(out)@ + seq!['"'] + escape_text(s@));
    }
    push_char(out, '"');
    proof {
        assert(old(out)@ + seq!['"'] + escape_text(s@) + seq!['"'] =~= old(out)@ + quoted_text(
            s@,
        ));
    }
}

/// Appends the compact text form of a JSON value.
pub fn write_json_value(v: &JsonValue, out: &mut String)
    ensures
        final(out)@ == old(out)@ + json_text_of(v@),
    decreases *v,
{
    match v {
        JsonValue::Null => {
            push_char(out, 'n');
            push_char(out, 'u');
            push_char(out, 'l');
            push_char(out, 'l');
        },
        JsonValue::Bool(b) => {
            if *b {
                push_char(out, 't');
                push_char(out, 'r');
                push_char(out, 'u');
                push_char(out, 'e');
            } else {
                push_char(out, 'f');
                push_char(out, 'a');
                push_char(out, 'l');
                push_char(out, 's');
                push_char(out, 'e');
            }
        },
        JsonValue::Num(t) => {
            out.append(t.as_str());
        },
        JsonValue::Str(s) => {
            write_json_string(s.as_str(), out);
        },
        JsonValue::Arr(xs) => {
            push_char(out, '[');
            let ghost base = out@;
            let ghost ms = model_seq(xs@);
            proof {
                lemma_model_seq(xs@);
            }
            let mut i: usize = 0;
            while i < xs.len()
                invariant
                    i <= xs@.len(),
                    v matches JsonValue::Arr(ys) && ys@ == xs@,
                    ms == model_seq(xs@),
                    ms.len() == xs@.len(),
                    forall|k: int| 0 <= k < xs@.len() ==> ms[k] == model(xs@[k]),
                    base == old(out)@ + seq!['['],
                    out@ + (if i == 0 {
                        arr_body_text(ms)
                    } else {
                        arr_tail_text(ms.skip(i as int))
                    }) == base + arr_body_text(ms),
                decreases xs@.len() - i,
            {
                let ghost pre = out@;
                proof {
                    assert(ms.skip(i as int)[0] == ms[i as int]);
                    assert(ms.skip(i as int).skip(1) =~= ms.skip(i as int + 1));
                    assert(decreases_to!(*v => v->Arr_0));
                    assert(decreases_to!(v->Arr_0 => v->Arr_0@));
                    assert(decreases_to!(v->Arr_0@ => v->Arr_0@[i as int]));
                    assert(decreases_to!(*v => xs@[i as int]));
                }
                if i > 0 {
                    push_char(out, ',');
                }
                write_json_value(&xs[i], out);
                proof {
                    if i == 0 {
                        assert(out@ + arr_tail_text(ms.skip(1)) =~= pre + arr_body_text(ms));
                    } else {
                        assert(out@ + arr_tail_text(ms.skip(i as int + 1)) =~= pre
                            + arr_tail_text(ms.skip(i as int)));
                    }
                }
                i = i + 1;
            }
            proof {
                if ms.len() > 0 {
                    assert(ms.skip(ms.len() as int) =~= Seq::<JsonModel>::empty());
                }
                assert(out@ =~= base + arr_body_text(ms));
            }
            push_char(out, ']');
            proof {
                assert(old(out)@ + seq!['['] + arr_body_text(ms) + seq![']'] =~= old(out)@
                    + json_text_of(v@));
            }
        },
        JsonValue::Obj(fs) => {
            push_char(out, '{');
            let ghost base = out@;
            let ghost ms = model_fields(fs@);
            proof {
                lemma_model_fields(fs@);
            }
            let mut i: usize = 0;
            while i < fs.len()
                invariant
                    i <= fs@.len(),
                    v matches JsonValue::Obj(gs) && gs@ == fs@,
                    ms == model_fields(fs@),
                    ms.len() == fs@.len(),
                    forall|k: int| 0 <= k < fs@.len() ==> ms[k] == (fs@[k].0@, model(fs@[k].1)),
                    base == old(out)@ + seq!['{'],
                    out@ + (if i == 0 {
                        obj_body_text(ms)
                    } else {
                        obj_tail_text(ms.skip(i as int))
                    }) == base + obj_body_text(ms),
                decreases fs@.len() - i,
            {
                let ghost pre = out@;
                proof {
                    assert(ms.skip(i as int)[0] == ms[i as int]);
                    assert(ms.skip(i as int).skip(1) =~= ms.skip(i as int + 1));
                    assert(decreases_to!(*v => v->Obj_0));
                    assert(decreases_to!(v->Obj_0 => v->Obj_0@));
                    assert(decreases_to!(v->Obj_0@ => v->Obj_0@[i as int]));
                    assert(decreases_to!(fs@[i as int] => fs@[i as int].1));
                    assert(decreases_to!(*v => fs@[i as int].1));
                }
                if i > 0 {
                    push_char(out, ',');
                }
                write_json_string(fs[i].0.as_str(), out);
                push_char(out, ':');
                write_json_value(&fs[i].1, out);
                proof {
                    assert(member_text(ms[i as int]) == quoted_text(fs@[i as int].0@) + seq![':']
                        + json_text_of(model(fs@[i as int].1)));
                    if i == 0 {
                        assert(obj_body_text(ms) == member_text(ms[0]) + obj_tail_text(
                            ms.skip(1),
                        ));
                        assert(out@ =~= pre + member_text(ms[0]));
                        assert(out@ + obj_tail_text(ms.skip(1)) =~= pre + obj_body_text(ms));
                    } else {
                        assert(obj_tail_text(ms.skip(i as int)) == seq![','] + member_text(
                            ms[i as int],
                        ) + obj_tail_text(ms.skip(i as int + 1)));
                        assert(out@ =~= pre + seq![','] + member_text(ms[i as int]));
                        assert(out@ + obj_tail_text(ms.skip(i as int + 1)) =~= pre
                            + obj_tail_text(ms.skip(i as int)));
                    }
                }
                i = i + 1;
            }
            proof {
                if ms.len() > 0 {
                    assert(ms.skip(ms.len() as int) =~= Seq::<(Seq<char>, JsonModel)>::empty());
                }
                assert(out@ =~= base + obj_body_text(ms));
            }
            push_char(out, '}');
            proof {
                assert(old(out)@ + seq!['{'] + obj_body_text(ms) + seq!['}'] =~= old(out)@
                    + json_text_of(v@));
            }
        },
    }
}

/// The compact text form of a JSON value, as a fresh string.
pub fn to_json_text(v: &JsonValue) -> (r: String)
    ensures
        r@ == json_text_of(v@),
{
    let mut out = String::new();
    write_json_value(v, &mut out);
    out
}

impl JsonValue {
    /// The first value bound to `key` when this value is an object.
    pub fn get<'a>(&'a self, key: &str) -> (r: Option<&'a JsonValue>)
        ensures
            match r {
                Option::Some(v) => self@ matches JsonModel::Obj(fs) && lookup(fs, key@)
                    == Option::Some(v@),
                Option::None => !(self@ matches JsonModel::Obj(fs) && lookup(fs, key@) is Some),
            },
    {
        match self {
            JsonValue::Obj(fs) => {
                let ghost ms = model_fields(fs@);
                proof {
                    lemma_model_fields(fs@);
                    assert(ms.skip(0) =~= ms);
                }
                let mut i: usize = 0;
                while i < fs.len()
                    invariant
                        i <= fs@.len(),
                        self matches JsonValue::Obj(gs) && gs@ == fs@,
                        ms == model_fields(fs@),
                        ms.len() == fs@.len(),
                        forall|k: int|
                            0 <= k < fs@.len() ==> ms[k] == (fs@[k].0@, model(fs@[k].1)),
                        lookup(ms, key@) == lookup(ms.skip(i as int), key@),
                        forall|k: int| 0 <= k < i ==> ms[k].0 != key@,
                    decreases fs@.len() - i,
                {
                    proof {
                        assert(ms.skip(i as int)[0] == ms[i as int]);
                        assert(ms.skip(i as int).skip(1) =~= ms.skip(i as int + 1));
                    }
                    if str_eq(fs[i].0.as_str(), key) {
                        return Option::Some(&fs[i].1);
                    }
                    i = i + 1;
                }
                proof {
                    assert(ms.skip(ms.len() as int) =~= Seq::<(Seq<char>, JsonModel)>::empty());
                }
                Option::None
            },
            _ => Option::None,
        }
    }

    /// The carried text when this value is a JSON string.
    pub fn as_str<'a>(&'a self) -> (r: Option<&'a str>)
        ensures
            match r {
                Option::Some(s) => self@ matches JsonModel::Str(t) && t == s@,
                Option::None => !(self@ is Str),
            },
    {
        match self {
            JsonValue::Str(s) => Option::Some(s.as_str()),
            _ => Option::None,
        }
    }

    /// A fresh value with the same meaning.
    pub fn duplicate(&self) -> (r: JsonValue)
        ensures
            r@ == self@,
        decreases *self,
    {
        match self {
            JsonValue::Null => JsonValue::Null,
            JsonValue::Bool(b) => JsonValue::Bool(*b),
            JsonValue::Num(t) => JsonValue::Num(t.clone()),
            JsonValue::Str(s) => JsonValue::Str(s.clone()),
            JsonValue::Arr(xs) => {
                let ghost ms = model_seq(xs@);
                proof {
                    lemma_model_seq(xs@);
                }
                let mut out: Vec<JsonValue> = Vec::new();
                let mut i: usize = 0;
                while i < xs.len()
                    invariant
                        i <= xs@.len(),
                        self matches JsonValue::Arr(ys) && ys@ == xs@,
                        ms == model_seq(xs@),
                        ms.len() == xs@.len(),
                        forall|k: int| 0 <= k < xs@.len() ==> ms[k] == model(xs@[k]),
                        out@.len() == i,
                        forall|k: int| 0 <= k < i ==> model(#[trigger] out@[k]) == ms[k],
                    decreases xs@.len() - i,
                {
                    proof {
                        assert(decreases_to!(*self => self->Arr_0));
                        assert(decreases_to!(self->Arr_0 => self->Arr_0@));
                        assert(decreases_to!(self->Arr_0@ => self->Arr_0@[i as int]));
                        assert(decreases_to!(*self => xs@[i as int]));
                    }
                    let d = xs[i].duplicate();
                    out.push(d);
                    i = i + 1;
                }
                proof {
                    lemma_model_seq(out@);
                    assert(model_seq(out@) =~= ms);
                }
                JsonValue::Arr(out)
            },
            JsonValue::Obj(fs) => {
                let ghost ms = model_fields(fs@);
                proof {
                    lemma_model_fields(fs@);
                }
                let mut out: Vec<(String, JsonValue)> = Vec::new();
                let mut i: usize = 0;
                while i < fs.len()
                    invariant
                        i <= fs@.len(),
                        self matches JsonValue::Obj(gs) && gs@ == fs@,
                        ms == model_fields(fs@),
                        ms.len() == fs@.len(),
                        forall|k: int|
                            0 <= k < fs@.len() ==> ms[k] == (fs@[k].0@, model(fs@[k].1)),
                        out@.len() == i,
                        forall|k: int|
                            0 <= k < i ==> (#[trigger] out@[k]).0@ == ms[k].0 && model(out@[k].1)
                                == ms[k].1,
                    decreases fs@.len() - i,
                {
                    proof {
                        assert(decreases_to!(*self => self->Obj_0));
                        assert(decreases_to!(self->Obj_0 => self->Obj_0@));
                        assert(decreases_to!(self->Obj_0@ => self->Obj_0@[i as int]));
                        assert(decreases_to!(fs@[i as int] => fs@[i as int].1));
                        assert(decreases_to!(*self => fs@[i as int].1));
                    }
                    let k = fs[i].0.clone();
                    let d = fs[i].1.duplicate();
                    out.push((k, d));
                    i = i + 1;
                }
                proof {
                    lemma_model_fields(out@);
                    assert(model_fields(out@) =~= ms);
                }
                JsonValue::Obj(out)
            },
        }
    }
}

/// The decimal digit string of a natural number.
pub open spec fn dec_nat_text(n: nat) -> Seq<char>
    decreases n,
{
    if n < 10 {
        seq![hex_digit(n)]
    } else {
        dec_nat_text(n / 10) + seq![hex_digit(n % 10)]
    }
}

/// The decimal text of an integer, with a leading minus sign when negative.
pub open spec fn dec_int_text(n: int) -> Seq<char> {
    if n < 0 {
        seq!['-'] + dec_nat_text((-n) as nat)
    } else {
        dec_nat_text(n as nat)
    }
}

/// Appends the decimal digits of `x`.
fn push_dec(x: u64, out: &mut String)
    ensures
        final(out)@ == old(out)@ + dec_nat_text(x as nat),
    decreases x,
{
    if x < 10 {
        push_char(out, hex_digit_char(x as u32));
    } else {
        push_dec(x / 10, out);
        push_char(out, hex_digit_char((x % 10) as u32));
    }
}

/// The decimal text of a signed 64-bit integer, as a fresh string.
pub fn i64_to_string(n: i64) -> (r: String)
    ensures
        r@ == dec_int_text(n as int),
{
    let mut out = String::new();
    if n >= 0 {
        push_dec(n as u64, &mut out);
    } else {
        push_char(&mut out, '-');
        let mag: u64 = ((-(n + 1)) as u64) + 1;
        proof {
            assert(mag as int == -(n as int));
        }
        push_dec(mag, &mut out);
    }
    out
}

} // verus!
