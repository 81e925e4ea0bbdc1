use vstd::prelude::*;
use crate::text::{is_digit, is_digits, val_spec, parse_u64, str_eq, dec_spec};

verus! {

/// A JSON document. Numbers are kept as their source tokens, so no
/// precision is lost and no floating point is involved.
pub enum Json {
    Null,
    Bool(bool),
    Num(String),
    Str(String),
    Arr(Vec<Json>),
    Obj(Vec<(String, Json)>),
}

/// The mathematical shape of a JSON document.
pub enum JsonV {
    Null,
    Bool(bool),
    Num(Seq<char>),
    Str(Seq<char>),
    Arr(Seq<JsonV>),
    Obj(Seq<(Seq<char>, JsonV)>),
}

pub open spec fn elems_view(s: Seq<Json>) -> Seq<JsonV>
    decreases s,
{
    if s.len() == 0 {
        Seq::empty()
    } else {
        seq![json_view(s[0])] + elems_view(s.skip(1))
    }
}

pub open spec fn fields_view(s: Seq<(String, Json)>) -> Seq<(Seq<char>, JsonV)>
    decreases s,
{
    if s.len() == 0 {
        Seq::empty()
    } else {
        seq![(s[0].0@, json_view(s[0].1))] + fields_view(s.skip(1))
    }
}

pub open spec fn json_view(j: Json) -> JsonV
    decreases j,
{
    match j {
        Json::Null => JsonV::Null,
        Json::Bool(b) => JsonV::Bool(b),
        Json::Num(t) => JsonV::Num(t@),
        Json::Str(s) => JsonV::Str(s@),
        Json::Arr(elems) => JsonV::Arr(elems_view(elems@)),
        Json::Obj(fields) => JsonV::Obj(fields_view(fields@)),
    }
}

impl View for Json {
    type V = JsonV;

    open spec fn view(&self) -> JsonV {
        json_view(*self)
    }
}

/// The element views of an array are the views of its elements.
pub broadcast proof fn lemma_elems_view(s: Seq<Json>)
    ensures
        (#[trigger] elems_view(s)).len() == s.len(),
        forall|i: int| 0 <= i < s.len() ==> #[trigger] elems_view(s)[i] == json_view(s[i]),
    decreases s,
{
    if s.len() > 0 {
        lemma_elems_view(s.skip(1));
        assert forall|i: int| 0 <= i < s.len() implies #[trigger] elems_view(s)[i] == json_view(
            s[i],
        ) by {
            if i > 0 {
                assert(elems_view(s)[i] == elems_view(s.skip(1))[i - 1]);
                assert(s.skip(1)[i - 1] == s[i]);
            }
        }
    }
}

/// The field views of an object are the views of its fields.
pub broadcast proof fn lemma_fields_view(s: Seq<(String, Json)>)
    ensures
        (#[trigger] fields_view(s)).len() == s.len(),
        forall|i: int|
            0 <= i < s.len() ==> #[trigger] fields_view(s)[i] == (s[i].0@, json_view(s[i].1)),
    decreases s,
{
    if s.len() > 0 {
        lemma_fields_view(s.skip(1));
        assert forall|i: int| 0 <= i < s.len() implies #[trigger] fields_view(s)[i] == (s[i].0@,
        json_view(s[i].1)) by {
            if i > 0 {
                assert(fields_view(s)[i] == fields_view(s.skip(1))[i - 1]);
                assert(s.skip(1)[i - 1] == s[i]);
            }
        }
    }
}

// --- well-formedness of number tokens ---

/// A plausible JSON number token: non-empty, written with the characters a
/// JSON number may hold, and starting with a digit or a minus sign.
pub open spec fn num_token_wf(t: Seq<char>) -> bool {
    &&& t.len() > 0
    &&& (is_digit(t[0]) || t[0] == '-')
    &&& forall|i: int|
        0 <= i < t.len() ==> (is_digit(#[trigger] t[i]) || t[i] == '-' || t[i] == '+' || t[i]
            == '.' || t[i] == 'e' || t[i] == 'E')
}

/// Every number token in the document is a plausible JSON number token.
pub open spec fn json_wf(j: JsonV) -> bool
    decreases j,
{
    match j {
        JsonV::Null => true,
        JsonV::Bool(_) => true,
        JsonV::Num(t) => num_token_wf(t),
        JsonV::Str(_) => true,
        JsonV::Arr(elems) => forall|i: int|
            0 <= i < elems.len() ==> json_wf(#[trigger] elems[i]),
        JsonV::Obj(fields) => forall|i: int|
            0 <= i < fields.len() ==> json_wf((#[trigger] fields[i]).1),
    }
}

// --- nesting depth ---

pub open spec fn seq_height(elems: Seq<JsonV>) -> nat
    decreases elems,
{
    if elems.len() == 0 {
        0
    } else {
        let h = json_height(elems[0]);
        let rest = seq_height(elems.skip(1));
        if h > rest {
            h
        } else {
            rest
        }
    }
}

pub open spec fn fields_height(fields: Seq<(Seq<char>, JsonV)>) -> nat
    decreases fields,
{
    if fields.len() == 0 {
        0
    } else {
        let h = json_height(fields[0].1);
        let rest = fields_height(fields.skip(1));
        if h > rest {
            h
        } else {
            rest
        }
    }
}

/// Nesting depth of a document: scalars have depth zero, and each array or
/// object adds one level above its deepest member.
pub open spec fn json_height(j: JsonV) -> nat
    decreases j,
{
    match j {
        JsonV::Arr(elems) => 1 + seq_height(elems),
        JsonV::Obj(fields) => 1 + fields_height(fields),
        _ => 0,
    }
}

pub proof fn lemma_seq_height_ge(elems: Seq<JsonV>, i: int)
    requires
        0 <= i < elems.len(),
    ensures
        json_height(elems[i]) <= seq_height(elems),
    decreases elems.len(),
{
    if i > 0 {
        lemma_seq_height_ge(elems.skip(1), i - 1);
    }
}

pub proof fn lemma_fields_height_ge(fields: Seq<(Seq<char>, JsonV)>, i: int)
    requires
        0 <= i < fields.len(),
    ensures
        json_height(fields[i].1) <= fields_height(fields),
    decreases fields.len(),
{
    if i > 0 {
        lemma_fields_height_ge(fields.skip(1), i - 1);
    }
}

pub proof fn lemma_seq_height_le(elems: Seq<JsonV>, h: nat)
    requires
        forall|i: int| 0 <= i < elems.len() ==> json_height(#[trigger] elems[i]) <= h,
    ensures
        seq_height(elems) <= h,
    decreases elems.len(),
{
    if elems.len() > 0 {
        assert(forall|i: int|
            0 <= i < elems.skip(1).len() ==> json_height(#[trigger] elems.skip(1)[i]) <= h);
        lemma_seq_height_le(elems.skip(1), h);
    }
}

pub proof fn lemma_fields_height_le(fields: Seq<(Seq<char>, JsonV)>, h: nat)
    requires
        forall|i: int| 0 <= i < fields.len() ==> json_height((#[trigger] fields[i]).1) <= h,
    ensures
        fields_height(fields) <= h,
    decreases fields.len(),
{
    if fields.len() > 0 {
        assert(forall|i: int|
            0 <= i < fields.skip(1).len() ==> json_height((#[trigger] fields.skip(1)[i]).1) <= h);
        lemma_fields_height_le(fields.skip(1), h);
    }
}

/// A field's value is nested no deeper than the object it sits in.
pub proof fn lemma_obj_get_height(fields: Seq<(Seq<char>, JsonV)>, key: Seq<char>)
    ensures
        obj_get(fields, key) matches Some(v) ==> json_height(v) <= fields_height(fields),
    decreases fields.len(),
{
    if fields.len() > 0 && fields[0].0 != key {
        lemma_obj_get_height(fields.skip(1), key);
    }
}

// --- field lookup ---

/// The value of the first field named `key`, if any.
pub open spec fn obj_get(fields: Seq<(Seq<char>, JsonV)>, key: Seq<char>) -> Option<JsonV>
    decreases fields.len(),
{
    if fields.len() == 0 {
        None
    } else if fields[0].0 == key {
        Some(fields[0].1)
    } else {
        obj_get(fields.skip(1), key)
    }
}

/// Looking a key up finds the field at `i` when no earlier field has it.
pub proof fn lemma_obj_get_at(fields: Seq<(Seq<char>, JsonV)>, i: int, key: Seq<char>)
    requires
        0 <= i < fields.len(),
        fields[i].0 == key,
        forall|k: int| 0 <= k < i ==> (#[trigger] fields[k]).0 != key,
    ensures
        obj_get(fields, key) == Some(fields[i].1),
    decreases i,
{
    if i > 0 {
        lemma_obj_get_at(fields.skip(1), i - 1, key);
    }
}

/// Field lookup on a document: `None` unless the document is an object
/// with a field of that name.
pub open spec fn get_spec(j: JsonV, key: Seq<char>) -> Option<JsonV> {
    match j {
        JsonV::Obj(fields) => obj_get(fields, key),
        _ => None,
    }
}

pub open spec fn as_u64_spec(j: JsonV) -> Option<u64> {
    match j {
        JsonV::Num(t) => if is_digits(t) && val_spec(t) <= u64::MAX {
            Some(val_spec(t) as u64)
        } else {
            None
        },
        _ => None,
    }
}

impl Json {
    /// Looks up a field of an object, as the remote documents are read:
    /// `None` when the document is not an object or has no such field.
    pub fn get<'a>(&'a self, key: &str) -> (r: Option<&'a Json>)
        ensures
            match r {
                Some(v) => get_spec(self@, key@) == Some(v@),
                None => get_spec(self@, key@) is None,
            },
    {
        match self {
            Json::Obj(fields) => {
                let ghost fsv = self@->Obj_0;
                let n = fields.len();
                let mut i: usize = 0;
                proof {
                    lemma_fields_view(fields@);
                    assert(fsv.skip(0) =~= fsv);
                }
                while i < n
                    invariant
                        i <= n,
                        n == fields@.len(),
                        fsv == json_view(*self)->Obj_0,
                        fsv.len() == n,
                        forall|k: int|
                            0 <= k < n ==> #[trigger] fsv[k] == (fields@[k].0@, json_view(
                                fields@[k].1,
                            )),
                        obj_get(fsv, key@) == obj_get(fsv.skip(i as int), key@),
                    decreases n - i,
                {
                    if str_eq(fields[i].0.as_str(), key) {
                        assert(obj_get(fsv.skip(i as int), key@) == Some(fsv[i as int].1));
                        return Some(&fields[i].1);
                    }
                    proof {
                        assert(fsv.skip(i as int).skip(1) =~= fsv.skip(i + 1));
                    }
                    i += 1;
                }
                assert(fsv.skip(n as int) =~= Seq::<(Seq<char>, JsonV)>::empty());
                None
            },
            _ => None,
        }
    }

    /// Takes a field of an object out by value: `None` when the document
    /// is not an object or has no such field.
    pub fn take_field(self, key: &str) -> (r: Option<Json>)
        ensures
            match r {
                Some(v) => get_spec(self@, key@) == Some(v@),
                None => get_spec(self@, key@) is None,
            },
    {
        let ghost selfv = self@;
        match self {
            Json::Obj(mut fields) => {
                let ghost fsv = selfv->Obj_0;
                let n = fields.len();
                let mut i: usize = 0;
                proof {
                    lemma_fields_view(fields@);
                    assert(fsv =~= fields_view(fields@));
                    assert(fsv.skip(0) =~= fsv);
                }
                while i < n
                    invariant
                        i <= n,
                        n == fields@.len(),
                        fsv == fields_view(fields@),
                        selfv == JsonV::Obj(fsv),
                        fsv.len() == n,
                        forall|k: int|
                            0 <= k < n ==> #[trigger] fsv[k] == (fields@[k].0@, json_view(
                                fields@[k].1,
                            )),
                        obj_get(fsv, key@) == obj_get(fsv.skip(i as int), key@),
                    decreases n - i,
                {
                    if str_eq(fields[i].0.as_str(), key) {
                        assert(obj_get(fsv.skip(i as int), key@) == Some(fsv[i as int].1));
                        let pair = fields.remove(i);
                        return Some(pair.1);
                    }
                    proof {
                        assert(fsv.skip(i as int).skip(1) =~= fsv.skip(i + 1));
                    }
                    i += 1;
                }
                assert(fsv.skip(n as int) =~= Seq::<(Seq<char>, JsonV)>::empty());
                None
            },
            _ => None,
        }
    }

    /// The characters of a string value.
    pub fn as_str<'a>(&'a self) -> (r: Option<&'a str>)
        ensures
            match r {
                Some(s) => self@ == JsonV::Str(s@),
                None => !(self@ is Str),
            },
    {
        match self {
            Json::Str(s) => Some(s.as_str()),
            _ => None,
        }
    }

    /// The value of an unsigned integer token, as the remote documents are
    /// read: `None` for any other value, any non-integer token, and any
    /// integer too large for `u64`.
    pub fn as_u64(&self) -> (r: Option<u64>)
        ensures
            r == as_u64_spec(self@),
    {
        match self {
            Json::Num(t) => parse_u64(t.as_str()),
            _ => None,
        }
    }

    pub fn as_bool(&self) -> (r: Option<bool>)
        ensures
            match r {
                Some(b) => self@ == JsonV::Bool(b),
                None => !(self@ is Bool),
            },
    {
        match self {
            Json::Bool(b) => Some(*b),
            _ => None,
        }
    }

    pub fn as_array<'a>(&'a self) -> (r: Option<&'a Vec<Json>>)
        ensures
            match r {
                Some(v) => self@ is Arr && self@->Arr_0.len() == v@.len() && forall|i: int|
                    0 <= i < v@.len() ==> self@->Arr_0[i] == json_view(#[trigger] v@[i]),
                None => !(self@ is Arr),
            },
    {
        match self {
            Json::Arr(elems) => {
                proof {
                    lemma_elems_view(elems@);
                }
                Some(elems)
            },
            _ => None,
        }
    }

    /// A JSON number holding an unsigned integer.
    pub fn of_u64(n: u64) -> (r: Json)
        ensures
            r@ == JsonV::Num(dec_spec(n as nat)),
    {
        Json::Num(crate::text::u64_to_string(n))
    }

    /// A JSON string holding a copy of `s`.
    pub fn of_str(s: &str) -> (r: Json)
        ensures
            r@ == JsonV::Str(s@),
    {
        Json::Str(s.to_owned())
    }

    /// A structurally equal copy of the document.
    pub fn duplicate(&self) -> (r: Json)
        ensures
            r@ == self@,
        decreases *self,
    {
        broadcast use lemma_elems_view, lemma_fields_view;

        match self {
            Json::Null => Json::Null,
            Json::Bool(b) => Json::Bool(*b),
            Json::Num(t) => Json::Num(t.clone()),
            Json::Str(s) => Json::Str(s.clone()),
            Json::Arr(elems) => {
                let n = elems.len();
                let mut out: Vec<Json> = Vec::new();
                let mut i: usize = 0;
                while i < n
                    invariant
                        i <= n,
                        n == elems@.len(),
                        out@.len() == i,
                        forall|k: int|
                            0 <= k < i ==> json_view(#[trigger] out@[k]) == json_view(elems@[k]),
                    decreases n - i,
                {
                    proof {
                        assert(decreases_to!(*self => *elems));
                        assert(decreases_to!(*elems => elems@[i as int]));
                    }
                    let e = elems[i].duplicate();
                    out.push(e);
                    i += 1;
                }
                let r = Json::Arr(out);
                proof {
                    lemma_elems_view(out@);
                    lemma_elems_view(elems@);
                    assert(r@->Arr_0 == elems_view(out@));
                    assert(self@->Arr_0 == elems_view(elems@));
                    assert(elems_view(out@) =~= elems_view(elems@));
                }
                r
            },
            Json::Obj(fields) => {
                let n = fields.len();
                let mut out: Vec<(String, Json)> = Vec::new();
                let mut i: usize = 0;
                while i < n
                    invariant
                        i <= n,
                        n == fields@.len(),
                        out@.len() == i,
                        forall|k: int|
                            0 <= k < i ==> (#[trigger] out@[k]).0@ == fields@[k].0@ && json_view(
                                out@[k].1,
                            ) == json_view(fields@[k].1),
                    decreases n - i,
                {
                    proof {
                        assert(decreases_to!(*self => *fields));
                        assert(decreases_to!(*fields => fields@[i as int]));
                    }
                    let key = fields[i].0.clone();
                    let v = fields[i].1.duplicate();
                    out.push((key, v));
                    i += 1;
                }
                let r = Json::Obj(out);
                proof {
                    lemma_fields_view(out@);
                    lemma_fields_view(fields@);
                    assert(r@->Obj_0 =~= self@->Obj_0);
                }
                r
            },
        }
    }
}

// --- pretty printing ---

pub open spec fn hex_char(d: int) -> char {
    if d < 10 {
        crate::text::digit_char(d)
    } else if d == 10 {
        'a'
    } else if d == 11 {
        'b'
    } else if d == 12 {
        'c'
    } else if d == 13 {
        'd'
    } else if d == 14 {
        'e'
    } else {
        'f'
    }
}

/// How one character is written inside a JSON string literal.
pub open spec fn esc_char(c: char) -> Seq<char> {
    if c == '"' {
        seq!['\\', '"']
    } else if c == '\\' {
        seq!['\\', '\\']
    } else if c == '\u{8}' {
        seq!['\\', 'b']
    } else if c == '\t' {
        seq!['\\', 't']
    } else if c == '\n' {
        seq!['\\', 'n']
    } else if c == '\u{c}' {
        seq!['\\', 'f']
    } else if c == '\r' {
        seq!['\\', 'r']
    } else if (c as int) < 32 {
        seq!['\\', 'u', '0', '0', hex_char(c as int / 16), hex_char(c as int % 16)]
    } else {
        seq![c]
    }
}

/// The escaped body of a JSON string literal.
pub open spec fn escape_spec(s: Seq<char>) -> Seq<char>
    decreases s.len(),
{
    if s.len() == 0 {
        Seq::empty()
    } else {
        escape_spec(s.drop_last()) + esc_char(s.last())
    }
}

/// `n` spaces.
pub open spec fn spaces(n: nat) -> Seq<char> {
    Seq::new(n, |i: int| ' ')
}

/// The lines of a pretty-printed array body, each indented by `ind`.
pub open spec fn arr_body(elems: Seq<JsonV>, ind: nat) -> Seq<char>
    decreases elems,
{
    if elems.len() == 0 {
        Seq::empty()
    } else {
        spaces(ind) + json_pretty(elems[0], ind) + (if elems.len() == 1 {
            seq!['\n']
        } else {
            seq![',', '\n']
        }) + arr_body(elems.skip(1), ind)
    }
}

/// The lines of a pretty-printed object body, each indented by `ind`.
pub open spec fn obj_body(fields: Seq<(Seq<char>, JsonV)>, ind: nat) -> Seq<char>
    decreases fields,
{
    if fields.len() == 0 {
        Seq::empty()
    } else {
        spaces(ind) + seq!['"'] + escape_spec(fields[0].0) + seq!['"', ':', ' '] + json_pretty(
            fields[0].1,
            ind,
        ) + (if fields.len() == 1 {
            seq!['\n']
        } else {
            seq![',', '\n']
        }) + obj_body(fields.skip(1), ind)
    }
}

/// The pretty-printed text of a document at indent `ind`: two-space
/// indents, one member per line, `": "` between a key and its value.
pub open spec fn json_pretty(j: JsonV, ind: nat) -> Seq<char>
    decreases j,
{
    match j {
        JsonV::Null => seq!['n', 'u', 'l', 'l'],
        JsonV::Bool(b) => if b {
            seq!['t', 'r', 'u', 'e']
        } else {
            seq!['f', 'a', 'l', 's', 'e']
        },
        JsonV::Num(t) => t,
        JsonV::Str(s) => seq!['"'] + escape_spec(s) + seq!['"'],
        JsonV::Arr(elems) => if elems.len() == 0 {
            seq!['[', ']']
        } else {
            seq!['[', '\n'] + arr_body(elems, ind + 2) + spaces(ind) + seq![']']
        },
        JsonV::Obj(fields) => if fields.len() == 0 {
            seq!['{', '}']
        } else {
            seq!['{', '\n'] + obj_body(fields, ind + 2) + spaces(ind) + seq!['}']
        },
    }
}

fn hex_str(d: u32) -> (r: &'static str)
    requires
        d < 16,
    ensures
        r@ =~= seq![hex_char(d as int)],
{
    proof {
        reveal_strlit("a");
        reveal_strlit("b");
        reveal_strlit("c");
        reveal_strlit("d");
        reveal_strlit("e");
        reveal_strlit("f");
    }
    if d < 10 {
        crate::text::digit_str32(d)
    } else if d == 10 {
        "a"
    } else if d == 11 {
        "b"
    } else if d == 12 {
        "c"
    } else if d == 13 {
        "d"
    } else if d == 14 {
        "e"
    } else {
        "f"
    }
}

fn escape_into(s: &str, out: &mut String)
    ensures
        final(out)@ == old(out)@ + escape_spec(s@),
{
    let len = s.unicode_len();
    let mut i: usize = 0;
    proof {
        assert(s@.subrange(0, 0) =~= Seq::<char>::empty());
        assert(old(out)@ + Seq::<char>::empty() =~= old(out)@);
    }
    while i < len
        invariant
            i <= len,
            len == s@.len(),
            out@ == old(out)@ + escape_spec(s@.subrange(0, i as int)),
        decreases len - i,
    {
        let c = s.get_char(i);
        if c == '"' {
            proof {
                reveal_strlit("\\\"");
            }
            out.append("\\\"");
        } else if c == '\\' {
            proof {
                reveal_strlit("\\\\");
            }
            out.append("\\\\");
        } else if c == '\u{8}' {
            proof {
                reveal_strlit("\\b");
            }
            out.append("\\b");
        } else if c == '\t' {
            proof {
                reveal_strlit("\\t");
            }
            out.append("\\t");
        } else if c == '\n' {
            proof {
                reveal_strlit("\\n");
            }
            out.append("\\n");
        } else if c == '\u{c}' {
            proof {
                reveal_strlit("\\f");
            }
            out.append("\\f");
        } else if c == '\r' {
            proof {
                reveal_strlit("\\r");
            }
            out.append("\\r");
        } else if (c as u32) < 32 {
            proof {
                reveal_strlit("\\u00");
            }
            out.append("\\u00");
            let d = c as u32;
            out.append(hex_str(d / 16));
            out.append(hex_str(d % 16));
        } else {
            let piece = s.substring_char(i, i + 1);
            proof {
                assert(piece@ =~= seq![c]);
            }
            out.append(piece);
        }
        proof {
            assert(s@.subrange(0, i + 1).drop_last() =~= s@.subrange(0, i as int));
            assert(s@.subrange(0, i + 1).last() == s@[i as int]);
            assert(out@ =~= old(out)@ + escape_spec(s@.subrange(0, i + 1)));
        }
        i += 1;
    }
    proof {
        assert(s@.subrange(0, len as int) =~= s@);
    }
}

fn spaces_into(n: usize, out: &mut String)
    ensures
        final(out)@ == old(out)@ + spaces(n as nat),
{
    let mut k: usize = 0;
    proof {
        assert(out@ =~= old(out)@ + spaces(0));
    }
    while k < n
        invariant
            k <= n,
            out@ == old(out)@ + spaces(k as nat),
        decreases n - k,
    {
        proof {
            reveal_strlit(" ");
        }
        out.append(" ");
        proof {
            assert(out@ =~= old(out)@ + spaces((k + 1) as nat));
        }
        k += 1;
    }
}

/// Writes the body and closing bracket of a non-empty pretty-printed
/// array: each element on its own line, then the `]` at indent `ind`.
fn arr_into(elems: &Vec<Json>, ind: usize, out: &mut String)
    requires
        elems@.len() > 0,
        ind + 2 + 2 * seq_height(elems_view(elems@)) <= usize::MAX,
    ensures
        final(out)@ == old(out)@ + arr_body(elems_view(elems@), (ind + 2) as nat) + spaces(
            ind as nat,
        ) + seq![']'],
    decreases *elems,
{
    let ghost ev = elems_view(elems@);
    let ghost pre = out@;
    let n = elems.len();
    let ind2 = ind + 2;
    let mut i: usize = 0;
    proof {
        lemma_elems_view(elems@);
        assert(ev.skip(0) =~= ev);
        assert(out@ =~= pre + Seq::<char>::empty());
    }
    while i < n
        invariant
            i <= n,
            n == elems@.len(),
            ev == elems_view(elems@),
            ind2 == ind + 2,
            arr_body(ev, ind2 as nat) == out@.skip(pre.len() as int) + arr_body(
                ev.skip(i as int),
                ind2 as nat,
            ),
            out@.subrange(0, pre.len() as int) == pre,
            out@.len() >= pre.len(),
        decreases n - i,
    {
        let ghost before = out@;
        spaces_into(ind2, out);
        proof {
            assert(decreases_to!(*elems => elems@[i as int]));
            lemma_seq_height_ge(ev, i as int);
        }
        pretty_into(&elems[i], ind2, out);
        if i + 1 < n {
            proof {
                reveal_strlit(",\n");
                assert(",\n"@ =~= seq![',', '\n']);
            }
            out.append(",\n");
            proof {
                assert(out@ =~= before + (spaces(ind2 as nat) + json_pretty(
                    ev[i as int],
                    ind2 as nat,
                ) + seq![',', '\n']));
            }
        } else {
            proof {
                reveal_strlit("\n");
                assert("\n"@ =~= seq!['\n']);
            }
            out.append("\n");
            proof {
                assert(out@ =~= before + (spaces(ind2 as nat) + json_pretty(
                    ev[i as int],
                    ind2 as nat,
                ) + seq!['\n']));
            }
        }
        proof {
            assert(ev.skip(i as int)[0] == ev[i as int]);
            assert(ev.skip(i as int).skip(1) =~= ev.skip(i + 1));
            assert(out@.skip(pre.len() as int) =~= before.skip(pre.len() as int) + (out@.skip(
                before.len() as int,
            )));
            assert(out@.subrange(0, pre.len() as int) =~= before.subrange(0, pre.len() as int));
            assert(arr_body(ev, ind2 as nat) =~= out@.skip(pre.len() as int) + arr_body(
                ev.skip(i + 1),
                ind2 as nat,
            ));
        }
        i += 1;
    }
    proof {
        assert(ev.skip(n as int) =~= Seq::<JsonV>::empty());
        assert(arr_body(Seq::<JsonV>::empty(), ind2 as nat) =~= Seq::<char>::empty());
        assert(arr_body(ev, ind2 as nat) =~= out@.skip(pre.len() as int));
        assert(out@ =~= out@.subrange(0, pre.len() as int) + out@.skip(pre.len() as int));
        assert(out@ =~= pre + arr_body(ev, ind2 as nat));
    }
    spaces_into(ind, out);
    proof {
        reveal_strlit("]");
        assert("]"@ =~= seq![']']);
    }
    out.append("]");
    proof {
        assert(out@ =~= pre + arr_body(ev, ind2 as nat) + spaces(ind as nat) + seq![']']);
    }
}

/// Writes the body and closing brace of a non-empty pretty-printed
/// object: each field on its own line, then the `}` at indent `ind`.
fn obj_into(fields: &Vec<(String, Json)>, ind: usize, out: &mut String)
    requires
        fields@.len() > 0,
        ind + 2 + 2 * fields_height(fields_view(fields@)) <= usize::MAX,
    ensures
        final(out)@ == old(out)@ + obj_body(fields_view(fields@), (ind + 2) as nat) + spaces(
            ind as nat,
        ) + seq!['}'],
    decreases *fields,
{
    let ghost fv = fields_view(fields@);
    let ghost pre = out@;
    let n = fields.len();
    let ind2 = ind + 2;
    let mut i: usize = 0;
    proof {
        lemma_fields_view(fields@);
        assert(fv.skip(0) =~= fv);
        assert(out@ =~= pre + Seq::<char>::empty());
    }
    while i < n
        invariant
            i <= n,
            n == fields@.len(),
            fv == fields_view(fields@),
            ind2 == ind + 2,
            obj_body(fv, ind2 as nat) == out@.skip(pre.len() as int) + obj_body(
                fv.skip(i as int),
                ind2 as nat,
            ),
            out@.subrange(0, pre.len() as int) == pre,
            out@.len() >= pre.len(),
        decreases n - i,
    {
        let ghost before = out@;
        spaces_into(ind2, out);
        proof {
            reveal_strlit("\"");
        }
        out.append("\"");
        escape_into(fields[i].0.as_str(), out);
        proof {
            reveal_strlit("\": ");
            assert("\": "@ =~= seq!['"', ':', ' ']);
        }
        out.append("\": ");
        proof {
            assert(decreases_to!(*fields => fields@[i as int]));
            lemma_fields_height_ge(fv, i as int);
        }
        pretty_into(&fields[i].1, ind2, out);
        if i + 1 < n {
            proof {
                reveal_strlit(",\n");
                assert(",\n"@ =~= seq![',', '\n']);
            }
            out.append(",\n");
            proof {
                assert(out@ =~= before + (spaces(ind2 as nat) + seq!['"'] + escape_spec(
                    fv[i as int].0,
                ) + seq!['"', ':', ' '] + json_pretty(fv[i as int].1, ind2 as nat) + seq![
                    ',',
                    '\n',
                ]));
            }
        } else {
            proof {
                reveal_strlit("\n");
                assert("\n"@ =~= seq!['\n']);
            }
            out.append("\n");
            proof {
                assert(out@ =~= before + (spaces(ind2 as nat) + seq!['"'] + escape_spec(
                    fv[i as int].0,
                ) + seq!['"', ':', ' '] + json_pretty(fv[i as int].1, ind2 as nat) + seq!['\n']));
            }
        }
        proof {
            assert(fv.skip(i as int)[0] == fv[i as int]);
            assert(fv.skip(i as int).skip(1) =~= fv.skip(i + 1));
            assert(out@.skip(pre.len() as int) =~= before.skip(pre.len() as int) + (out@.skip(
                before.len() as int,
            )));
            assert(out@.subrange(0, pre.len() as int) =~= before.subrange(0, pre.len() as int));
            assert(obj_body(fv, ind2 as nat) =~= out@.skip(pre.len() as int) + obj_body(
                fv.skip(i + 1),
                ind2 as nat,
            ));
        }
        i += 1;
    }
    proof {
        assert(fv.skip(n as int) =~= Seq::<(Seq<char>, JsonV)>::empty());
        assert(obj_body(Seq::<(Seq<char>, JsonV)>::empty(), ind2 as nat) =~= Seq::<char>::empty());
        assert(obj_body(fv, ind2 as nat) =~= out@.skip(pre.len() as int));
        assert(out@ =~= out@.subrange(0, pre.len() as int) + out@.skip(pre.len() as int));
        assert(out@ =~= pre + obj_body(fv, ind2 as nat));
    }
    spaces_into(ind, out);
    proof {
        reveal_strlit("}");
        assert("}"@ =~= seq!['}']);
    }
    out.append("}");
    proof {
        assert(out@ =~= pre + obj_body(fv, ind2 as nat) + spaces(ind as nat) + seq!['}']);
    }
}

/// Writes the pretty-printed text of `j` at indent `ind` onto `out`.
pub fn pretty_into(j: &Json, ind: usize, out: &mut String)
    requires
        ind + 2 * json_height(j@) <= usize::MAX,
    ensures
        final(out)@ == old(out)@ + json_pretty(j@, ind as nat),
    decreases *j,
{
    match j {
        Json::Null => {
            proof {
                reveal_strlit("null");
                assert("null"@ =~= seq!['n', 'u', 'l', 'l']);
            }
            out.append("null");
        },
        Json::Bool(b) => {
            if *b {
                proof {
                    reveal_strlit("true");
                    assert("true"@ =~= seq!['t', 'r', 'u', 'e']);
                }
                out.append("true");
            } else {
                proof {
                    reveal_strlit("false");
                    assert("false"@ =~= seq!['f', 'a', 'l', 's', 'e']);
                }
                out.append("false");
            }
        },
        Json::Num(t) => {
            out.append(t.as_str());
        },
        Json::Str(s) => {
            proof {
                reveal_strlit("\"");
            }
            out.append("\"");
            escape_into(s.as_str(), out);
            out.append("\"");
            proof {
                assert(out@ =~= old(out)@ + json_pretty(j@, ind as nat));
            }
        },
        Json::Arr(elems) => {
            if elems.len() == 0 {
                proof {
                    reveal_strlit("[]");
                    assert("[]"@ =~= seq!['[', ']']);
                }
                out.append("[]");
            } else {
                proof {
                    reveal_strlit("[\n");
                    assert("[\n"@ =~= seq!['[', '\n']);
                }
                out.append("[\n");
                proof {
                    assert(decreases_to!(*j => *elems));
                }
                arr_into(elems, ind, out);
                proof {
                    assert(out@ =~= old(out)@ + json_pretty(j@, ind as nat));
                }
            }
        },
        Json::Obj(fields) => {
            if fields.len() == 0 {
                proof {
                    reveal_strlit("{}");
                    assert("{}"@ =~= seq!['{', '}']);
                }
                out.append("{}");
            } else {
                proof {
                    reveal_strlit("{\n");
                    assert("{\n"@ =~= seq!['{', '\n']);
                }
                out.append("{\n");
                proof {
                    assert(decreases_to!(*j => *fields));
                }
                obj_into(fields, ind, out);
                proof {
                    assert(out@ =~= old(out)@ + json_pretty(j@, ind as nat));
                }
            }
        },
    }
}

// --- parsing, through serde_json ---

#[verifier::external_type_specification]
#[verifier::external_body]
pub struct ExValue(serde_json::Value);

/// The document that `serde_json` parses from a text, carried over into
/// this crate's document type; `None` where `serde_json` reports an error.
pub uninterp spec fn json_parse_of(s: Seq<char>) -> Option<JsonV>;

/// Carries a parsed `serde_json::Value` over, one variant to one variant.
/// Number tokens are taken from serde_json's own rendering of the number.
#[verifier::external_body]
fn json_of_value(v: &serde_json::Value) -> Json {
    match v {
        serde_json::Value::Null => Json::Null,
        serde_json::Value::Bool(b) => Json::Bool(*b),
        serde_json::Value::Number(n) => Json::Num(n.to_string()),
        serde_json::Value::String(s) => Json::Str(s.clone()),
        serde_json::Value::Array(a) => Json::Arr(a.iter().map(json_of_value).collect()),
        serde_json::Value::Object(m) => Json::Obj(
            m.iter().map(|(k, x)| (k.clone(), json_of_value(x))).collect(),
        ),
    }
}

/// Relies on `serde_json::from_str`: parses a JSON text, or reports
/// serde_json's error message. What is parsed depends on the text alone;
/// serde_json renders number tokens in JSON number form, and refuses
/// documents nested deeper than its recursion limit of 128.
#[verifier::external_body]
pub(crate) fn parse_json(s: &str) -> (r: Result<Json, String>)
    ensures
        (r is Ok) == (json_parse_of(s@) is Some),
        r matches Ok(j) ==> Some(j@) == json_parse_of(s@) && json_wf(j@) && json_height(j@)
            <= 128,
{
    match serde_json::from_str::<serde_json::Value>(s) {
        Ok(v) => Ok(json_of_value(&v)),
        Err(e) => Err(e.to_string()),
    }
}

/// The pretty-printed text of a document.
pub fn pretty(j: &Json) -> (r: String)
    requires
        2 * json_height(j@) <= usize::MAX,
    ensures
        r@ == json_pretty(j@, 0),
{
    let mut out = String::new();
    pretty_into(j, 0, &mut out);
    out
}

} // verus!
