//! An in-memory JSON document, its mathematical model, and a serializer.
//!
//! Numbers are kept as their unparsed lexemes: the library never computes
//! with a JSON number, it only carries them through, and this keeps the
//! model free of floating point.

use vstd::prelude::*;

use crate::text::push_char;

verus! {

broadcast use
    vstd::seq::axiom_seq_index_decreases,
    vstd::std_specs::vec::axiom_vec_decreases_to_view,
    vstd::std_specs::vec::axiom_spec_len,
;

/// A JSON value.
pub enum Json {
    Null,
    Bool(bool),
    /// A number, kept as its lexeme exactly as it was written.
    Num(String),
    Str(String),
    Arr(Vec<Json>),
    Obj(Vec<(String, Json)>),
}

/// The mathematical model of a JSON value.
pub enum JsonV {
    Null,
    Bool(bool),
    Num(Seq<char>),
    Str(Seq<char>),
    Arr(Seq<JsonV>),
    Obj(Seq<(Seq<char>, JsonV)>),
}

/// The model of a `Json` value.
pub open spec fn view_json(j: Json) -> JsonV
    decreases j, 1int,
{
    match j {
        Json::Null => JsonV::Null,
        Json::Bool(b) => JsonV::Bool(b),
        Json::Num(s) => JsonV::Num(s@),
        Json::Str(s) => JsonV::Str(s@),
        Json::Arr(items) => {
            proof {
                assert(decreases_to!(j => items));
                assert(decreases_to!(items => items@));
            }
            JsonV::Arr(view_jsons(items@))
        },
        Json::Obj(fields) => {
            proof {
                assert(decreases_to!(j => fields));
                assert(decreases_to!(fields => fields@));
            }
            JsonV::Obj(view_json_fields(fields@))
        },
    }
}

/// The models of a sequence of `Json` values.
pub open spec fn view_jsons(v: Seq<Json>) -> Seq<JsonV>
    decreases v, 0int,
{
    if v.len() == 0 {
        Seq::empty()
    } else {
        proof {
            assert(decreases_to!(v => v[0]));
            assert(v.drop_first() == v.subrange(1, v.len() as int));
            assert(decreases_to!(v => v.subrange(1, v.len() as int)));
        }
        seq![view_json(v[0])] + view_jsons(v.drop_first())
    }
}

/// The models of a sequence of object fields.
pub open spec fn view_json_fields(v: Seq<(String, Json)>) -> Seq<(Seq<char>, JsonV)>
    decreases v, 0int,
{
    if v.len() == 0 {
        Seq::empty()
    } else {
        proof {
            assert(decreases_to!(v => v[0]));
            assert(decreases_to!(v[0] => v[0].1));
            assert(v.drop_first() == v.subrange(1, v.len() as int));
            assert(decreases_to!(v => v.subrange(1, v.len() as int)));
        }
        seq![(v[0].0@, view_json(v[0].1))] + view_json_fields(v.drop_first())
    }
}

pub proof fn lemma_view_jsons_push(v: Seq<Json>, j: Json)
    ensures
        view_jsons(v.push(j)) == view_jsons(v).push(view_json(j)),
    decreases v.len(),
{
    assert(v.push(j)[0] == if v.len() == 0 {
        j
    } else {
        v[0]
    });
    if v.len() == 0 {
        assert(v.push(j).drop_first() =~= Seq::<Json>::empty());
        assert(view_jsons(Seq::<Json>::empty()) == Seq::<JsonV>::empty());
        assert(view_jsons(v.push(j)) =~= view_jsons(v).push(view_json(j)));
    } else {
        assert(v.push(j).drop_first() =~= v.drop_first().push(j));
        lemma_view_jsons_push(v.drop_first(), j);
        assert(view_jsons(v.push(j)) =~= view_jsons(v).push(view_json(j)));
    }
}

pub proof fn lemma_view_json_fields_push(v: Seq<(String, Json)>, f: (String, Json))
    ensures
        view_json_fields(v.push(f)) == view_json_fields(v).push((f.0@, view_json(f.1))),
    decreases v.len(),
{
    assert(v.push(f)[0] == if v.len() == 0 {
        f
    } else {
        v[0]
    });
    if v.len() == 0 {
        assert(v.push(f).drop_first() =~= Seq::<(String, Json)>::empty());
        assert(view_json_fields(Seq::<(String, Json)>::empty()) == Seq::<(Seq<char>, JsonV)>::empty());
        assert(view_json_fields(v.push(f)) =~= view_json_fields(v).push((f.0@, view_json(f.1))));
    } else {
        assert(v.push(f).drop_first() =~= v.drop_first().push(f));
        lemma_view_json_fields_push(v.drop_first(), f);
        assert(view_json_fields(v.push(f)) =~= view_json_fields(v).push((f.0@, view_json(f.1))));
    }
}

pub proof fn lemma_view_jsons(v: Seq<Json>)
    ensures
        view_jsons(v).len() == v.len(),
        forall|k: int| 0 <= k < v.len() ==> view_jsons(v)[k] == view_json(v[k]),
    decreases v.len(),
{
    if v.len() > 0 {
        lemma_view_jsons(v.drop_first());
    }
}

pub proof fn lemma_view_json_fields(v: Seq<(String, Json)>)
    ensures
        view_json_fields(v).len() == v.len(),
        forall|k: int|
            0 <= k < v.len() ==> view_json_fields(v)[k] == (v[k].0@, view_json(v[k].1)),
    decreases v.len(),
{
    if v.len() > 0 {
        lemma_view_json_fields(v.drop_first());
    }
}

/// The hexadecimal digit for a value below sixteen, lower case.
pub open spec fn hex_digit(v: int) -> char
    recommends
        0 <= v < 16,
{
    if v < 10 {
        (v + 0x30) as char
    } else {
        (v + 0x57) as char
    }
}

/// How one character appears inside a JSON string literal.
pub open spec fn escape_char(c: char) -> Seq<char> {
    if c == '"' {
        seq!['\\', '"']
    } else if c == '\\' {
        seq!['\\', '\\']
    } else if c == '\u{8}' {
        seq!['\\', 'b']
    } else if c == '\u{c}' {
        seq!['\\', 'f']
    } else if c == '\n' {
        seq!['\\', 'n']
    } else if c == '\r' {
        seq!['\\', 'r']
    } else if c == '\t' {
        seq!['\\', 't']
    } else if (c as u32) < 0x20 {
        seq!['\\', 'u', '0', '0', hex_digit((c as u32) as int / 16), hex_digit((c as u32) as int % 16)]
    } else {
        seq![c]
    }
}

/// How a character sequence appears inside a JSON string literal.
pub open spec fn escape(s: Seq<char>) -> Seq<char>
    decreases s.len(),
{
    if s.len() == 0 {
        Seq::empty()
    } else {
        escape_char(s[0]) + escape(s.drop_first())
    }
}

pub proof fn lemma_escape_snoc(s: Seq<char>, c: char)
    ensures
        escape(s.push(c)) == escape(s) + escape_char(c),
    decreases s.len(),
{
    assert(s.push(c)[0] == if s.len() == 0 {
        c
    } else {
        s[0]
    });
    if s.len() == 0 {
        assert(s.push(c).drop_first() =~= Seq::<char>::empty());
        assert(escape(Seq::<char>::empty()) == Seq::<char>::empty());
        assert(escape(s.push(c)) == escape_char(c) + escape(s.push(c).drop_first()));
        assert(escape(s.push(c)) =~= escape(s) + escape_char(c));
    } else {
        assert(s.push(c).drop_first() =~= s.drop_first().push(c));
        lemma_escape_snoc(s.drop_first(), c);
        assert(escape(s.push(c)) == escape_char(s[0]) + escape(s.push(c).drop_first()));
        assert(escape(s) == escape_char(s[0]) + escape(s.drop_first()));
        assert(escape(s.push(c)) =~= escape(s) + escape_char(c));
    }
}

/// The canonical rendering of a JSON value: no whitespace, keys in the
/// order they are held, strings escaped by [`escape`].
pub open spec fn ser(j: JsonV) -> Seq<char>
    decreases j,
{
    match j {
        JsonV::Null => "null"@,
        JsonV::Bool(b) => if b {
            "true"@
        } else {
            "false"@
        },
        JsonV::Num(s) => s,
        JsonV::Str(s) => seq!['"'] + escape(s) + seq!['"'],
        JsonV::Arr(items) => seq!['['] + ser_items(items) + seq![']'],
        JsonV::Obj(fields) => seq!['{'] + ser_fields(fields) + seq!['}'],
    }
}

/// The rendering of array elements, comma separated.
pub open spec fn ser_items(items: Seq<JsonV>) -> Seq<char>
    decreases items,
{
    if items.len() == 0 {
        Seq::empty()
    } else if items.len() == 1 {
        ser(items[0])
    } else {
        ser(items[0]) + seq![','] + ser_items(items.drop_first())
    }
}

/// The rendering of object fields, comma separated.
pub open spec fn ser_fields(fields: Seq<(Seq<char>, JsonV)>) -> Seq<char>
    decreases fields,
{
    if fields.len() == 0 {
        Seq::empty()
    } else {
        let head = seq!['"'] + escape(fields[0].0) + seq!['"', ':'] + ser(fields[0].1);
        if fields.len() == 1 {
            head
        } else {
            head + seq![','] + ser_fields(fields.drop_first())
        }
    }
}

fn hex_digit_x(v: u32) -> (c: char)
    requires
        v < 16,
    ensures
        c == hex_digit(v as int),
{
    if v < 10 {
        ((v + 0x30) as u8) as char
    } else {
        ((v + 0x57) as u8) as char
    }
}

/// Appends the escaped form of `s` to `out`.
fn escape_into(s: &str, out: &mut String)
    ensures
        final(out)@ == old(out)@ + escape(s@),
{
    let n = s.unicode_len();
    let mut i: usize = 0;
    proof {
        assert(s@.subrange(0, 0) =~= Seq::<char>::empty());
        assert(escape(s@.subrange(0, 0)) =~= Seq::<char>::empty());
        assert(out@ =~= old(out)@ + escape(s@.subrange(0, 0)));
    }
    while i < n
        invariant
            n == s@.len(),
            i <= n,
            out@ == old(out)@ + escape(s@.subrange(0, i as int)),
        decreases n - i,
    {
        let c = s.get_char(i);
        if c == '"' {
            out.append("\\\"");
            proof {
                reveal_strlit("\\\"");
                assert("\\\""@ =~= escape_char(c));
            }
        } else if c == '\\' {
            out.append("\\\\");
            proof {
                reveal_strlit("\\\\");
                assert("\\\\"@ =~= escape_char(c));
            }
        } else if c == '\u{8}' {
            out.append("\\b");
            proof {
                reveal_strlit("\\b");
                assert("\\b"@ =~= escape_char(c));
            }
        } else if c == '\u{c}' {
            out.append("\\f");
            proof {
                reveal_strlit("\\f");
                assert("\\f"@ =~= escape_char(c));
            }
        } else if c == '\n' {
            out.append("\\n");
            proof {
                reveal_strlit("\\n");
                assert("\\n"@ =~= escape_char(c));
            }
        } else if c == '\r' {
            out.append("\\r");
            proof {
                reveal_strlit("\\r");
                assert("\\r"@ =~= escape_char(c));
            }
        } else if c == '\t' {
            out.append("\\t");
            proof {
                reveal_strlit("\\t");
                assert("\\t"@ =~= escape_char(c));
            }
        } else if (c as u32) < 0x20 {
            out.append("\\u00");
            push_char(out, hex_digit_x((c as u32) / 16));
            push_char(out, hex_digit_x((c as u32) % 16));
            proof {
                reveal_strlit("\\u00");
                assert("\\u00"@.push(hex_digit((c as u32) as int / 16)).push(
                    hex_digit((c as u32) as int % 16),
                ) =~= escape_char(c));
            }
        } else {
            push_char(out, c);
            proof {
                assert(seq![c] =~= escape_char(c));
            }
        }
        proof {
            assert(s@.subrange(0, i as int).push(s@[i as int]) =~= s@.subrange(0, i + 1 as int));
            lemma_escape_snoc(s@.subrange(0, i as int), s@[i as int]);
            assert(out@ =~= old(out)@ + escape(s@.subrange(0, i + 1 as int)));
        }
        i = i + 1;
    }
    proof {
        assert(s@.subrange(0, n as int) =~= s@);
    }
}

/// Appends the rendering of `j` to `out`.
fn ser_into(j: &Json, out: &mut String)
    ensures
        final(out)@ == old(out)@ + ser(view_json(*j)),
    decreases *j, 0int,
{
    match j {
        Json::Null => {
            out.append("null");
        },
        Json::Bool(b) => {
            if *b {
                out.append("true");
            } else {
                out.append("false");
            }
        },
        Json::Num(s) => {
            out.append(s.as_str());
        },
        Json::Str(s) => {
            out.append("\"");
            escape_into(s.as_str(), out);
            out.append("\"");
            proof {
                reveal_strlit("\"");
                assert(old(out)@ + "\""@ + escape(s@) + "\""@ =~= old(out)@ + ser(
                    view_json(Json::Str(*s)),
                ));
            }
        },
        Json::Arr(items) => {
            out.append("[");
            if items.len() > 0 {
                ser_items_into(items, 0, out);
            }
            out.append("]");
            proof {
                reveal_strlit("[");
                reveal_strlit("]");
                lemma_view_jsons(items@);
                if items@.len() > 0 {
                    assert(view_jsons(items@).subrange(0, items@.len() as int) =~= view_jsons(
                        items@,
                    ));
                }
                assert(final(out)@ =~= old(out)@ + ser(view_json(*j)));
            }
        },
        Json::Obj(fields) => {
            out.append("{");
            if fields.len() > 0 {
                ser_fields_into(fields, 0, out);
            }
            out.append("}");
            proof {
                reveal_strlit("{");
                reveal_strlit("}");
                lemma_view_json_fields(fields@);
                if fields@.len() > 0 {
                    assert(view_json_fields(fields@).subrange(0, fields@.len() as int)
                        =~= view_json_fields(fields@));
                }
                assert(final(out)@ =~= old(out)@ + ser(view_json(*j)));
            }
        },
    }
    proof {
        match j {
            Json::Null => {
                reveal_strlit("null");
                assert(final(out)@ =~= old(out)@ + ser(view_json(*j)));
            },
            Json::Bool(b) => {
                reveal_strlit("true");
                reveal_strlit("false");
                assert(final(out)@ =~= old(out)@ + ser(view_json(*j)));
            },
            _ => {},
        }
    }
}

/// Appends the renderings of `items[start..]`, comma separated, to `out`.
fn ser_items_into(items: &Vec<Json>, start: usize, out: &mut String)
    requires
        start < items@.len(),
    ensures
        final(out)@ == old(out)@ + ser_items(
            view_jsons(items@).subrange(start as int, items@.len() as int),
        ),
    decreases *items, items@.len() - start,
{
    let ghost tail = view_jsons(items@).subrange(start as int, items@.len() as int);
    proof {
        lemma_view_jsons(items@);
    }
    ser_into(&items[start], out);
    proof {
        assert(tail[0] == view_json(items@[start as int]));
    }
    if start < items.len() - 1 {
        out.append(",");
        ser_items_into(items, start + 1, out);
        proof {
            reveal_strlit(",");
            assert(tail.drop_first() =~= view_jsons(items@).subrange(
                start + 1 as int,
                items@.len() as int,
            ));
            assert(final(out)@ =~= old(out)@ + ser_items(tail));
        }
    } else {
        proof {
            assert(tail.len() == 1);
            assert(final(out)@ =~= old(out)@ + ser_items(tail));
        }
    }
}

/// Appends the renderings of `fields[start..]`, comma separated, to `out`.
fn ser_fields_into(fields: &Vec<(String, Json)>, start: usize, out: &mut String)
    requires
        start < fields@.len(),
    ensures
        final(out)@ == old(out)@ + ser_fields(
            view_json_fields(fields@).subrange(start as int, fields@.len() as int),
        ),
    decreases *fields, fields@.len() - start,
{
    let ghost tail = view_json_fields(fields@).subrange(start as int, fields@.len() as int);
    proof {
        lemma_view_json_fields(fields@);
    }
    out.append("\"");
    escape_into(fields[start].0.as_str(), out);
    out.append("\":");
    ser_into(&fields[start].1, out);
    proof {
        reveal_strlit("\"");
        reveal_strlit("\":");
        assert(tail[0] == (fields@[start as int].0@, view_json(fields@[start as int].1)));
        assert("\""@ + escape(fields@[start as int].0@) + "\":"@ + ser(tail[0].1) =~= seq!['"']
            + escape(tail[0].0) + seq!['"', ':'] + ser(tail[0].1));
    }
    if start < fields.len() - 1 {
        out.append(",");
        ser_fields_into(fields, start + 1, out);
        proof {
            reveal_strlit(",");
            assert(tail.drop_first() =~= view_json_fields(fields@).subrange(
                start + 1 as int,
                fields@.len() as int,
            ));
            assert(final(out)@ =~= old(out)@ + ser_fields(tail));
        }
    } else {
        proof {
            assert(tail.len() == 1);
            assert(final(out)@ =~= old(out)@ + ser_fields(tail));
        }
    }
}

impl Json {
    /// Renders the value as by [`ser`].
    pub fn to_json_string(&self) -> (r: String)
        ensures
            r@ == ser(view_json(*self)),
    {
        let mut out = String::new();
        ser_into(self, &mut out);
        out
    }
}

} // verus!
