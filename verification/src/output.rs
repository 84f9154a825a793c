//! The tagged output model: every value the tool presents is a small tree of
//! scalars, arrays and objects, with one renderer per output mode — JSON
//! text, or indented human-readable text.

use vstd::prelude::*;

use crate::codec::render_string_into;
use crate::codec::render_string_spec;
use crate::store::Credentials;

verus! {

/// One output value.
pub enum OutValue {
    /// Nothing; rendered as `null` in JSON and as empty text.
    Null,
    /// A boolean.
    Truth(bool),
    /// A text.
    Text(String),
    /// An array of values.
    List(Vec<OutValue>),
    /// An object: named fields in order.
    Object(Vec<(String, OutValue)>),
}

/// The depth of an output value.
pub open spec fn depth(v: OutValue) -> nat
    decreases v,
{
    match v {
        OutValue::Null => 0,
        OutValue::Truth(_) => 0,
        OutValue::Text(_) => 0,
        OutValue::List(xs) => 1 + depth_list(xs@),
        OutValue::Object(fs) => 1 + depth_fields(fs@),
    }
}

/// The largest depth among the values of a list.
pub open spec fn depth_list(xs: Seq<OutValue>) -> nat
    decreases xs,
{
    if xs.len() == 0 {
        0
    } else {
        let d0 = depth(xs[0]);
        let dr = depth_list(xs.drop_first());
        if d0 > dr {
            d0
        } else {
            dr
        }
    }
}

/// The largest depth among the values of an object's fields.
pub open spec fn depth_fields(fs: Seq<(String, OutValue)>) -> nat
    decreases fs,
{
    if fs.len() == 0 {
        0
    } else {
        let d0 = depth(fs[0].1);
        let dr = depth_fields(fs.drop_first());
        if d0 > dr {
            d0
        } else {
            dr
        }
    }
}

/// Every value of a list lies within the list's depth.
proof fn lemma_depth_list_bound(xs: Seq<OutValue>, i: int)
    requires
        0 <= i < xs.len(),
    ensures
        depth(xs[i]) <= depth_list(xs),
    decreases xs.len(),
{
    if i > 0 {
        lemma_depth_list_bound(xs.drop_first(), i - 1);
    }
}

/// Every field value of an object lies within the object's depth.
proof fn lemma_depth_fields_bound(fs: Seq<(String, OutValue)>, i: int)
    requires
        0 <= i < fs.len(),
    ensures
        depth(fs[i].1) <= depth_fields(fs),
    decreases fs.len(),
{
    if i > 0 {
        lemma_depth_fields_bound(fs.drop_first(), i - 1);
    }
}

// ---------------------------------------------------------------------------
// JSON mode.
// ---------------------------------------------------------------------------
/// The JSON rendering of a value.
pub open spec fn json_of(v: OutValue) -> Seq<char>
    decreases v,
{
    match v {
        OutValue::Null => "null"@,
        OutValue::Truth(b) => if b {
            "true"@
        } else {
            "false"@
        },
        OutValue::Text(s) => render_string_spec(s@),
        OutValue::List(xs) => seq!['['] + json_of_list(xs@) + seq![']'],
        OutValue::Object(fs) => seq!['{'] + json_of_fields(fs@) + seq!['}'],
    }
}

/// The JSON rendering of list items, separated by commas.
pub open spec fn json_of_list(xs: Seq<OutValue>) -> Seq<char>
    decreases xs,
{
    if xs.len() == 0 {
        Seq::empty()
    } else if xs.len() == 1 {
        json_of(xs[0])
    } else {
        json_of(xs[0]) + seq![','] + json_of_list(xs.drop_first())
    }
}

/// The JSON rendering of object fields, separated by commas.
pub open spec fn json_of_fields(fs: Seq<(String, OutValue)>) -> Seq<char>
    decreases fs,
{
    if fs.len() == 0 {
        Seq::empty()
    } else {
        let one = render_string_spec(fs[0].0@) + seq![':'] + json_of(fs[0].1);
        if fs.len() == 1 {
            one
        } else {
            one + seq![','] + json_of_fields(fs.drop_first())
        }
    }
}

/// Appends the JSON rendering of a value.
pub fn render_json_into(out: &mut Vec<char>, v: &OutValue)
    ensures
        final(out)@ == old(out)@ + json_of(*v),
    decreases depth(*v), 1int, 0int,
{
    match v {
        OutValue::Null => crate::codec::push_lit(out, "null"),
        OutValue::Truth(b) => {
            if *b {
                crate::codec::push_lit(out, "true");
            } else {
                crate::codec::push_lit(out, "false");
            }
        },
        OutValue::Text(s) => render_string_into(out, s.as_str()),
        OutValue::List(xs) => {
            out.push('[');
            if xs.len() > 0 {
                render_json_items(out, xs, 0);
                proof {
                    assert(xs@.skip(0) =~= xs@);
                }
            }
            out.push(']');
            proof {
                assert(out@ =~= old(out)@ + json_of(*v));
            }
        },
        OutValue::Object(fs) => {
            out.push('{');
            if fs.len() > 0 {
                render_json_fields(out, fs, 0);
                proof {
                    assert(fs@.skip(0) =~= fs@);
                }
            }
            out.push('}');
            proof {
                assert(out@ =~= old(out)@ + json_of(*v));
            }
        },
    }
}

/// Appends the JSON renderings of the list items from position `i` on.
fn render_json_items(out: &mut Vec<char>, xs: &Vec<OutValue>, i: usize)
    requires
        i < xs@.len(),
    ensures
        final(out)@ == old(out)@ + json_of_list(xs@.skip(i as int)),
    decreases 1 + depth_list(xs@), 0int, xs@.len() - i,
{
    proof {
        lemma_depth_list_bound(xs@, i as int);
    }
    render_json_into(out, &xs[i]);
    proof {
        assert(xs@.skip(i as int)[0] == xs@[i as int]);
    }
    let n = xs.len();
    if i < n - 1 {
        out.push(',');
        render_json_items(out, xs, i + 1);
        proof {
            assert(xs@.skip(i as int).drop_first() =~= xs@.skip(i + 1 as int));
            assert(out@ =~= old(out)@ + json_of_list(xs@.skip(i as int)));
        }
    } else {
        proof {
            assert(xs@.skip(i as int).len() == 1);
            assert(out@ =~= old(out)@ + json_of_list(xs@.skip(i as int)));
        }
    }
}

/// Appends the JSON renderings of the object fields from position `i` on.
fn render_json_fields(out: &mut Vec<char>, fs: &Vec<(String, OutValue)>, i: usize)
    requires
        i < fs@.len(),
    ensures
        final(out)@ == old(out)@ + json_of_fields(fs@.skip(i as int)),
    decreases 1 + depth_fields(fs@), 0int, fs@.len() - i,
{
    proof {
        lemma_depth_fields_bound(fs@, i as int);
        assert(fs@.skip(i as int)[0] == fs@[i as int]);
    }
    render_string_into(out, fs[i].0.as_str());
    out.push(':');
    render_json_into(out, &fs[i].1);
    let n = fs.len();
    if i < n - 1 {
        out.push(',');
        render_json_fields(out, fs, i + 1);
        proof {
            assert(fs@.skip(i as int).drop_first() =~= fs@.skip(i + 1 as int));
            assert(out@ =~= old(out)@ + json_of_fields(fs@.skip(i as int)));
        }
    } else {
        proof {
            assert(fs@.skip(i as int).len() == 1);
            assert(out@ =~= old(out)@ + json_of_fields(fs@.skip(i as int)));
        }
    }
}

/// The JSON text of a value.
pub fn to_json(v: &OutValue) -> (r: String)
    ensures
        r@ == json_of(*v),
{
    let mut out: Vec<char> = Vec::new();
    render_json_into(&mut out, v);
    proof {
        assert(Seq::<char>::empty() + json_of(*v) =~= json_of(*v));
    }
    crate::text::chars_to_string(&out)
}

// ---------------------------------------------------------------------------
// Text mode.
// ---------------------------------------------------------------------------
/// The indentation for one nesting level.
pub open spec fn indent_of(d: nat) -> Seq<char>
    decreases d,
{
    if d == 0 {
        Seq::empty()
    } else {
        "    "@ + indent_of((d - 1) as nat)
    }
}

/// The human-readable rendering of a value at nesting level `d`: texts keep
/// their quotes and escapes, nothing stands for an absent value, and each
/// field or item opens its own indented line.
pub open spec fn text_of(v: OutValue, d: nat) -> Seq<char>
    decreases v,
{
    match v {
        OutValue::Null => Seq::empty(),
        OutValue::Truth(b) => if b {
            "true"@
        } else {
            "false"@
        },
        OutValue::Text(s) => render_string_spec(s@),
        OutValue::List(xs) => text_of_list(xs@, d),
        OutValue::Object(fs) => text_of_fields(fs@, d),
    }
}

/// The human-readable rendering of list items: each on its own line, marked
/// with a dash.
pub open spec fn text_of_list(xs: Seq<OutValue>, d: nat) -> Seq<char>
    decreases xs,
{
    if xs.len() == 0 {
        Seq::empty()
    } else {
        seq!['\n'] + indent_of(d + 1) + seq!['-', ' '] + text_of(xs[0], d + 1) + text_of_list(
            xs.drop_first(),
            d,
        )
    }
}

/// The human-readable rendering of object fields: each on its own line as
/// `name: value`.
pub open spec fn text_of_fields(fs: Seq<(String, OutValue)>, d: nat) -> Seq<char>
    decreases fs,
{
    if fs.len() == 0 {
        Seq::empty()
    } else {
        seq!['\n'] + indent_of(d + 1) + fs[0].0@ + seq![':', ' '] + text_of(fs[0].1, d + 1)
            + text_of_fields(fs.drop_first(), d)
    }
}

/// Appends the indentation for nesting level `d`.
fn push_indent(out: &mut Vec<char>, d: usize)
    ensures
        final(out)@ == old(out)@ + indent_of(d as nat),
    decreases d,
{
    if d > 0 {
        crate::codec::push_lit(out, "    ");
        push_indent(out, d - 1);
        proof {
            assert(out@ =~= old(out)@ + indent_of(d as nat));
        }
    }
}

/// Appends the human-readable rendering of a value. Nesting deeper than the
/// tool ever produces is cut off by the depth bound of `usize`.
pub fn render_text_into(out: &mut Vec<char>, v: &OutValue, d: usize)
    requires
        d + depth(*v) <= usize::MAX,
    ensures
        final(out)@ == old(out)@ + text_of(*v, d as nat),
    decreases depth(*v), 1int, 0int,
{
    match v {
        OutValue::Null => {
        },
        OutValue::Truth(b) => {
            if *b {
                crate::codec::push_lit(out, "true");
            } else {
                crate::codec::push_lit(out, "false");
            }
        },
        OutValue::Text(s) => render_string_into(out, s.as_str()),
        OutValue::List(xs) => {
            if xs.len() > 0 {
                render_text_items(out, xs, 0, d);
                proof {
                    assert(xs@.skip(0) =~= xs@);
                }
            }
            proof {
                assert(out@ =~= old(out)@ + text_of(*v, d as nat));
            }
        },
        OutValue::Object(fs) => {
            if fs.len() > 0 {
                render_text_fields(out, fs, 0, d);
                proof {
                    assert(fs@.skip(0) =~= fs@);
                }
            }
            proof {
                assert(out@ =~= old(out)@ + text_of(*v, d as nat));
            }
        },
    }
}

/// Appends the human-readable renderings of the list items from position
/// `i` on.
fn render_text_items(out: &mut Vec<char>, xs: &Vec<OutValue>, i: usize, d: usize)
    requires
        i < xs@.len(),
        d + 1 + depth_list(xs@) <= usize::MAX,
    ensures
        final(out)@ == old(out)@ + text_of_list(xs@.skip(i as int), d as nat),
    decreases 1 + depth_list(xs@), 0int, xs@.len() - i,
{
    proof {
        lemma_depth_list_bound(xs@, i as int);
        assert(xs@.skip(i as int)[0] == xs@[i as int]);
        reveal_strlit("- ");
        assert("- "@ =~= seq!['-', ' ']);
    }
    out.push('\n');
    push_indent(out, d + 1);
    crate::codec::push_lit(out, "- ");
    render_text_into(out, &xs[i], d + 1);
    let n = xs.len();
    if i < n - 1 {
        render_text_items(out, xs, i + 1, d);
        proof {
            assert(xs@.skip(i as int).drop_first() =~= xs@.skip(i + 1 as int));
            assert(out@ =~= old(out)@ + (seq!['\n'] + (indent_of((d + 1) as nat) + ("- "@ + (
            text_of(xs@[i as int], (d + 1) as nat) + text_of_list(
                xs@.skip(i + 1 as int),
                d as nat,
            ))))));
            assert(text_of_list(xs@.skip(i as int), d as nat) =~= seq!['\n'] + (indent_of(
                (d + 1) as nat,
            ) + ("- "@ + (text_of(xs@[i as int], (d + 1) as nat) + text_of_list(
                xs@.skip(i + 1 as int),
                d as nat,
            )))));
            assert(out@ =~= old(out)@ + text_of_list(xs@.skip(i as int), d as nat));
        }
    } else {
        proof {
            assert(xs@.skip(i as int).len() == 1);
            assert(xs@.skip(i as int).drop_first() =~= Seq::<OutValue>::empty());
            assert(text_of_list(Seq::<OutValue>::empty(), d as nat) =~= Seq::<char>::empty());
            assert(out@ =~= old(out)@ + text_of_list(xs@.skip(i as int), d as nat));
        }
    }
}

/// Appends the human-readable renderings of the object fields from position
/// `i` on.
fn render_text_fields(out: &mut Vec<char>, fs: &Vec<(String, OutValue)>, i: usize, d: usize)
    requires
        i < fs@.len(),
        d + 1 + depth_fields(fs@) <= usize::MAX,
    ensures
        final(out)@ == old(out)@ + text_of_fields(fs@.skip(i as int), d as nat),
    decreases 1 + depth_fields(fs@), 0int, fs@.len() - i,
{
    proof {
        lemma_depth_fields_bound(fs@, i as int);
        assert(fs@.skip(i as int)[0] == fs@[i as int]);
        reveal_strlit(": ");
        assert(": "@ =~= seq![':', ' ']);
    }
    out.push('\n');
    push_indent(out, d + 1);
    crate::codec::push_lit(out, fs[i].0.as_str());
    crate::codec::push_lit(out, ": ");
    render_text_into(out, &fs[i].1, d + 1);
    let n = fs.len();
    if i < n - 1 {
        render_text_fields(out, fs, i + 1, d);
        proof {
            assert(fs@.skip(i as int).drop_first() =~= fs@.skip(i + 1 as int));
            assert(out@ =~= old(out)@ + (seq!['\n'] + (indent_of((d + 1) as nat) + (
            fs@[i as int].0@ + (": "@ + (text_of(fs@[i as int].1, (d + 1) as nat)
                + text_of_fields(fs@.skip(i + 1 as int), d as nat)))))));
            assert(text_of_fields(fs@.skip(i as int), d as nat) =~= seq!['\n'] + (indent_of(
                (d + 1) as nat,
            ) + (fs@[i as int].0@ + (": "@ + (text_of(fs@[i as int].1, (d + 1) as nat)
                + text_of_fields(fs@.skip(i + 1 as int), d as nat))))));
            assert(out@ =~= old(out)@ + text_of_fields(fs@.skip(i as int), d as nat));
        }
    } else {
        proof {
            assert(fs@.skip(i as int).len() == 1);
            assert(fs@.skip(i as int).drop_first() =~= Seq::<(String, OutValue)>::empty());
            assert(text_of_fields(Seq::<(String, OutValue)>::empty(), d as nat) =~= Seq::<
                char,
            >::empty());
            assert(out@ =~= old(out)@ + text_of_fields(fs@.skip(i as int), d as nat));
        }
    }
}

/// The human-readable text of a value.
pub fn to_text(v: &OutValue) -> (r: String)
    requires
        depth(*v) <= usize::MAX,
    ensures
        r@ == text_of(*v, 0),
{
    let mut out: Vec<char> = Vec::new();
    render_text_into(&mut out, v, 0);
    proof {
        assert(Seq::<char>::empty() + text_of(*v, 0) =~= text_of(*v, 0));
    }
    crate::text::chars_to_string(&out)
}

/// The record the identity command presents: the profile's name and display
/// name.
pub fn whoami_record(creds: &Credentials) -> (r: OutValue)
    ensures
        (r matches OutValue::Object(fs) && fs@.len() == 2 && fs@[0].0@ == "name"@ && (match creds@
            .metadata.name {
            Some(n) => fs@[0].1 matches OutValue::Text(t) && t@ == n,
            None => fs@[0].1 is Null,
        }) && fs@[1].0@ == "display_name"@ && (match creds@.metadata.display_name {
            Some(n) => fs@[1].1 matches OutValue::Text(t) && t@ == n,
            None => fs@[1].1 is Null,
        })),
{
    let name_label = "name";
    let display_label = "display_name";
    let name_value = match &creds.metadata.name {
        Some(n) => OutValue::Text(n.clone()),
        None => OutValue::Null,
    };
    let display_value = match &creds.metadata.display_name {
        Some(n) => OutValue::Text(n.clone()),
        None => OutValue::Null,
    };
    let mut fields: Vec<(String, OutValue)> = Vec::new();
    fields.push((String::from_str(name_label), name_value));
    fields.push((String::from_str(display_label), display_value));
    OutValue::Object(fields)
}

} // verus!
