//! The text codec for the credential file: a deterministic JSON rendering of
//! the credential state, and a parser for exactly that rendering. Loading
//! inverts saving, which is proved below; the grammar it accepts is the
//! canonical form that saving writes.

use vstd::prelude::*;

use crate::contacts::ContactView;
use crate::errors::Error;
use crate::keys::hex_decode;
use crate::keys::hex_of;
use crate::keys::is_curve_point;
use crate::keys::lemma_hex_round_trip;
use crate::relay::RelayView;
use crate::store::CredentialsView;
use crate::store::MetadataView;
use crate::text::str_to_chars;

verus! {

// ---------------------------------------------------------------------------
// Characters and escapes.
// ---------------------------------------------------------------------------
/// The characters a stored text may hold: everything but control characters,
/// except the three escapable ones.
pub open spec fn esc_ok(c: char) -> bool {
    c == '\n' || c == '\r' || c == '\t' || (c as u32) >= 0x20
}

/// True when every character of the text can be stored.
pub open spec fn str_ok(s: Seq<char>) -> bool {
    forall|i: int| 0 <= i < s.len() ==> esc_ok(#[trigger] s[i])
}

/// The rendering of one character inside a string: quote, backslash and the
/// three control characters are escaped; everything else stands as itself.
pub open spec fn esc_char(c: char) -> Seq<char>
    recommends
        esc_ok(c),
{
    if c == '"' {
        seq!['\\', '"']
    } else if c == '\\' {
        seq!['\\', '\\']
    } else if c == '\n' {
        seq!['\\', 'n']
    } else if c == '\r' {
        seq!['\\', 'r']
    } else if c == '\t' {
        seq!['\\', 't']
    } else {
        seq![c]
    }
}

/// The rendering of a string body, character by character.
pub open spec fn esc_str(s: Seq<char>) -> Seq<char>
    decreases s.len(),
{
    if s.len() == 0 {
        Seq::empty()
    } else {
        esc_char(s[0]) + esc_str(s.skip(1))
    }
}

/// The rendering of a string: the escaped body between quotes.
pub open spec fn render_string_spec(s: Seq<char>) -> Seq<char> {
    seq!['"'] + esc_str(s) + seq!['"']
}

// ---------------------------------------------------------------------------
// Parsing: fixed literals and strings.
// ---------------------------------------------------------------------------
/// The position after the given literal, when the text carries exactly it at
/// position `i`.
pub open spec fn parse_lit_spec(s: Seq<char>, i: int, lit: Seq<char>) -> Option<int> {
    if 0 <= i && i + lit.len() <= s.len() && s.subrange(i, i + lit.len()) == lit {
        Some(i + lit.len())
    } else {
        None
    }
}

/// The string body read from position `i` up to the closing quote, appended
/// to `acc`, and the position after that quote.
pub open spec fn parse_str_body(s: Seq<char>, i: int, acc: Seq<char>) -> Option<(Seq<char>, int)>
    decreases s.len() - i,
{
    if i < 0 || i >= s.len() {
        None
    } else {
        let c = s[i];
        if c == '"' {
            Some((acc, i + 1))
        } else if c == '\\' {
            if i + 1 >= s.len() {
                None
            } else {
                let e = s[i + 1];
                if e == '"' {
                    parse_str_body(s, i + 2, acc.push('"'))
                } else if e == '\\' {
                    parse_str_body(s, i + 2, acc.push('\\'))
                } else if e == 'n' {
                    parse_str_body(s, i + 2, acc.push('\n'))
                } else if e == 'r' {
                    parse_str_body(s, i + 2, acc.push('\r'))
                } else if e == 't' {
                    parse_str_body(s, i + 2, acc.push('\t'))
                } else {
                    None
                }
            }
        } else if (c as u32) < 0x20 {
            None
        } else {
            parse_str_body(s, i + 1, acc.push(c))
        }
    }
}

/// The string read from an opening quote at position `i`.
pub open spec fn parse_string_spec(s: Seq<char>, i: int) -> Option<(Seq<char>, int)> {
    if 0 <= i && i < s.len() && s[i] == '"' {
        parse_str_body(s, i + 1, Seq::empty())
    } else {
        None
    }
}

/// Splitting a known chunk of the text: when the text carries `a + b` at
/// position `i`, it carries `a` at `i` and `b` right after.
pub proof fn lemma_chunk(t: Seq<char>, i: int, a: Seq<char>, b: Seq<char>)
    requires
        0 <= i,
        i + a.len() + b.len() <= t.len(),
        t.subrange(i, i + a.len() + b.len()) == a + b,
    ensures
        t.subrange(i, i + a.len()) == a,
        t.subrange(i + a.len(), i + a.len() + b.len()) == b,
{
    let whole = t.subrange(i, i + a.len() + b.len());
    assert forall|k: int| 0 <= k < a.len() implies t.subrange(i, i + a.len())[k] == a[k] by {
        assert(whole[k] == (a + b)[k]);
    }
    assert(t.subrange(i, i + a.len()) =~= a);
    assert forall|k: int| 0 <= k < b.len() implies t.subrange(
        i + a.len(),
        i + a.len() + b.len(),
    )[k] == b[k] by {
        assert(whole[a.len() + k] == (a + b)[a.len() + k]);
    }
    assert(t.subrange(i + a.len(), i + a.len() + b.len()) =~= b);
}

/// Reading a rendered string body gives back the string: when the text
/// carries the escaped form of `x` and a closing quote at position `i`, the
/// body parse returns `acc` extended by `x`.
proof fn lemma_str_body_round_trip(t: Seq<char>, i: int, x: Seq<char>, acc: Seq<char>)
    requires
        str_ok(x),
        0 <= i,
        i + esc_str(x).len() + 1 <= t.len(),
        t.subrange(i, i + esc_str(x).len()) == esc_str(x),
        t[i + esc_str(x).len()] == '"',
    ensures
        parse_str_body(t, i, acc) == Some((acc + x, i + esc_str(x).len() + 1)),
    decreases x.len(),
{
    if x.len() == 0 {
        assert(esc_str(x).len() == 0);
        assert(t[i] == '"');
        assert(acc + x =~= acc);
    } else {
        let c = x[0];
        let rest = x.skip(1);
        let ec = esc_char(c);
        assert(esc_str(x) == ec + esc_str(rest));
        assert(esc_ok(c));
        lemma_chunk(t, i, ec, esc_str(rest));
        let j = i + ec.len();
        assert forall|k: int| 0 <= k < ec.len() implies t[i + k] == ec[k] by {
            assert(t.subrange(i, i + ec.len())[k] == ec[k]);
        }
        assert(t.subrange(j, j + esc_str(rest).len()) == esc_str(rest));
        assert(str_ok(rest)) by {
            assert(forall|k: int| 0 <= k < rest.len() ==> rest[k] == x[k + 1]);
        }
        if c == '"' {
            assert(t[i] == '\\' && t[i + 1] == '"');
            lemma_str_body_round_trip(t, j, rest, acc.push(c));
            assert(acc.push(c) + rest =~= acc + x);
        } else if c == '\\' {
            assert(t[i] == '\\' && t[i + 1] == '\\');
            lemma_str_body_round_trip(t, j, rest, acc.push(c));
            assert(acc.push(c) + rest =~= acc + x);
        } else if c == '\n' {
            assert(t[i] == '\\' && t[i + 1] == 'n');
            lemma_str_body_round_trip(t, j, rest, acc.push(c));
            assert(acc.push(c) + rest =~= acc + x);
        } else if c == '\r' {
            assert(t[i] == '\\' && t[i + 1] == 'r');
            lemma_str_body_round_trip(t, j, rest, acc.push(c));
            assert(acc.push(c) + rest =~= acc + x);
        } else if c == '\t' {
            assert(t[i] == '\\' && t[i + 1] == 't');
            lemma_str_body_round_trip(t, j, rest, acc.push(c));
            assert(acc.push(c) + rest =~= acc + x);
        } else {
            assert(ec =~= seq![c]);
            assert(ec[0] == c);
            assert(t[i + 0] == ec[0]);
            assert(t[i] == c);
            assert((c as u32) >= 0x20 && c != '"' && c != '\\');
            lemma_str_body_round_trip(t, j, rest, acc.push(c));
            assert(acc.push(c) + rest =~= acc + x);
        }
    }
}

/// Reading a rendered string gives back the string.
pub proof fn lemma_string_round_trip(t: Seq<char>, i: int, x: Seq<char>)
    requires
        str_ok(x),
        0 <= i,
        i + render_string_spec(x).len() <= t.len(),
        t.subrange(i, i + render_string_spec(x).len()) == render_string_spec(x),
    ensures
        parse_string_spec(t, i) == Some((x, i + render_string_spec(x).len())),
{
    let r = render_string_spec(x);
    assert forall|k: int| 0 <= k < r.len() implies t[i + k] == r[k] by {
        assert(t.subrange(i, i + r.len())[k] == r[k]);
    }
    assert(r[0] == '"');
    assert(t[i + 0] == r[0]);
    assert(t[i] == '"');
    let body = esc_str(x);
    assert forall|k: int| 0 <= k < body.len() implies t.subrange(
        i + 1,
        i + 1 + body.len(),
    )[k] == body[k] by {
        assert(r[1 + k] == body[k]);
    }
    assert(t.subrange(i + 1, i + 1 + body.len()) =~= body);
    assert(t[i + 1 + body.len()] == '"') by {
        assert(r.len() == body.len() + 2);
        assert(r[1 + body.len() as int] == '"');
        assert(t[i + 1 + body.len()] == r[1 + body.len() as int]);
    }
    lemma_str_body_round_trip(t, i + 1, x, Seq::empty());
    assert(Seq::empty() + x =~= x);
}

// ---------------------------------------------------------------------------
// Optional strings.
// ---------------------------------------------------------------------------
/// The rendering of an optional string: the string, or `null`.
pub open spec fn render_opt_spec(o: Option<Seq<char>>) -> Seq<char> {
    match o {
        Some(s) => render_string_spec(s),
        None => "null"@,
    }
}

/// The optional string read from position `i`: a quote opens a string,
/// otherwise the literal `null` is expected.
pub open spec fn parse_opt_spec(s: Seq<char>, i: int) -> Option<(Option<Seq<char>>, int)> {
    if 0 <= i && i < s.len() && s[i] == '"' {
        match parse_string_spec(s, i) {
            Some(p) => Some((Some(p.0), p.1)),
            None => None,
        }
    } else {
        match parse_lit_spec(s, i, "null"@) {
            Some(j) => Some((None, j)),
            None => None,
        }
    }
}

/// Reading a rendered optional string gives it back.
pub proof fn lemma_opt_round_trip(t: Seq<char>, i: int, o: Option<Seq<char>>)
    requires
        (o matches Some(s) ==> str_ok(s)),
        0 <= i,
        i + render_opt_spec(o).len() <= t.len(),
        t.subrange(i, i + render_opt_spec(o).len()) == render_opt_spec(o),
    ensures
        parse_opt_spec(t, i) == Some((o, i + render_opt_spec(o).len())),
{
    let r = render_opt_spec(o);
    match o {
        Some(s) => {
            assert(r[0] == '"');
            assert(t[i + 0] == r[0]) by {
                assert(t.subrange(i, i + r.len())[0] == r[0]);
            }
            lemma_string_round_trip(t, i, s);
        },
        None => {
            reveal_strlit("null");
            assert(r[0] == 'n');
            assert(t[i + 0] == r[0]) by {
                assert(t.subrange(i, i + r.len())[0] == r[0]);
            }
            assert(t[i] != '"');
            assert(parse_lit_spec(t, i, "null"@) == Some(i + 4));
        },
    }
}

// ---------------------------------------------------------------------------
// Lists.
// ---------------------------------------------------------------------------
/// The rendering of list items, separated by commas.
pub open spec fn render_items_spec<T>(items: Seq<T>, rend: spec_fn(T) -> Seq<char>) -> Seq<char>
    decreases items.len(),
{
    if items.len() == 0 {
        Seq::empty()
    } else if items.len() == 1 {
        rend(items[0])
    } else {
        rend(items[0]) + seq![','] + render_items_spec(items.skip(1), rend)
    }
}

/// The rendering of a list: its items between brackets.
pub open spec fn render_list_spec<T>(items: Seq<T>, rend: spec_fn(T) -> Seq<char>) -> Seq<char> {
    seq!['['] + render_items_spec(items, rend) + seq![']']
}

/// The non-empty item sequence read from position `i` up to the closing
/// bracket. An element parse that does not advance, or leaves the text, reads
/// nothing.
pub open spec fn parse_items_spec<T>(
    s: Seq<char>,
    i: int,
    elem: spec_fn(Seq<char>, int) -> Option<(T, int)>,
) -> Option<(Seq<T>, int)>
    decreases s.len() - i,
{
    match elem(s, i) {
        None => None,
        Some(p) => {
            let j = p.1;
            if j <= i || j > s.len() {
                None
            } else if j < s.len() && s[j] == ',' {
                match parse_items_spec(s, j + 1, elem) {
                    Some(q) => Some((seq![p.0] + q.0, q.1)),
                    None => None,
                }
            } else if j < s.len() && s[j] == ']' {
                Some((seq![p.0], j + 1))
            } else {
                None
            }
        },
    }
}

/// The list read from an opening bracket at position `i`.
pub open spec fn parse_list_spec<T>(
    s: Seq<char>,
    i: int,
    elem: spec_fn(Seq<char>, int) -> Option<(T, int)>,
) -> Option<(Seq<T>, int)> {
    if !(0 <= i && i < s.len() && s[i] == '[') {
        None
    } else if i + 1 < s.len() && s[i + 1] == ']' {
        Some((Seq::empty(), i + 2))
    } else {
        parse_items_spec(s, i + 1, elem)
    }
}

/// True when, on this text, the element parser reads back every rendered
/// item of the list wherever it stands.
pub open spec fn elems_parse_back<T>(
    t: Seq<char>,
    items: Seq<T>,
    rend: spec_fn(T) -> Seq<char>,
    elem: spec_fn(Seq<char>, int) -> Option<(T, int)>,
) -> bool {
    forall|n: int, k: int|
        #![trigger items[n], elem(t, k)]
        0 <= n < items.len() && 0 <= k && k + rend(items[n]).len() <= t.len() && t.subrange(
            k,
            k + rend(items[n]).len(),
        ) == rend(items[n]) ==> elem(t, k) == Some((items[n], k + rend(items[n]).len()))
}

/// Every rendered item is non-empty and does not open with a closing
/// bracket, so a rendered list is unambiguous.
pub open spec fn rend_delimited<T>(items: Seq<T>, rend: spec_fn(T) -> Seq<char>) -> bool {
    forall|n: int|
        0 <= n < items.len() ==> rend(#[trigger] items[n]).len() > 0 && rend(items[n])[0] != ']'
}

/// Reading rendered items gives them back.
proof fn lemma_items_round_trip<T>(
    t: Seq<char>,
    i: int,
    items: Seq<T>,
    rend: spec_fn(T) -> Seq<char>,
    elem: spec_fn(Seq<char>, int) -> Option<(T, int)>,
)
    requires
        items.len() > 0,
        0 <= i,
        i + render_items_spec(items, rend).len() + 1 <= t.len(),
        t.subrange(i, i + render_items_spec(items, rend).len()) == render_items_spec(items, rend),
        t[i + render_items_spec(items, rend).len()] == ']',
        elems_parse_back(t, items, rend, elem),
        rend_delimited(items, rend),
    ensures
        parse_items_spec(t, i, elem) == Some(
            (items, i + render_items_spec(items, rend).len() + 1),
        ),
    decreases items.len(),
{
    let whole = render_items_spec(items, rend);
    let first = rend(items[0]);
    assert(first.len() > 0) by {
        assert(rend(items[0]).len() > 0);
    }
    if items.len() == 1 {
        assert(whole == first);
        assert(elem(t, i) == Some((items[0], i + first.len())));
        let j = i + first.len();
        assert(i < j <= t.len());
        assert(t[j] == ']');
        assert(seq![items[0]] =~= items);
    } else {
        let rest = render_items_spec(items.skip(1), rend);
        assert(whole == first + seq![','] + rest);
        assert(whole =~= first + (seq![','] + rest));
        lemma_chunk(t, i, first, seq![','] + rest);
        assert(elem(t, i) == Some((items[0], i + first.len())));
        let j = i + first.len();
        let tail = t.subrange(j, j + 1 + rest.len());
        assert(tail == seq![','] + rest);
        assert(t[j] == ',') by {
            assert(tail[0] == (seq![','] + rest)[0]);
        }
        assert forall|k: int| 0 <= k < rest.len() implies t.subrange(j + 1, j + 1 + rest.len())[k]
            == rest[k] by {
            assert(tail[1 + k] == (seq![','] + rest)[1 + k]);
        }
        assert(t.subrange(j + 1, j + 1 + rest.len()) =~= rest);
        assert(t[j + 1 + rest.len()] == ']');
        assert(elems_parse_back(t, items.skip(1), rend, elem)) by {
            assert forall|n: int, k: int|
                #![trigger items.skip(1)[n], elem(t, k)]
                0 <= n < items.skip(1).len() && 0 <= k && k + rend(items.skip(1)[n]).len()
                    <= t.len() && t.subrange(k, k + rend(items.skip(1)[n]).len()) == rend(
                    items.skip(1)[n],
                ) implies elem(t, k) == Some(
                (items.skip(1)[n], k + rend(items.skip(1)[n]).len()),
            ) by {
                assert(items.skip(1)[n] == items[n + 1]);
            }
        }
        assert(rend_delimited(items.skip(1), rend)) by {
            assert forall|n: int| 0 <= n < items.skip(1).len() implies rend(
                #[trigger] items.skip(1)[n],
            ).len() > 0 && rend(items.skip(1)[n])[0] != ']' by {
                assert(items.skip(1)[n] == items[n + 1]);
            }
        }
        assert(i < j <= t.len());
        lemma_items_round_trip(t, j + 1, items.skip(1), rend, elem);
        assert(seq![items[0]] + items.skip(1) =~= items);
    }
}

/// Reading a rendered list gives it back.
pub proof fn lemma_list_round_trip<T>(
    t: Seq<char>,
    i: int,
    items: Seq<T>,
    rend: spec_fn(T) -> Seq<char>,
    elem: spec_fn(Seq<char>, int) -> Option<(T, int)>,
)
    requires
        0 <= i,
        i + render_list_spec(items, rend).len() <= t.len(),
        t.subrange(i, i + render_list_spec(items, rend).len()) == render_list_spec(items, rend),
        elems_parse_back(t, items, rend, elem),
        rend_delimited(items, rend),
    ensures
        parse_list_spec(t, i, elem) == Some((items, i + render_list_spec(items, rend).len())),
{
    let r = render_list_spec(items, rend);
    let body = render_items_spec(items, rend);
    assert forall|k: int| 0 <= k < r.len() implies t[i + k] == r[k] by {
        assert(t.subrange(i, i + r.len())[k] == r[k]);
    }
    assert(r[0] == '[');
    assert(t[i + 0] == r[0]);
    assert(t[i] == '[');
    if items.len() == 0 {
        assert(body.len() == 0);
        assert(r[1] == ']');
        assert(t[i + 1] == r[1]);
        assert(parse_list_spec(t, i, elem) == Some((Seq::<T>::empty(), i + 2)));
        assert(Seq::<T>::empty() =~= items);
    } else {
        assert(body.len() > 0) by {
            assert(rend(items[0]).len() > 0);
        }
        assert(r[1] == body[0]);
        assert(t[i + 1] == r[1]);
        assert(body[0] == rend(items[0])[0]) by {
            if items.len() == 1 {
            } else {
                assert(body == rend(items[0]) + seq![','] + render_items_spec(
                    items.skip(1),
                    rend,
                ));
                assert(body[0] == rend(items[0])[0]);
            }
        }
        assert(t[i + 1] != ']');
        assert forall|k: int| 0 <= k < body.len() implies t.subrange(
            i + 1,
            i + 1 + body.len(),
        )[k] == body[k] by {
            assert(r[1 + k] == body[k]);
            assert(t[i + (1 + k)] == r[1 + k]);
        }
        assert(t.subrange(i + 1, i + 1 + body.len()) =~= body);
        assert(t[i + 1 + body.len()] == ']') by {
            assert(r[1 + body.len() as int] == ']');
            assert(t[i + (1 + body.len())] == r[1 + body.len() as int]);
        }
        lemma_items_round_trip(t, i + 1, items, rend, elem);
    }
}

// ---------------------------------------------------------------------------
// Keys, relays, contacts, metadata.
// ---------------------------------------------------------------------------
/// Every hexadecimal digit may stand unescaped in a stored string.
proof fn lemma_hex_char_ok(n: u8)
    requires
        n < 16,
    ensures
        esc_ok(crate::keys::hex_char(n)),
{
}

/// The hexadecimal form of a byte sequence is storable as it is.
proof fn lemma_hex_str_ok(b: Seq<u8>)
    ensures
        str_ok(hex_of(b)),
{
    assert forall|i: int| 0 <= i < hex_of(b).len() implies esc_ok(#[trigger] hex_of(b)[i]) by {
        if i % 2 == 0 {
            lemma_hex_char_ok(b[i / 2] / 16);
        } else {
            lemma_hex_char_ok(b[i / 2] % 16);
        }
    }
}

/// The rendering of one key: its hexadecimal form as a string.
pub open spec fn render_key_spec(b: Seq<u8>) -> Seq<char> {
    render_string_spec(hex_of(b))
}

/// The key read from position `i`: a string of hexadecimal digits that
/// decodes to 32 bytes forming a curve point.
pub open spec fn parse_key_spec(s: Seq<char>, i: int) -> Option<(Seq<u8>, int)> {
    match parse_string_spec(s, i) {
        Some(p) => match hex_decode(p.0) {
            Some(b) => if b.len() == 32 && is_curve_point(b) {
                Some((b, p.1))
            } else {
                None
            },
            None => None,
        },
        None => None,
    }
}

/// Reading a rendered key gives it back.
pub proof fn lemma_key_elem_round_trip(t: Seq<char>, i: int, b: Seq<u8>)
    requires
        b.len() == 32,
        is_curve_point(b),
        0 <= i,
        i + render_key_spec(b).len() <= t.len(),
        t.subrange(i, i + render_key_spec(b).len()) == render_key_spec(b),
    ensures
        parse_key_spec(t, i) == Some((b, i + render_key_spec(b).len())),
{
    lemma_hex_str_ok(b);
    lemma_string_round_trip(t, i, hex_of(b));
    lemma_hex_round_trip(b);
}

/// The rendering of one relay endpoint.
pub open spec fn render_relay_spec(r: RelayView) -> Seq<char> {
    "{\"url\":"@ + (render_string_spec(r.url) + (",\"proxy\":"@ + (render_opt_spec(r.proxy)
        + "}"@)))
}

/// The relay endpoint read from position `i`.
pub open spec fn parse_relay_spec(s: Seq<char>, i: int) -> Option<(RelayView, int)> {
    match parse_lit_spec(s, i, "{\"url\":"@) {
        None => None,
        Some(j1) => match parse_string_spec(s, j1) {
            None => None,
            Some(url) => match parse_lit_spec(s, url.1, ",\"proxy\":"@) {
                None => None,
                Some(j2) => match parse_opt_spec(s, j2) {
                    None => None,
                    Some(proxy) => match parse_lit_spec(s, proxy.1, "}"@) {
                        None => None,
                        Some(j3) => Some((RelayView { url: url.0, proxy: proxy.0 }, j3)),
                    },
                },
            },
        },
    }
}

/// Whether an optional string is storable.
pub open spec fn opt_ok(o: Option<Seq<char>>) -> bool {
    match o {
        Some(s) => str_ok(s),
        None => true,
    }
}

/// Reading a rendered relay endpoint gives it back.
pub proof fn lemma_relay_round_trip(t: Seq<char>, i: int, r: RelayView)
    requires
        str_ok(r.url),
        opt_ok(r.proxy),
        0 <= i,
        i + render_relay_spec(r).len() <= t.len(),
        t.subrange(i, i + render_relay_spec(r).len()) == render_relay_spec(r),
    ensures
        parse_relay_spec(t, i) == Some((r, i + render_relay_spec(r).len())),
{
    let a1 = "{\"url\":"@;
    let f1 = render_string_spec(r.url);
    let a2 = ",\"proxy\":"@;
    let f2 = render_opt_spec(r.proxy);
    let a3 = "}"@;
    lemma_chunk(t, i, a1, f1 + (a2 + (f2 + a3)));
    let p1 = i + a1.len();
    lemma_chunk(t, p1, f1, a2 + (f2 + a3));
    let p2 = p1 + f1.len();
    lemma_chunk(t, p2, a2, f2 + a3);
    let p3 = p2 + a2.len();
    lemma_chunk(t, p3, f2, a3);
    let p4 = p3 + f2.len();
    lemma_string_round_trip(t, p1, r.url);
    lemma_opt_round_trip(t, p3, r.proxy);
    assert(parse_lit_spec(t, i, a1) == Some(p1));
    assert(parse_lit_spec(t, p2, a2) == Some(p3));
    assert(parse_lit_spec(t, p4, a3) == Some(p4 + a3.len()));
}

/// The rendering of one contact entry.
pub open spec fn render_contact_spec(c: ContactView) -> Seq<char> {
    "{\"public_key\":"@ + (render_key_spec(c.key) + (",\"alias\":"@ + (render_opt_spec(c.alias)
        + (",\"relay_hint\":"@ + (render_opt_spec(c.relay_hint) + "}"@)))))
}

/// The contact entry read from position `i`.
pub open spec fn parse_contact_spec(s: Seq<char>, i: int) -> Option<(ContactView, int)> {
    match parse_lit_spec(s, i, "{\"public_key\":"@) {
        None => None,
        Some(j1) => match parse_key_spec(s, j1) {
            None => None,
            Some(key) => match parse_lit_spec(s, key.1, ",\"alias\":"@) {
                None => None,
                Some(j2) => match parse_opt_spec(s, j2) {
                    None => None,
                    Some(alias) => match parse_lit_spec(s, alias.1, ",\"relay_hint\":"@) {
                        None => None,
                        Some(j3) => match parse_opt_spec(s, j3) {
                            None => None,
                            Some(hint) => match parse_lit_spec(s, hint.1, "}"@) {
                                None => None,
                                Some(j4) => Some(
                                    (
                                        ContactView {
                                            key: key.0,
                                            alias: alias.0,
                                            relay_hint: hint.0,
                                        },
                                        j4,
                                    ),
                                ),
                            },
                        },
                    },
                },
            },
        },
    }
}

/// Reading a rendered contact entry gives it back.
pub proof fn lemma_contact_round_trip(t: Seq<char>, i: int, c: ContactView)
    requires
        c.key.len() == 32,
        is_curve_point(c.key),
        opt_ok(c.alias),
        opt_ok(c.relay_hint),
        0 <= i,
        i + render_contact_spec(c).len() <= t.len(),
        t.subrange(i, i + render_contact_spec(c).len()) == render_contact_spec(c),
    ensures
        parse_contact_spec(t, i) == Some((c, i + render_contact_spec(c).len())),
{
    let a1 = "{\"public_key\":"@;
    let f1 = render_key_spec(c.key);
    let a2 = ",\"alias\":"@;
    let f2 = render_opt_spec(c.alias);
    let a3 = ",\"relay_hint\":"@;
    let f3 = render_opt_spec(c.relay_hint);
    let a4 = "}"@;
    lemma_chunk(t, i, a1, f1 + (a2 + (f2 + (a3 + (f3 + a4)))));
    let p1 = i + a1.len();
    lemma_chunk(t, p1, f1, a2 + (f2 + (a3 + (f3 + a4))));
    let p2 = p1 + f1.len();
    lemma_chunk(t, p2, a2, f2 + (a3 + (f3 + a4)));
    let p3 = p2 + a2.len();
    lemma_chunk(t, p3, f2, a3 + (f3 + a4));
    let p4 = p3 + f2.len();
    lemma_chunk(t, p4, a3, f3 + a4);
    let p5 = p4 + a3.len();
    lemma_chunk(t, p5, f3, a4);
    let p6 = p5 + f3.len();
    lemma_key_elem_round_trip(t, p1, c.key);
    lemma_opt_round_trip(t, p3, c.alias);
    lemma_opt_round_trip(t, p5, c.relay_hint);
    assert(parse_lit_spec(t, i, a1) == Some(p1));
    assert(parse_lit_spec(t, p2, a2) == Some(p3));
    assert(parse_lit_spec(t, p4, a3) == Some(p5));
    assert(parse_lit_spec(t, p6, a4) == Some(p6 + a4.len()));
}

/// The rendering of the profile metadata.
pub open spec fn render_metadata_spec(m: MetadataView) -> Seq<char> {
    "{\"name\":"@ + (render_opt_spec(m.name) + (",\"display_name\":"@ + (render_opt_spec(
        m.display_name,
    ) + (",\"about\":"@ + (render_opt_spec(m.about) + (",\"picture\":"@ + (render_opt_spec(
        m.picture,
    ) + (",\"nip05\":"@ + (render_opt_spec(m.nip05) + "}"@)))))))))
}

/// The profile metadata read from position `i`.
pub open spec fn parse_metadata_spec(s: Seq<char>, i: int) -> Option<(MetadataView, int)> {
    match parse_lit_spec(s, i, "{\"name\":"@) {
        None => None,
        Some(j1) => match parse_opt_spec(s, j1) {
            None => None,
            Some(name) => match parse_lit_spec(s, name.1, ",\"display_name\":"@) {
                None => None,
                Some(j2) => match parse_opt_spec(s, j2) {
                    None => None,
                    Some(dn) => match parse_lit_spec(s, dn.1, ",\"about\":"@) {
                        None => None,
                        Some(j3) => match parse_opt_spec(s, j3) {
                            None => None,
                            Some(ab) => match parse_lit_spec(s, ab.1, ",\"picture\":"@) {
                                None => None,
                                Some(j4) => match parse_opt_spec(s, j4) {
                                    None => None,
                                    Some(pi) => match parse_lit_spec(s, pi.1, ",\"nip05\":"@) {
                                        None => None,
                                        Some(j5) => match parse_opt_spec(s, j5) {
                                            None => None,
                                            Some(ni) => match parse_lit_spec(s, ni.1, "}"@) {
                                                None => None,
                                                Some(j6) => Some(
                                                    (
                                                        MetadataView {
                                                            name: name.0,
                                                            display_name: dn.0,
                                                            about: ab.0,
                                                            picture: pi.0,
                                                            nip05: ni.0,
                                                        },
                                                        j6,
                                                    ),
                                                ),
                                            },
                                        },
                                    },
                                },
                            },
                        },
                    },
                },
            },
        },
    }
}

/// Whether every metadata field is storable.
pub open spec fn metadata_strings_ok(m: MetadataView) -> bool {
    opt_ok(m.name) && opt_ok(m.display_name) && opt_ok(m.about) && opt_ok(m.picture) && opt_ok(
        m.nip05,
    )
}

/// Reading rendered metadata gives it back.
pub proof fn lemma_metadata_round_trip(t: Seq<char>, i: int, m: MetadataView)
    requires
        metadata_strings_ok(m),
        0 <= i,
        i + render_metadata_spec(m).len() <= t.len(),
        t.subrange(i, i + render_metadata_spec(m).len()) == render_metadata_spec(m),
    ensures
        parse_metadata_spec(t, i) == Some((m, i + render_metadata_spec(m).len())),
{
    let a1 = "{\"name\":"@;
    let f1 = render_opt_spec(m.name);
    let a2 = ",\"display_name\":"@;
    let f2 = render_opt_spec(m.display_name);
    let a3 = ",\"about\":"@;
    let f3 = render_opt_spec(m.about);
    let a4 = ",\"picture\":"@;
    let f4 = render_opt_spec(m.picture);
    let a5 = ",\"nip05\":"@;
    let f5 = render_opt_spec(m.nip05);
    let a6 = "}"@;
    lemma_chunk(t, i, a1, f1 + (a2 + (f2 + (a3 + (f3 + (a4 + (f4 + (a5 + (f5 + a6)))))))));
    let p1 = i + a1.len();
    lemma_chunk(t, p1, f1, a2 + (f2 + (a3 + (f3 + (a4 + (f4 + (a5 + (f5 + a6))))))));
    let p2 = p1 + f1.len();
    lemma_chunk(t, p2, a2, f2 + (a3 + (f3 + (a4 + (f4 + (a5 + (f5 + a6)))))));
    let p3 = p2 + a2.len();
    lemma_chunk(t, p3, f2, a3 + (f3 + (a4 + (f4 + (a5 + (f5 + a6))))));
    let p4 = p3 + f2.len();
    lemma_chunk(t, p4, a3, f3 + (a4 + (f4 + (a5 + (f5 + a6)))));
    let p5 = p4 + a3.len();
    lemma_chunk(t, p5, f3, a4 + (f4 + (a5 + (f5 + a6))));
    let p6 = p5 + f3.len();
    lemma_chunk(t, p6, a4, f4 + (a5 + (f5 + a6)));
    let p7 = p6 + a4.len();
    lemma_chunk(t, p7, f4, a5 + (f5 + a6));
    let p8 = p7 + f4.len();
    lemma_chunk(t, p8, a5, f5 + a6);
    let p9 = p8 + a5.len();
    lemma_chunk(t, p9, f5, a6);
    let p10 = p9 + f5.len();
    lemma_opt_round_trip(t, p1, m.name);
    lemma_opt_round_trip(t, p3, m.display_name);
    lemma_opt_round_trip(t, p5, m.about);
    lemma_opt_round_trip(t, p7, m.picture);
    lemma_opt_round_trip(t, p9, m.nip05);
    assert(parse_lit_spec(t, i, a1) == Some(p1));
    assert(parse_lit_spec(t, p2, a2) == Some(p3));
    assert(parse_lit_spec(t, p4, a3) == Some(p5));
    assert(parse_lit_spec(t, p6, a4) == Some(p7));
    assert(parse_lit_spec(t, p8, a5) == Some(p9));
    assert(parse_lit_spec(t, p10, a6) == Some(p10 + a6.len()));
}


// ---------------------------------------------------------------------------
// The lists of the credential file.
// ---------------------------------------------------------------------------
/// The renderer of one key, as a function value.
pub open spec fn key_rend() -> spec_fn(Seq<u8>) -> Seq<char> {
    |b: Seq<u8>| render_key_spec(b)
}

/// The parser of one key, as a function value.
pub open spec fn key_elem() -> spec_fn(Seq<char>, int) -> Option<(Seq<u8>, int)> {
    |s: Seq<char>, i: int| parse_key_spec(s, i)
}

/// The renderer of one relay endpoint, as a function value.
pub open spec fn relay_rend() -> spec_fn(RelayView) -> Seq<char> {
    |r: RelayView| render_relay_spec(r)
}

/// The parser of one relay endpoint, as a function value.
pub open spec fn relay_elem() -> spec_fn(Seq<char>, int) -> Option<(RelayView, int)> {
    |s: Seq<char>, i: int| parse_relay_spec(s, i)
}

/// The renderer of one contact entry, as a function value.
pub open spec fn contact_rend() -> spec_fn(ContactView) -> Seq<char> {
    |c: ContactView| render_contact_spec(c)
}

/// The parser of one contact entry, as a function value.
pub open spec fn contact_elem() -> spec_fn(Seq<char>, int) -> Option<(ContactView, int)> {
    |s: Seq<char>, i: int| parse_contact_spec(s, i)
}

/// Whether every relay of the list holds storable strings.
pub open spec fn relay_strings_ok(rs: Seq<RelayView>) -> bool {
    forall|n: int|
        0 <= n < rs.len() ==> str_ok((#[trigger] rs[n]).url) && opt_ok(rs[n].proxy)
}

/// Whether every contact of the list holds storable strings.
pub open spec fn contact_strings_ok(cs: Seq<ContactView>) -> bool {
    forall|n: int|
        0 <= n < cs.len() ==> opt_ok((#[trigger] cs[n]).alias) && opt_ok(cs[n].relay_hint)
}

/// Reading a rendered key list gives it back.
pub proof fn lemma_keys_round_trip(t: Seq<char>, i: int, ks: Seq<Seq<u8>>)
    requires
        crate::store::keys_wf(ks),
        0 <= i,
        i + render_list_spec(ks, key_rend()).len() <= t.len(),
        t.subrange(i, i + render_list_spec(ks, key_rend()).len()) == render_list_spec(
            ks,
            key_rend(),
        ),
    ensures
        parse_list_spec(t, i, key_elem()) == Some(
            (ks, i + render_list_spec(ks, key_rend()).len()),
        ),
{
    assert(elems_parse_back(t, ks, key_rend(), key_elem())) by {
        assert forall|n: int, k: int|
            #![trigger ks[n], key_elem()(t, k)]
            0 <= n < ks.len() && 0 <= k && k + key_rend()(ks[n]).len() <= t.len() && t.subrange(
                k,
                k + key_rend()(ks[n]).len(),
            ) == key_rend()(ks[n]) implies key_elem()(t, k) == Some(
            (ks[n], k + key_rend()(ks[n]).len()),
        ) by {
            lemma_key_elem_round_trip(t, k, ks[n]);
        }
    }
    assert(rend_delimited(ks, key_rend())) by {
        assert forall|n: int| 0 <= n < ks.len() implies key_rend()(#[trigger] ks[n]).len() > 0
            && key_rend()(ks[n])[0] != ']' by {
            assert(render_key_spec(ks[n])[0] == '"');
        }
    }
    lemma_list_round_trip(t, i, ks, key_rend(), key_elem());
}

/// Reading a rendered relay list gives it back.
pub proof fn lemma_relays_round_trip(t: Seq<char>, i: int, rs: Seq<RelayView>)
    requires
        relay_strings_ok(rs),
        0 <= i,
        i + render_list_spec(rs, relay_rend()).len() <= t.len(),
        t.subrange(i, i + render_list_spec(rs, relay_rend()).len()) == render_list_spec(
            rs,
            relay_rend(),
        ),
    ensures
        parse_list_spec(t, i, relay_elem()) == Some(
            (rs, i + render_list_spec(rs, relay_rend()).len()),
        ),
{
    reveal_strlit("{\"url\":");
    assert(elems_parse_back(t, rs, relay_rend(), relay_elem())) by {
        assert forall|n: int, k: int|
            #![trigger rs[n], relay_elem()(t, k)]
            0 <= n < rs.len() && 0 <= k && k + relay_rend()(rs[n]).len() <= t.len() && t.subrange(
                k,
                k + relay_rend()(rs[n]).len(),
            ) == relay_rend()(rs[n]) implies relay_elem()(t, k) == Some(
            (rs[n], k + relay_rend()(rs[n]).len()),
        ) by {
            lemma_relay_round_trip(t, k, rs[n]);
        }
    }
    assert(rend_delimited(rs, relay_rend())) by {
        assert forall|n: int| 0 <= n < rs.len() implies relay_rend()(#[trigger] rs[n]).len() > 0
            && relay_rend()(rs[n])[0] != ']' by {
            assert(render_relay_spec(rs[n])[0] == "{\"url\":"@[0]);
        }
    }
    lemma_list_round_trip(t, i, rs, relay_rend(), relay_elem());
}

/// Reading a rendered contact list gives it back.
pub proof fn lemma_contacts_round_trip(t: Seq<char>, i: int, cs: Seq<ContactView>)
    requires
        crate::contacts::contacts_wf(cs),
        contact_strings_ok(cs),
        0 <= i,
        i + render_list_spec(cs, contact_rend()).len() <= t.len(),
        t.subrange(i, i + render_list_spec(cs, contact_rend()).len()) == render_list_spec(
            cs,
            contact_rend(),
        ),
    ensures
        parse_list_spec(t, i, contact_elem()) == Some(
            (cs, i + render_list_spec(cs, contact_rend()).len()),
        ),
{
    reveal_strlit("{\"public_key\":");
    assert(elems_parse_back(t, cs, contact_rend(), contact_elem())) by {
        assert forall|n: int, k: int|
            #![trigger cs[n], contact_elem()(t, k)]
            0 <= n < cs.len() && 0 <= k && k + contact_rend()(cs[n]).len() <= t.len()
                && t.subrange(k, k + contact_rend()(cs[n]).len()) == contact_rend()(
                cs[n],
            ) implies contact_elem()(t, k) == Some((cs[n], k + contact_rend()(cs[n]).len())) by {
            lemma_contact_round_trip(t, k, cs[n]);
        }
    }
    assert(rend_delimited(cs, contact_rend())) by {
        assert forall|n: int| 0 <= n < cs.len() implies contact_rend()(#[trigger] cs[n]).len() > 0
            && contact_rend()(cs[n])[0] != ']' by {
            assert(render_contact_spec(cs[n])[0] == "{\"public_key\":"@[0]);
        }
    }
    lemma_list_round_trip(t, i, cs, contact_rend(), contact_elem());
}

// ---------------------------------------------------------------------------
// The whole credential file.
// ---------------------------------------------------------------------------
/// The canonical rendering of the credential state: one JSON object, each
/// member on its own line, members in a fixed order.
pub open spec fn render_credentials_spec(c: CredentialsView) -> Seq<char> {
    "{\n\"secret_key\":"@ + (render_string_spec(c.secret_key) + (",\n\"public_key\":"@ + (
    render_string_spec(c.public_key) + (",\n\"relays\":"@ + (render_list_spec(
        c.relays,
        relay_rend(),
    ) + (",\n\"metadata\":"@ + (render_metadata_spec(c.metadata) + (",\n\"contacts\":"@ + (
    render_list_spec(c.contacts, contact_rend()) + (",\n\"subscribed_pubkeys\":"@ + (
    render_list_spec(c.subscribed_pubkeys, key_rend()) + (",\n\"subscribed_authors\":"@ + (
    render_list_spec(c.subscribed_authors, key_rend()) + (",\n\"subscribed_channels\":"@ + (
    render_list_spec(c.subscribed_channels, key_rend()) + "\n}"@)))))))))))))))
}

/// The credential state read from position `i` in its canonical rendering.
pub open spec fn parse_credentials_spec(s: Seq<char>, i: int) -> Option<(CredentialsView, int)> {
    match parse_lit_spec(s, i, "{\n\"secret_key\":"@) {
        None => None,
        Some(j1) => match parse_string_spec(s, j1) {
            None => None,
            Some(sk) => match parse_lit_spec(s, sk.1, ",\n\"public_key\":"@) {
                None => None,
                Some(j2) => match parse_string_spec(s, j2) {
                    None => None,
                    Some(pk) => match parse_lit_spec(s, pk.1, ",\n\"relays\":"@) {
                        None => None,
                        Some(j3) => match parse_list_spec(s, j3, relay_elem()) {
                            None => None,
                            Some(rl) => match parse_lit_spec(s, rl.1, ",\n\"metadata\":"@) {
                                None => None,
                                Some(j4) => match parse_metadata_spec(s, j4) {
                                    None => None,
                                    Some(md) => match parse_lit_spec(
                                        s,
                                        md.1,
                                        ",\n\"contacts\":"@,
                                    ) {
                                        None => None,
                                        Some(j5) => match parse_list_spec(s, j5, contact_elem()) {
                                            None => None,
                                            Some(ct) => match parse_lit_spec(
                                                s,
                                                ct.1,
                                                ",\n\"subscribed_pubkeys\":"@,
                                            ) {
                                                None => None,
                                                Some(j6) => match parse_list_spec(
                                                    s,
                                                    j6,
                                                    key_elem(),
                                                ) {
                                                    None => None,
                                                    Some(sp) => match parse_lit_spec(
                                                        s,
                                                        sp.1,
                                                        ",\n\"subscribed_authors\":"@,
                                                    ) {
                                                        None => None,
                                                        Some(j7) => match parse_list_spec(
                                                            s,
                                                            j7,
                                                            key_elem(),
                                                        ) {
                                                            None => None,
                                                            Some(sa) => match parse_lit_spec(
                                                                s,
                                                                sa.1,
                                                                ",\n\"subscribed_channels\":"@,
                                                            ) {
                                                                None => None,
                                                                Some(j8) => match parse_list_spec(
                                                                    s,
                                                                    j8,
                                                                    key_elem(),
                                                                ) {
                                                                    None => None,
                                                                    Some(sc) => match parse_lit_spec(
                                                                        s,
                                                                        sc.1,
                                                                        "\n}"@,
                                                                    ) {
                                                                        None => None,
                                                                        Some(j9) => Some(
                                                                            (
                                                                                CredentialsView {
                                                                                    secret_key: sk.0,
                                                                                    public_key: pk.0,
                                                                                    relays: rl.0,
                                                                                    metadata: md.0,
                                                                                    contacts: ct.0,
                                                                                    subscribed_pubkeys: sp.0,
                                                                                    subscribed_authors: sa.0,
                                                                                    subscribed_channels: sc.0,
                                                                                },
                                                                                j9,
                                                                            ),
                                                                        ),
                                                                    },
                                                                },
                                                            },
                                                        },
                                                    },
                                                },
                                            },
                                        },
                                    },
                                },
                            },
                        },
                    },
                },
            },
        },
    }
}

/// Whether every string of the state is storable.
pub open spec fn cred_strings_ok(c: CredentialsView) -> bool {
    str_ok(c.secret_key) && str_ok(c.public_key) && relay_strings_ok(c.relays)
        && metadata_strings_ok(c.metadata) && contact_strings_ok(c.contacts)
}

/// Reading a rendered credential state at its position gives it back.
#[verifier::rlimit(100)]
#[verifier::spinoff_prover]
pub proof fn lemma_credentials_round_trip(t: Seq<char>, i: int, c: CredentialsView)
    requires
        crate::store::cred_wf(c),
        cred_strings_ok(c),
        0 <= i,
        i + render_credentials_spec(c).len() <= t.len(),
        t.subrange(i, i + render_credentials_spec(c).len()) == render_credentials_spec(c),
    ensures
        parse_credentials_spec(t, i) == Some((c, i + render_credentials_spec(c).len())),
{
    let a1 = "{\n\"secret_key\":"@;
    let f1 = render_string_spec(c.secret_key);
    let a2 = ",\n\"public_key\":"@;
    let f2 = render_string_spec(c.public_key);
    let a3 = ",\n\"relays\":"@;
    let f3 = render_list_spec(c.relays, relay_rend());
    let a4 = ",\n\"metadata\":"@;
    let f4 = render_metadata_spec(c.metadata);
    let a5 = ",\n\"contacts\":"@;
    let f5 = render_list_spec(c.contacts, contact_rend());
    let a6 = ",\n\"subscribed_pubkeys\":"@;
    let f6 = render_list_spec(c.subscribed_pubkeys, key_rend());
    let a7 = ",\n\"subscribed_authors\":"@;
    let f7 = render_list_spec(c.subscribed_authors, key_rend());
    let a8 = ",\n\"subscribed_channels\":"@;
    let f8 = render_list_spec(c.subscribed_channels, key_rend());
    let a9 = "\n}"@;
    lemma_chunk(
        t,
        i,
        a1,
        f1 + (a2 + (f2 + (a3 + (f3 + (a4 + (f4 + (a5 + (f5 + (a6 + (f6 + (a7 + (f7 + (a8 + (f8
            + a9)))))))))))))),
    );
    let p1 = i + a1.len();
    lemma_chunk(
        t,
        p1,
        f1,
        a2 + (f2 + (a3 + (f3 + (a4 + (f4 + (a5 + (f5 + (a6 + (f6 + (a7 + (f7 + (a8 + (f8
            + a9))))))))))))),
    );
    let p2 = p1 + f1.len();
    lemma_chunk(
        t,
        p2,
        a2,
        f2 + (a3 + (f3 + (a4 + (f4 + (a5 + (f5 + (a6 + (f6 + (a7 + (f7 + (a8 + (f8 + a9)))))))))))),
    );
    let p3 = p2 + a2.len();
    lemma_chunk(
        t,
        p3,
        f2,
        a3 + (f3 + (a4 + (f4 + (a5 + (f5 + (a6 + (f6 + (a7 + (f7 + (a8 + (f8 + a9))))))))))),
    );
    let p4 = p3 + f2.len();
    lemma_chunk(
        t,
        p4,
        a3,
        f3 + (a4 + (f4 + (a5 + (f5 + (a6 + (f6 + (a7 + (f7 + (a8 + (f8 + a9)))))))))),
    );
    let p5 = p4 + a3.len();
    lemma_chunk(t, p5, f3, a4 + (f4 + (a5 + (f5 + (a6 + (f6 + (a7 + (f7 + (a8 + (f8 + a9))))))))));
    let p6 = p5 + f3.len();
    lemma_chunk(t, p6, a4, f4 + (a5 + (f5 + (a6 + (f6 + (a7 + (f7 + (a8 + (f8 + a9)))))))));
    let p7 = p6 + a4.len();
    lemma_chunk(t, p7, f4, a5 + (f5 + (a6 + (f6 + (a7 + (f7 + (a8 + (f8 + a9))))))));
    let p8 = p7 + f4.len();
    lemma_chunk(t, p8, a5, f5 + (a6 + (f6 + (a7 + (f7 + (a8 + (f8 + a9)))))));
    let p9 = p8 + a5.len();
    lemma_chunk(t, p9, f5, a6 + (f6 + (a7 + (f7 + (a8 + (f8 + a9))))));
    let p10 = p9 + f5.len();
    lemma_chunk(t, p10, a6, f6 + (a7 + (f7 + (a8 + (f8 + a9)))));
    let p11 = p10 + a6.len();
    lemma_chunk(t, p11, f6, a7 + (f7 + (a8 + (f8 + a9))));
    let p12 = p11 + f6.len();
    lemma_chunk(t, p12, a7, f7 + (a8 + (f8 + a9)));
    let p13 = p12 + a7.len();
    lemma_chunk(t, p13, f7, a8 + (f8 + a9));
    let p14 = p13 + f7.len();
    lemma_chunk(t, p14, a8, f8 + a9);
    let p15 = p14 + a8.len();
    lemma_chunk(t, p15, f8, a9);
    let p16 = p15 + f8.len();
    lemma_string_round_trip(t, p1, c.secret_key);
    lemma_string_round_trip(t, p3, c.public_key);
    lemma_relays_round_trip(t, p5, c.relays);
    lemma_metadata_round_trip(t, p7, c.metadata);
    lemma_contacts_round_trip(t, p9, c.contacts);
    lemma_keys_round_trip(t, p11, c.subscribed_pubkeys);
    lemma_keys_round_trip(t, p13, c.subscribed_authors);
    lemma_keys_round_trip(t, p15, c.subscribed_channels);
    assert(parse_lit_spec(t, i, a1) == Some(p1));
    assert(parse_lit_spec(t, p2, a2) == Some(p3));
    assert(parse_lit_spec(t, p4, a3) == Some(p5));
    assert(parse_lit_spec(t, p6, a4) == Some(p7));
    assert(parse_lit_spec(t, p8, a5) == Some(p9));
    assert(parse_lit_spec(t, p10, a6) == Some(p11));
    assert(parse_lit_spec(t, p12, a7) == Some(p13));
    assert(parse_lit_spec(t, p14, a8) == Some(p15));
    assert(parse_lit_spec(t, p16, a9) == Some(p16 + a9.len()));
}

/// Loading inverts saving: the canonical rendering of any well-formed
/// credential state whose strings are storable reads back as exactly that
/// state, consuming the whole text.
pub proof fn lemma_save_load_round_trip(c: CredentialsView)
    requires
        crate::store::cred_wf(c),
        cred_strings_ok(c),
    ensures
        parse_credentials_spec(render_credentials_spec(c), 0) == Some(
            (c, render_credentials_spec(c).len() as int),
        ),
{
    let t = render_credentials_spec(c);
    assert(t.subrange(0, t.len() as int) =~= t);
    lemma_credentials_round_trip(t, 0, c);
}


// ---------------------------------------------------------------------------
// Rendering, executable.
// ---------------------------------------------------------------------------
/// Escaping distributes over concatenation.
proof fn lemma_esc_str_app(a: Seq<char>, b: Seq<char>)
    ensures
        esc_str(a + b) == esc_str(a) + esc_str(b),
    decreases a.len(),
{
    if a.len() == 0 {
        assert(a + b =~= b);
        assert(esc_str(a) + esc_str(b) =~= esc_str(b));
    } else {
        assert((a + b).skip(1) =~= a.skip(1) + b);
        lemma_esc_str_app(a.skip(1), b);
        assert(esc_char((a + b)[0]) + (esc_str(a.skip(1)) + esc_str(b)) =~= (esc_char(a[0])
            + esc_str(a.skip(1))) + esc_str(b));
    }
}

/// Appends the characters of a text.
pub fn push_lit(out: &mut Vec<char>, lit: &str)
    ensures
        final(out)@ == old(out)@ + lit@,
{
    let n = lit.unicode_len();
    let mut i: usize = 0;
    while i < n
        invariant
            i <= n,
            n == lit@.len(),
            out@ == old(out)@ + lit@.take(i as int),
        decreases n - i,
    {
        out.push(lit.get_char(i));
        proof {
            assert(out@ =~= old(out)@ + lit@.take(i + 1 as int));
        }
        i = i + 1;
    }
    proof {
        assert(lit@.take(n as int) =~= lit@);
    }
}

/// Appends the rendering of a string: quotes around the escaped body.
pub fn render_string_into(out: &mut Vec<char>, s: &str)
    ensures
        final(out)@ == old(out)@ + render_string_spec(s@),
{
    out.push('"');
    let n = s.unicode_len();
    let mut i: usize = 0;
    while i < n
        invariant
            i <= n,
            n == s@.len(),
            out@ == old(out)@ + seq!['"'] + esc_str(s@.take(i as int)),
        decreases n - i,
    {
        let c = s.get_char(i);
        if c == '"' {
            out.push('\\');
            out.push('"');
        } else if c == '\\' {
            out.push('\\');
            out.push('\\');
        } else if c == '\n' {
            out.push('\\');
            out.push('n');
        } else if c == '\r' {
            out.push('\\');
            out.push('r');
        } else if c == '\t' {
            out.push('\\');
            out.push('t');
        } else {
            out.push(c);
        }
        proof {
            lemma_esc_str_app(s@.take(i as int), seq![c]);
            assert(s@.take(i as int) + seq![c] =~= s@.take(i + 1 as int));
            assert(seq![c].skip(1) =~= Seq::<char>::empty());
            assert(esc_str(Seq::<char>::empty()) =~= Seq::<char>::empty());
            assert(esc_str(seq![c]) =~= esc_char(c));
            assert(out@ =~= old(out)@ + seq!['"'] + esc_str(s@.take(i + 1 as int)));
        }
        i = i + 1;
    }
    out.push('"');
    proof {
        assert(s@.take(n as int) =~= s@);
        assert(out@ =~= old(out)@ + render_string_spec(s@));
    }
}

/// Appends the rendering of an optional string.
pub fn render_opt_into(out: &mut Vec<char>, o: &Option<String>)
    ensures
        final(out)@ == old(out)@ + render_opt_spec(crate::text::opt_str_view(o)),
{
    match o {
        Some(s) => render_string_into(out, s.as_str()),
        None => push_lit(out, "null"),
    }
}

/// Appends the rendering of one key: its hexadecimal form as a string.
pub fn render_key_into(out: &mut Vec<char>, p: &crate::keys::Pubkey)
    ensures
        final(out)@ == old(out)@ + render_key_spec(p@),
{
    let hex = crate::keys::hex_chars_of_bytes(&p.bytes);
    let hs = crate::text::chars_to_string(&hex);
    render_string_into(out, hs.as_str());
}

/// Appends the rendering of one relay endpoint.
pub fn render_relay_into(out: &mut Vec<char>, r: &crate::relay::Relay)
    ensures
        final(out)@ == old(out)@ + render_relay_spec(r@),
{
    push_lit(out, "{\"url\":");
    render_string_into(out, r.url.as_str());
    push_lit(out, ",\"proxy\":");
    render_opt_into(out, &r.proxy);
    push_lit(out, "}");
    proof {
        assert(out@ =~= old(out)@ + render_relay_spec(r@));
    }
}

/// Appends the rendering of one contact entry.
pub fn render_contact_into(out: &mut Vec<char>, c: &crate::contacts::ContactEntry)
    ensures
        final(out)@ == old(out)@ + render_contact_spec(c@),
{
    push_lit(out, "{\"public_key\":");
    render_key_into(out, &c.public_key);
    push_lit(out, ",\"alias\":");
    render_opt_into(out, &c.alias);
    push_lit(out, ",\"relay_hint\":");
    render_opt_into(out, &c.relay_hint);
    push_lit(out, "}");
    proof {
        assert(out@ =~= old(out)@ + render_contact_spec(c@));
    }
}

/// Appends the rendering of the profile metadata.
#[verifier::rlimit(100)]
pub fn render_metadata_into(out: &mut Vec<char>, m: &crate::store::Metadata)
    ensures
        final(out)@ == old(out)@ + render_metadata_spec(m@),
{
    push_lit(out, "{\"name\":");
    render_opt_into(out, &m.name);
    push_lit(out, ",\"display_name\":");
    render_opt_into(out, &m.display_name);
    push_lit(out, ",\"about\":");
    render_opt_into(out, &m.about);
    push_lit(out, ",\"picture\":");
    render_opt_into(out, &m.picture);
    push_lit(out, ",\"nip05\":");
    render_opt_into(out, &m.nip05);
    push_lit(out, "}");
    proof {
        let m1 = "{\"name\":"@ + (render_opt_spec(m@.name) + (",\"display_name\":"@ + (
        render_opt_spec(m@.display_name) + (",\"about\":"@ + render_opt_spec(m@.about)))));
        let m2 = ",\"picture\":"@ + (render_opt_spec(m@.picture) + (",\"nip05\":"@ + (
        render_opt_spec(m@.nip05) + "}"@)));
        assert(render_metadata_spec(m@) =~= m1 + m2);
        assert(out@ =~= old(out)@ + (m1 + m2));
    }
}

/// Appends the renderings of the keys from position `i` on, separated by
/// commas.
fn render_key_items(out: &mut Vec<char>, ks: &Vec<crate::keys::Pubkey>, i: usize)
    requires
        i < ks@.len(),
    ensures
        final(out)@ == old(out)@ + render_items_spec(
            crate::store::keys_view(ks@).skip(i as int),
            key_rend(),
        ),
    decreases ks@.len() - i,
{
    let ghost s = crate::store::keys_view(ks@).skip(i as int);
    render_key_into(out, &ks[i]);
    proof {
        assert(s[0] == crate::store::keys_view(ks@)[i as int]);
    }
    let n = ks.len();
    if i < n - 1 {
        out.push(',');
        render_key_items(out, ks, i + 1);
        proof {
            assert(s.skip(1) =~= crate::store::keys_view(ks@).skip(i + 1 as int));
            assert(out@ =~= old(out)@ + render_items_spec(s, key_rend()));
        }
    } else {
        proof {
            assert(s.len() == 1);
            assert(out@ =~= old(out)@ + render_items_spec(s, key_rend()));
        }
    }
}

/// Appends the rendering of a key list.
pub fn render_keys_into(out: &mut Vec<char>, ks: &Vec<crate::keys::Pubkey>)
    ensures
        final(out)@ == old(out)@ + render_list_spec(crate::store::keys_view(ks@), key_rend()),
{
    out.push('[');
    if ks.len() > 0 {
        render_key_items(out, ks, 0);
        proof {
            assert(crate::store::keys_view(ks@).skip(0) =~= crate::store::keys_view(ks@));
        }
    } else {
        proof {
            assert(crate::store::keys_view(ks@).len() == 0);
        }
    }
    out.push(']');
    proof {
        assert(out@ =~= old(out)@ + render_list_spec(crate::store::keys_view(ks@), key_rend()));
    }
}

/// Appends the renderings of the relays from position `i` on.
fn render_relay_items(out: &mut Vec<char>, rs: &Vec<crate::relay::Relay>, i: usize)
    requires
        i < rs@.len(),
    ensures
        final(out)@ == old(out)@ + render_items_spec(
            crate::relay::relays_view(rs@).skip(i as int),
            relay_rend(),
        ),
    decreases rs@.len() - i,
{
    let ghost s = crate::relay::relays_view(rs@).skip(i as int);
    render_relay_into(out, &rs[i]);
    proof {
        assert(s[0] == crate::relay::relays_view(rs@)[i as int]);
    }
    let n = rs.len();
    if i < n - 1 {
        out.push(',');
        render_relay_items(out, rs, i + 1);
        proof {
            assert(s.skip(1) =~= crate::relay::relays_view(rs@).skip(i + 1 as int));
            assert(out@ =~= old(out)@ + render_items_spec(s, relay_rend()));
        }
    } else {
        proof {
            assert(s.len() == 1);
            assert(out@ =~= old(out)@ + render_items_spec(s, relay_rend()));
        }
    }
}

/// Appends the rendering of a relay list.
pub fn render_relays_into(out: &mut Vec<char>, rs: &Vec<crate::relay::Relay>)
    ensures
        final(out)@ == old(out)@ + render_list_spec(crate::relay::relays_view(rs@), relay_rend()),
{
    out.push('[');
    if rs.len() > 0 {
        render_relay_items(out, rs, 0);
        proof {
            assert(crate::relay::relays_view(rs@).skip(0) =~= crate::relay::relays_view(rs@));
        }
    } else {
        proof {
            assert(crate::relay::relays_view(rs@).len() == 0);
        }
    }
    out.push(']');
    proof {
        assert(out@ =~= old(out)@ + render_list_spec(
            crate::relay::relays_view(rs@),
            relay_rend(),
        ));
    }
}

/// Appends the renderings of the contacts from position `i` on.
fn render_contact_items(out: &mut Vec<char>, cs: &Vec<crate::contacts::ContactEntry>, i: usize)
    requires
        i < cs@.len(),
    ensures
        final(out)@ == old(out)@ + render_items_spec(
            crate::contacts::contacts_view(cs@).skip(i as int),
            contact_rend(),
        ),
    decreases cs@.len() - i,
{
    let ghost s = crate::contacts::contacts_view(cs@).skip(i as int);
    render_contact_into(out, &cs[i]);
    proof {
        assert(s[0] == crate::contacts::contacts_view(cs@)[i as int]);
    }
    let n = cs.len();
    if i < n - 1 {
        out.push(',');
        render_contact_items(out, cs, i + 1);
        proof {
            assert(s.skip(1) =~= crate::contacts::contacts_view(cs@).skip(i + 1 as int));
            assert(out@ =~= old(out)@ + render_items_spec(s, contact_rend()));
        }
    } else {
        proof {
            assert(s.len() == 1);
            assert(out@ =~= old(out)@ + render_items_spec(s, contact_rend()));
        }
    }
}

/// Appends the rendering of a contact list.
pub fn render_contacts_into(out: &mut Vec<char>, cs: &Vec<crate::contacts::ContactEntry>)
    ensures
        final(out)@ == old(out)@ + render_list_spec(
            crate::contacts::contacts_view(cs@),
            contact_rend(),
        ),
{
    out.push('[');
    if cs.len() > 0 {
        render_contact_items(out, cs, 0);
        proof {
            assert(crate::contacts::contacts_view(cs@).skip(0) =~= crate::contacts::contacts_view(
                cs@,
            ));
        }
    } else {
        proof {
            assert(crate::contacts::contacts_view(cs@).len() == 0);
        }
    }
    out.push(']');
    proof {
        assert(out@ =~= old(out)@ + render_list_spec(
            crate::contacts::contacts_view(cs@),
            contact_rend(),
        ));
    }
}

/// Appends the canonical rendering of the whole credential state.
#[verifier::rlimit(100)]
#[verifier::spinoff_prover]
pub fn render_credentials_into(out: &mut Vec<char>, c: &crate::store::Credentials)
    ensures
        final(out)@ == old(out)@ + render_credentials_spec(c@),
{
    push_lit(out, "{\n\"secret_key\":");
    render_string_into(out, c.secret_key_bech32.as_str());
    push_lit(out, ",\n\"public_key\":");
    render_string_into(out, c.public_key_bech32.as_str());
    push_lit(out, ",\n\"relays\":");
    render_relays_into(out, &c.relays);
    push_lit(out, ",\n\"metadata\":");
    render_metadata_into(out, &c.metadata);
    push_lit(out, ",\n\"contacts\":");
    render_contacts_into(out, &c.contacts);
    push_lit(out, ",\n\"subscribed_pubkeys\":");
    render_keys_into(out, &c.subscribed_pubkeys);
    push_lit(out, ",\n\"subscribed_authors\":");
    render_keys_into(out, &c.subscribed_authors);
    push_lit(out, ",\n\"subscribed_channels\":");
    render_keys_into(out, &c.subscribed_channels);
    push_lit(out, "\n}");
    proof {
        let c1 = "{\n\"secret_key\":"@ + (render_string_spec(c@.secret_key) + (
        ",\n\"public_key\":"@ + (render_string_spec(c@.public_key) + (",\n\"relays\":"@ + (
        render_list_spec(c@.relays, relay_rend()) + (",\n\"metadata\":"@ + render_metadata_spec(
            c@.metadata,
        )))))));
        let c2 = ",\n\"contacts\":"@ + (render_list_spec(c@.contacts, contact_rend()) + (
        ",\n\"subscribed_pubkeys\":"@ + (render_list_spec(c@.subscribed_pubkeys, key_rend()) + (
        ",\n\"subscribed_authors\":"@ + (render_list_spec(c@.subscribed_authors, key_rend()) + (
        ",\n\"subscribed_channels\":"@ + (render_list_spec(c@.subscribed_channels, key_rend())
            + "\n}"@)))))));
        assert(render_credentials_spec(c@) =~= c1 + c2);
        assert(out@ =~= old(out)@ + (c1 + c2));
    }
}


// ---------------------------------------------------------------------------
// Parsing, executable.
// ---------------------------------------------------------------------------
/// Reads the given literal at position `i`.
pub fn expect_lit(v: &Vec<char>, i: usize, lit: &str) -> (r: Option<usize>)
    ensures
        match r {
            Some(j) => parse_lit_spec(v@, i as int, lit@) == Some(j as int) && i <= j <= v@.len()
                && j == i + lit@.len(),
            None => parse_lit_spec(v@, i as int, lit@) is None,
        },
{
    let n = lit.unicode_len();
    let vn = v.len();
    if i > vn || n > vn - i {
        return None;
    }
    let mut k: usize = 0;
    while k < n
        invariant
            k <= n,
            n == lit@.len(),
            vn == v@.len(),
            i + n <= vn,
            i + n <= v@.len(),
            forall|m: int| 0 <= m < k ==> v@[i + m] == lit@[m],
        decreases n - k,
    {
        if v[i + k] != lit.get_char(k) {
            proof {
                assert(v@.subrange(i as int, i + n as int)[k as int] != lit@[k as int]);
            }
            return None;
        }
        k = k + 1;
    }
    proof {
        assert(v@.subrange(i as int, i + n as int) =~= lit@);
    }
    Some(i + n)
}

/// Reads a string at position `i`: the characters between quotes, with the
/// five escapes resolved.
pub fn parse_string_at(v: &Vec<char>, i: usize) -> (r: Option<(Vec<char>, usize)>)
    ensures
        match r {
            Some(p) => parse_string_spec(v@, i as int) == Some((p.0@, p.1 as int)) && i < p.1
                <= v@.len(),
            None => parse_string_spec(v@, i as int) is None,
        },
{
    let vn = v.len();
    if !(i < vn && v[i] == '"') {
        return None;
    }
    let mut acc: Vec<char> = Vec::new();
    let mut p: usize = i + 1;
    loop
        invariant
            i + 1 <= p <= v@.len(),
            v@.len() == vn,
            i < vn,
            v@[i as int] == '"',
            parse_str_body(v@, i + 1 as int, Seq::empty()) == parse_str_body(v@, p as int, acc@),
        decreases v@.len() - p,
    {
        if p >= vn {
            return None;
        }
        let c = v[p];
        if c == '"' {
            proof {
                assert(parse_str_body(v@, p as int, acc@) == Some((acc@, p + 1 as int)));
            }
            return Some((acc, p + 1));
        } else if c == '\\' {
            if p + 1 >= vn {
                return None;
            }
            let e = v[p + 1];
            if e == '"' {
                acc.push('"');
            } else if e == '\\' {
                acc.push('\\');
            } else if e == 'n' {
                acc.push('\n');
            } else if e == 'r' {
                acc.push('\r');
            } else if e == 't' {
                acc.push('\t');
            } else {
                return None;
            }
            p = p + 2;
        } else if (c as u32) < 0x20 {
            return None;
        } else {
            acc.push(c);
            p = p + 1;
        }
    }
}

/// Reads an optional string at position `i`: a string, or the literal
/// `null`.
pub fn parse_opt_at(v: &Vec<char>, i: usize) -> (r: Option<(Option<String>, usize)>)
    ensures
        match r {
            Some(p) => parse_opt_spec(v@, i as int) == Some(
                (crate::text::opt_str_view(&p.0), p.1 as int),
            ) && i < p.1 <= v@.len(),
            None => parse_opt_spec(v@, i as int) is None,
        },
{
    if i < v.len() && v[i] == '"' {
        match parse_string_at(v, i) {
            Some(p) => {
                let s = crate::text::chars_to_string(&p.0);
                Some((Some(s), p.1))
            },
            None => None,
        }
    } else {
        match expect_lit(v, i, "null") {
            Some(j) => {
                proof {
                    reveal_strlit("null");
                }
                Some((None, j))
            },
            None => None,
        }
    }
}

/// Reads one key at position `i`: a hexadecimal string that names a valid
/// curve point.
pub fn parse_key_at(v: &Vec<char>, i: usize) -> (r: Option<(crate::keys::Pubkey, usize)>)
    ensures
        match r {
            Some(p) => parse_key_spec(v@, i as int) == Some((p.0@, p.1 as int)) && p.0.wf() && i
                < p.1 <= v@.len(),
            None => parse_key_spec(v@, i as int) is None,
        },
{
    match parse_string_at(v, i) {
        Some(p) => match crate::keys::bytes_from_hex_chars(&p.0) {
            Some(b) => {
                if b.len() == 32 && crate::keys::point_check(&b) {
                    Some((crate::keys::Pubkey { bytes: b }, p.1))
                } else {
                    None
                }
            },
            None => None,
        },
        None => None,
    }
}

/// Reads one relay endpoint at position `i`.
pub fn parse_relay_at(v: &Vec<char>, i: usize) -> (r: Option<(crate::relay::Relay, usize)>)
    ensures
        match r {
            Some(p) => parse_relay_spec(v@, i as int) == Some((p.0@, p.1 as int)) && i < p.1
                <= v@.len(),
            None => parse_relay_spec(v@, i as int) is None,
        },
{
    let j1 = match expect_lit(v, i, "{\"url\":") {
        Some(j) => j,
        None => {
            return None;
        },
    };
    let (url, j2) = match parse_string_at(v, j1) {
        Some(p) => p,
        None => {
            return None;
        },
    };
    let j3 = match expect_lit(v, j2, ",\"proxy\":") {
        Some(j) => j,
        None => {
            return None;
        },
    };
    let (proxy, j4) = match parse_opt_at(v, j3) {
        Some(p) => p,
        None => {
            return None;
        },
    };
    let j5 = match expect_lit(v, j4, "}") {
        Some(j) => j,
        None => {
            return None;
        },
    };
    proof {
        reveal_strlit("{\"url\":");
    }
    let u = crate::text::chars_to_string(&url);
    Some((crate::relay::Relay { url: u, proxy }, j5))
}

/// Reads one contact entry at position `i`.
pub fn parse_contact_at(v: &Vec<char>, i: usize) -> (r: Option<
    (crate::contacts::ContactEntry, usize),
>)
    ensures
        match r {
            Some(p) => parse_contact_spec(v@, i as int) == Some((p.0@, p.1 as int))
                && p.0.public_key.wf() && i < p.1 <= v@.len(),
            None => parse_contact_spec(v@, i as int) is None,
        },
{
    let j1 = match expect_lit(v, i, "{\"public_key\":") {
        Some(j) => j,
        None => {
            return None;
        },
    };
    let (key, j2) = match parse_key_at(v, j1) {
        Some(p) => p,
        None => {
            return None;
        },
    };
    let j3 = match expect_lit(v, j2, ",\"alias\":") {
        Some(j) => j,
        None => {
            return None;
        },
    };
    let (alias, j4) = match parse_opt_at(v, j3) {
        Some(p) => p,
        None => {
            return None;
        },
    };
    let j5 = match expect_lit(v, j4, ",\"relay_hint\":") {
        Some(j) => j,
        None => {
            return None;
        },
    };
    let (hint, j6) = match parse_opt_at(v, j5) {
        Some(p) => p,
        None => {
            return None;
        },
    };
    let j7 = match expect_lit(v, j6, "}") {
        Some(j) => j,
        None => {
            return None;
        },
    };
    proof {
        reveal_strlit("{\"public_key\":");
    }
    Some((crate::contacts::ContactEntry { public_key: key, alias, relay_hint: hint }, j7))
}

/// Reads the profile metadata at position `i`.
#[verifier::rlimit(60)]
pub fn parse_metadata_at(v: &Vec<char>, i: usize) -> (r: Option<(crate::store::Metadata, usize)>)
    ensures
        match r {
            Some(p) => parse_metadata_spec(v@, i as int) == Some((p.0@, p.1 as int)) && i < p.1
                <= v@.len(),
            None => parse_metadata_spec(v@, i as int) is None,
        },
{
    let j1 = match expect_lit(v, i, "{\"name\":") {
        Some(j) => j,
        None => {
            return None;
        },
    };
    let (name, j2) = match parse_opt_at(v, j1) {
        Some(p) => p,
        None => {
            return None;
        },
    };
    let j3 = match expect_lit(v, j2, ",\"display_name\":") {
        Some(j) => j,
        None => {
            return None;
        },
    };
    let (display_name, j4) = match parse_opt_at(v, j3) {
        Some(p) => p,
        None => {
            return None;
        },
    };
    let j5 = match expect_lit(v, j4, ",\"about\":") {
        Some(j) => j,
        None => {
            return None;
        },
    };
    let (about, j6) = match parse_opt_at(v, j5) {
        Some(p) => p,
        None => {
            return None;
        },
    };
    let j7 = match expect_lit(v, j6, ",\"picture\":") {
        Some(j) => j,
        None => {
            return None;
        },
    };
    let (picture, j8) = match parse_opt_at(v, j7) {
        Some(p) => p,
        None => {
            return None;
        },
    };
    let j9 = match expect_lit(v, j8, ",\"nip05\":") {
        Some(j) => j,
        None => {
            return None;
        },
    };
    let (nip05, j10) = match parse_opt_at(v, j9) {
        Some(p) => p,
        None => {
            return None;
        },
    };
    let j11 = match expect_lit(v, j10, "}") {
        Some(j) => j,
        None => {
            return None;
        },
    };
    proof {
        reveal_strlit("{\"name\":");
    }
    Some((crate::store::Metadata { name, display_name, about, picture, nip05 }, j11))
}


/// Reads a key list at position `i`.
pub fn parse_keys_at(v: &Vec<char>, i: usize) -> (r: Option<(Vec<crate::keys::Pubkey>, usize)>)
    ensures
        match r {
            Some(p) => parse_list_spec(v@, i as int, key_elem()) == Some(
                (crate::store::keys_view(p.0@), p.1 as int),
            ) && crate::store::keys_wf(crate::store::keys_view(p.0@)) && i < p.1 <= v@.len(),
            None => parse_list_spec(v@, i as int, key_elem()) is None,
        },
{
    let vn = v.len();
    if !(i < vn && v[i] == '[') {
        return None;
    }
    if i + 1 < vn && v[i + 1] == ']' {
        let empty: Vec<crate::keys::Pubkey> = Vec::new();
        proof {
            assert(crate::store::keys_view(empty@) =~= Seq::<Seq<u8>>::empty());
        }
        return Some((empty, i + 2));
    }
    let mut acc: Vec<crate::keys::Pubkey> = Vec::new();
    let mut p: usize = i + 1;
    proof {
        assert(crate::store::keys_view(acc@) =~= Seq::<Seq<u8>>::empty());
        assert(Seq::<Seq<u8>>::empty() + parse_items_spec(v@, p as int, key_elem())->Some_0.0
            =~= parse_items_spec(v@, p as int, key_elem())->Some_0.0);
    }
    loop
        invariant
            i + 1 <= p <= v@.len(),
            v@.len() == vn,
            i < vn,
            v@[i as int] == '[',
            !(i + 1 < vn && v@[i + 1 as int] == ']'),
            crate::store::keys_wf(crate::store::keys_view(acc@)),
            match parse_items_spec(v@, p as int, key_elem()) {
                Some(q) => parse_items_spec(v@, i + 1 as int, key_elem()) == Some(
                    (crate::store::keys_view(acc@) + q.0, q.1),
                ),
                None => parse_items_spec(v@, i + 1 as int, key_elem()) is None,
            },
        decreases v@.len() - p,
    {
        let ghost before = crate::store::keys_view(acc@);
        match parse_key_at(v, p) {
            None => {
                return None;
            },
            Some((x, j)) => {
                let ghost xv = x@;
                if j < vn && v[j] == ',' {
                    acc.push(x);
                    proof {
                        assert(crate::store::keys_view(acc@) =~= before.push(xv));
                        assert(before.push(xv) =~= before + seq![xv]);
                        match parse_items_spec(v@, j + 1 as int, key_elem()) {
                            Some(q) => {
                                assert((before + seq![xv]) + q.0 =~= before + (seq![xv] + q.0));
                            },
                            None => {},
                        }
                    }
                    p = j + 1;
                } else if j < vn && v[j] == ']' {
                    acc.push(x);
                    proof {
                        assert(crate::store::keys_view(acc@) =~= before.push(xv));
                        assert(before.push(xv) =~= before + seq![xv]);
                        assert(parse_items_spec(v@, p as int, key_elem()) == Some(
                            (seq![xv], j + 1 as int),
                        ));
                    }
                    return Some((acc, j + 1));
                } else {
                    return None;
                }
            },
        }
    }
}

/// Reads a relay list at position `i`.
pub fn parse_relays_at(v: &Vec<char>, i: usize) -> (r: Option<(Vec<crate::relay::Relay>, usize)>)
    ensures
        match r {
            Some(p) => parse_list_spec(v@, i as int, relay_elem()) == Some(
                (crate::relay::relays_view(p.0@), p.1 as int),
            ) && i < p.1 <= v@.len(),
            None => parse_list_spec(v@, i as int, relay_elem()) is None,
        },
{
    let vn = v.len();
    if !(i < vn && v[i] == '[') {
        return None;
    }
    if i + 1 < vn && v[i + 1] == ']' {
        let empty: Vec<crate::relay::Relay> = Vec::new();
        proof {
            assert(crate::relay::relays_view(empty@) =~= Seq::<crate::relay::RelayView>::empty());
        }
        return Some((empty, i + 2));
    }
    let mut acc: Vec<crate::relay::Relay> = Vec::new();
    let mut p: usize = i + 1;
    proof {
        assert(crate::relay::relays_view(acc@) =~= Seq::<crate::relay::RelayView>::empty());
        assert(Seq::<crate::relay::RelayView>::empty() + parse_items_spec(
            v@,
            p as int,
            relay_elem(),
        )->Some_0.0 =~= parse_items_spec(v@, p as int, relay_elem())->Some_0.0);
    }
    loop
        invariant
            i + 1 <= p <= v@.len(),
            v@.len() == vn,
            i < vn,
            v@[i as int] == '[',
            !(i + 1 < vn && v@[i + 1 as int] == ']'),
            match parse_items_spec(v@, p as int, relay_elem()) {
                Some(q) => parse_items_spec(v@, i + 1 as int, relay_elem()) == Some(
                    (crate::relay::relays_view(acc@) + q.0, q.1),
                ),
                None => parse_items_spec(v@, i + 1 as int, relay_elem()) is None,
            },
        decreases v@.len() - p,
    {
        let ghost before = crate::relay::relays_view(acc@);
        match parse_relay_at(v, p) {
            None => {
                return None;
            },
            Some((x, j)) => {
                let ghost xv = x@;
                if j < vn && v[j] == ',' {
                    acc.push(x);
                    proof {
                        assert(crate::relay::relays_view(acc@) =~= before.push(xv));
                        assert(before.push(xv) =~= before + seq![xv]);
                        match parse_items_spec(v@, j + 1 as int, relay_elem()) {
                            Some(q) => {
                                assert((before + seq![xv]) + q.0 =~= before + (seq![xv] + q.0));
                            },
                            None => {},
                        }
                    }
                    p = j + 1;
                } else if j < vn && v[j] == ']' {
                    acc.push(x);
                    proof {
                        assert(crate::relay::relays_view(acc@) =~= before.push(xv));
                        assert(before.push(xv) =~= before + seq![xv]);
                        assert(parse_items_spec(v@, p as int, relay_elem()) == Some(
                            (seq![xv], j + 1 as int),
                        ));
                    }
                    return Some((acc, j + 1));
                } else {
                    return None;
                }
            },
        }
    }
}

/// Reads a contact list at position `i`.
pub fn parse_contacts_at(v: &Vec<char>, i: usize) -> (r: Option<
    (Vec<crate::contacts::ContactEntry>, usize),
>)
    ensures
        match r {
            Some(p) => parse_list_spec(v@, i as int, contact_elem()) == Some(
                (crate::contacts::contacts_view(p.0@), p.1 as int),
            ) && crate::contacts::contacts_wf(crate::contacts::contacts_view(p.0@)) && i < p.1
                <= v@.len(),
            None => parse_list_spec(v@, i as int, contact_elem()) is None,
        },
{
    let vn = v.len();
    if !(i < vn && v[i] == '[') {
        return None;
    }
    if i + 1 < vn && v[i + 1] == ']' {
        let empty: Vec<crate::contacts::ContactEntry> = Vec::new();
        proof {
            assert(crate::contacts::contacts_view(empty@) =~= Seq::<
                crate::contacts::ContactView,
            >::empty());
        }
        return Some((empty, i + 2));
    }
    let mut acc: Vec<crate::contacts::ContactEntry> = Vec::new();
    let mut p: usize = i + 1;
    proof {
        assert(crate::contacts::contacts_view(acc@) =~= Seq::<
            crate::contacts::ContactView,
        >::empty());
        assert(Seq::<crate::contacts::ContactView>::empty() + parse_items_spec(
            v@,
            p as int,
            contact_elem(),
        )->Some_0.0 =~= parse_items_spec(v@, p as int, contact_elem())->Some_0.0);
    }
    loop
        invariant
            i + 1 <= p <= v@.len(),
            v@.len() == vn,
            i < vn,
            v@[i as int] == '[',
            !(i + 1 < vn && v@[i + 1 as int] == ']'),
            crate::contacts::contacts_wf(crate::contacts::contacts_view(acc@)),
            match parse_items_spec(v@, p as int, contact_elem()) {
                Some(q) => parse_items_spec(v@, i + 1 as int, contact_elem()) == Some(
                    (crate::contacts::contacts_view(acc@) + q.0, q.1),
                ),
                None => parse_items_spec(v@, i + 1 as int, contact_elem()) is None,
            },
        decreases v@.len() - p,
    {
        let ghost before = crate::contacts::contacts_view(acc@);
        match parse_contact_at(v, p) {
            None => {
                return None;
            },
            Some((x, j)) => {
                let ghost xv = x@;
                if j < vn && v[j] == ',' {
                    acc.push(x);
                    proof {
                        assert(crate::contacts::contacts_view(acc@) =~= before.push(xv));
                        assert(before.push(xv) =~= before + seq![xv]);
                        match parse_items_spec(v@, j + 1 as int, contact_elem()) {
                            Some(q) => {
                                assert((before + seq![xv]) + q.0 =~= before + (seq![xv] + q.0));
                            },
                            None => {},
                        }
                    }
                    p = j + 1;
                } else if j < vn && v[j] == ']' {
                    acc.push(x);
                    proof {
                        assert(crate::contacts::contacts_view(acc@) =~= before.push(xv));
                        assert(before.push(xv) =~= before + seq![xv]);
                        assert(parse_items_spec(v@, p as int, contact_elem()) == Some(
                            (seq![xv], j + 1 as int),
                        ));
                    }
                    return Some((acc, j + 1));
                } else {
                    return None;
                }
            },
        }
    }
}

/// Reads a whole credential state at position `i` of its canonical form.
#[verifier::rlimit(60)]
pub fn parse_credentials_at(v: &Vec<char>, i: usize) -> (r: Option<
    (crate::store::Credentials, usize),
>)
    ensures
        match r {
            Some(p) => parse_credentials_spec(v@, i as int) == Some((p.0@, p.1 as int))
                && crate::store::cred_wf(p.0@) && i < p.1 <= v@.len(),
            None => parse_credentials_spec(v@, i as int) is None,
        },
{
    let j1 = match expect_lit(v, i, "{\n\"secret_key\":") {
        Some(j) => j,
        None => {
            return None;
        },
    };
    let (sk, j2) = match parse_string_at(v, j1) {
        Some(p) => p,
        None => {
            return None;
        },
    };
    let j3 = match expect_lit(v, j2, ",\n\"public_key\":") {
        Some(j) => j,
        None => {
            return None;
        },
    };
    let (pk, j4) = match parse_string_at(v, j3) {
        Some(p) => p,
        None => {
            return None;
        },
    };
    let j5 = match expect_lit(v, j4, ",\n\"relays\":") {
        Some(j) => j,
        None => {
            return None;
        },
    };
    let (relays, j6) = match parse_relays_at(v, j5) {
        Some(p) => p,
        None => {
            return None;
        },
    };
    let j7 = match expect_lit(v, j6, ",\n\"metadata\":") {
        Some(j) => j,
        None => {
            return None;
        },
    };
    let (metadata, j8) = match parse_metadata_at(v, j7) {
        Some(p) => p,
        None => {
            return None;
        },
    };
    let j9 = match expect_lit(v, j8, ",\n\"contacts\":") {
        Some(j) => j,
        None => {
            return None;
        },
    };
    let (contacts, j10) = match parse_contacts_at(v, j9) {
        Some(p) => p,
        None => {
            return None;
        },
    };
    let j11 = match expect_lit(v, j10, ",\n\"subscribed_pubkeys\":") {
        Some(j) => j,
        None => {
            return None;
        },
    };
    let (sp, j12) = match parse_keys_at(v, j11) {
        Some(p) => p,
        None => {
            return None;
        },
    };
    let j13 = match expect_lit(v, j12, ",\n\"subscribed_authors\":") {
        Some(j) => j,
        None => {
            return None;
        },
    };
    let (sa, j14) = match parse_keys_at(v, j13) {
        Some(p) => p,
        None => {
            return None;
        },
    };
    let j15 = match expect_lit(v, j14, ",\n\"subscribed_channels\":") {
        Some(j) => j,
        None => {
            return None;
        },
    };
    let (sc, j16) = match parse_keys_at(v, j15) {
        Some(p) => p,
        None => {
            return None;
        },
    };
    let j17 = match expect_lit(v, j16, "\n}") {
        Some(j) => j,
        None => {
            return None;
        },
    };
    let secret = crate::text::chars_to_string(&sk);
    let public = crate::text::chars_to_string(&pk);
    let c = crate::store::Credentials {
        secret_key_bech32: secret,
        public_key_bech32: public,
        relays,
        metadata,
        contacts,
        subscribed_pubkeys: sp,
        subscribed_authors: sa,
        subscribed_channels: sc,
    };
    Some((c, j17))
}

// ---------------------------------------------------------------------------
// Saving and loading.
// ---------------------------------------------------------------------------
/// Whether every character of the text can be stored.
pub fn text_ok(s: &str) -> (r: bool)
    ensures
        r == str_ok(s@),
{
    let n = s.unicode_len();
    let mut i: usize = 0;
    while i < n
        invariant
            i <= n,
            n == s@.len(),
            forall|j: int| 0 <= j < i ==> esc_ok(#[trigger] s@[j]),
        decreases n - i,
    {
        let c = s.get_char(i);
        if !(c == '\n' || c == '\r' || c == '\t' || (c as u32) >= 0x20) {
            return false;
        }
        i = i + 1;
    }
    true
}

/// Whether an optional text can be stored.
fn opt_text_ok(o: &Option<String>) -> (r: bool)
    ensures
        r == opt_ok(crate::text::opt_str_view(o)),
{
    match o {
        Some(s) => text_ok(s.as_str()),
        None => true,
    }
}

/// Whether every string of the state can be stored.
pub fn credentials_ok(c: &crate::store::Credentials) -> (r: bool)
    ensures
        r == cred_strings_ok(c@),
{
    if !text_ok(c.secret_key_bech32.as_str()) {
        return false;
    }
    if !text_ok(c.public_key_bech32.as_str()) {
        return false;
    }
    let rn = c.relays.len();
    let mut i: usize = 0;
    while i < rn
        invariant
            i <= rn,
            rn == c.relays@.len(),
            forall|j: int|
                0 <= j < i ==> str_ok(
                    (#[trigger] crate::relay::relays_view(c.relays@)[j]).url,
                ) && opt_ok(crate::relay::relays_view(c.relays@)[j].proxy),
        decreases rn - i,
    {
        if !text_ok(c.relays[i].url.as_str()) || !opt_text_ok(&c.relays[i].proxy) {
            proof {
                assert(!(str_ok(crate::relay::relays_view(c.relays@)[i as int].url) && opt_ok(
                    crate::relay::relays_view(c.relays@)[i as int].proxy,
                )));
            }
            return false;
        }
        i = i + 1;
    }
    if !(opt_text_ok(&c.metadata.name) && opt_text_ok(&c.metadata.display_name) && opt_text_ok(
        &c.metadata.about,
    ) && opt_text_ok(&c.metadata.picture) && opt_text_ok(&c.metadata.nip05)) {
        return false;
    }
    let cn = c.contacts.len();
    let mut k: usize = 0;
    while k < cn
        invariant
            k <= cn,
            cn == c.contacts@.len(),
            forall|j: int|
                0 <= j < k ==> opt_ok(
                    (#[trigger] crate::contacts::contacts_view(c.contacts@)[j]).alias,
                ) && opt_ok(crate::contacts::contacts_view(c.contacts@)[j].relay_hint),
        decreases cn - k,
    {
        if !opt_text_ok(&c.contacts[k].alias) || !opt_text_ok(&c.contacts[k].relay_hint) {
            proof {
                assert(!(opt_ok(crate::contacts::contacts_view(c.contacts@)[k as int].alias)
                    && opt_ok(crate::contacts::contacts_view(c.contacts@)[k as int].relay_hint)));
            }
            return false;
        }
        k = k + 1;
    }
    true
}

/// Renders the state to its canonical file text. Refused, with a storage
/// failure, exactly when some stored string holds a character the format
/// cannot carry (a control character other than newline, carriage return or
/// tab).
pub fn save_credentials(c: &crate::store::Credentials) -> (r: Result<String, Error>)
    ensures
        match r {
            Ok(s) => cred_strings_ok(c@) && s@ == render_credentials_spec(c@),
            Err(e) => !cred_strings_ok(c@) && e == Error::StorageFailure,
        },
{
    if !credentials_ok(c) {
        return Err(Error::StorageFailure);
    }
    let mut out: Vec<char> = Vec::new();
    render_credentials_into(&mut out, c);
    proof {
        assert(Seq::<char>::empty() + render_credentials_spec(c@) =~= render_credentials_spec(
            c@,
        ));
    }
    Ok(crate::text::chars_to_string(&out))
}

/// Reads the state back from a file text. The text must be exactly the
/// canonical form of one state, whole; anything else is a storage failure.
pub fn load_credentials(text: &str) -> (r: Result<crate::store::Credentials, Error>)
    ensures
        match r {
            Ok(c) => parse_credentials_spec(text@, 0) == Some((c@, text@.len() as int))
                && crate::store::cred_wf(c@),
            Err(e) => e == Error::StorageFailure && (parse_credentials_spec(text@, 0) is None
                || parse_credentials_spec(text@, 0)->Some_0.1 != text@.len()),
        },
{
    let chars = str_to_chars(text);
    match parse_credentials_at(&chars, 0) {
        Some((c, j)) => {
            if j == chars.len() {
                Ok(c)
            } else {
                Err(Error::StorageFailure)
            }
        },
        None => Err(Error::StorageFailure),
    }
}


} // verus!
