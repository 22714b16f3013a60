use vstd::prelude::*;

use crate::text::{chars_of, push_char, string_of_range};
use crate::value::{kind_of, kind_of_tag, models, tag_of, Kind, Value, ValueModel};

verus! {

/// Opens and closes an encoded array.
pub const OUTER_QUOTE: char = '"';

/// Opens and closes one element of an encoded array.
pub const INNER_QUOTE: char = '\'';

/// Separates the elements of an encoded array.
pub const ELEMENT_SEPARATOR: char = ';';

/// Separates an element's kind tag from its payload.
pub const TAG_SEPARATOR: char = ',';

/// Why a wire payload could not be decoded.
#[derive(Clone, Copy, Debug, PartialEq, Eq, Structural)]
pub enum CodecError {
    MalformedEncoding,
}

// ---------------------------------------------------------------------------
// Encoding
// ---------------------------------------------------------------------------

/// The single digit that writes a kind's tag inside an array element.
pub open spec fn tag_char(k: Kind) -> char {
    match k {
        Kind::Null => '0',
        Kind::Bool => '1',
        Kind::Double => '2',
        Kind::Str => '3',
        Kind::Array => '4',
        Kind::Error => '5',
    }
}

pub open spec fn bool_text(b: bool) -> Seq<char> {
    if b {
        seq!['1']
    } else {
        seq!['0']
    }
}

/// The wire text of a value, without its tag.
pub open spec fn payload_of(v: ValueModel) -> Seq<char>
    decreases v, 0nat,
{
    match v {
        ValueModel::Null => seq![],
        ValueModel::Bool(b) => bool_text(b),
        ValueModel::Double(s) => s,
        ValueModel::Str(s) => s,
        ValueModel::Array(items) => seq![OUTER_QUOTE] + items_text(items) + seq![OUTER_QUOTE],
        ValueModel::Error(s) => s,
    }
}

/// One array element: inner quote, tag digit, tag separator, payload, inner quote.
pub open spec fn element_of(v: ValueModel) -> Seq<char>
    decreases v, 1nat,
{
    seq![INNER_QUOTE, tag_char(kind_of(v)), TAG_SEPARATOR] + payload_of(v) + seq![INNER_QUOTE]
}

/// The elements of an array, joined by the element separator.
pub open spec fn items_text(items: Seq<ValueModel>) -> Seq<char>
    decreases items, 2nat,
{
    if items.len() == 0 {
        seq![]
    } else if items.len() == 1 {
        element_of(items[0])
    } else {
        element_of(items[0]) + seq![ELEMENT_SEPARATOR] + items_text(items.subrange(1, items.len() as int))
    }
}

// ---------------------------------------------------------------------------
// Decoding
// ---------------------------------------------------------------------------

pub open spec fn is_digit(c: char) -> bool {
    '0' <= c <= '9'
}

pub open spec fn digit_value(c: char) -> nat {
    (c as u32 - '0' as u32) as nat
}

/// The number that a string of decimal digits writes.
pub open spec fn digits_value(t: Seq<char>) -> nat
    decreases t.len(),
{
    if t.len() == 0 {
        0
    } else {
        digits_value(t.drop_last()) * 10 + digit_value(t.last())
    }
}

/// The kind that an element's tag text names, if it is a decimal integer in range.
pub open spec fn tag_text_kind(t: Seq<char>) -> Option<Kind> {
    if t.len() > 0 && (forall|k: int| 0 <= k < t.len() ==> is_digit(#[trigger] t[k])) {
        kind_of_tag(digits_value(t) as int)
    } else {
        None
    }
}

/// The value of a non-array kind with the given payload.
pub open spec fn scalar_of(k: Kind, p: Seq<char>) -> Option<ValueModel> {
    match k {
        Kind::Null => Some(ValueModel::Null),
        Kind::Bool => if p == seq!['1'] || p == seq!['t', 'r', 'u', 'e'] {
            Some(ValueModel::Bool(true))
        } else if p == seq!['0'] || p == seq!['f', 'a', 'l', 's', 'e'] {
            Some(ValueModel::Bool(false))
        } else {
            None
        },
        Kind::Double => Some(ValueModel::Double(p)),
        Kind::Str => Some(ValueModel::Str(p)),
        Kind::Array => None,
        Kind::Error => Some(ValueModel::Error(p)),
    }
}

/// The first position at or after `i` that holds `c`, or the length of `s`.
pub open spec fn find_from(s: Seq<char>, i: int, c: char) -> int
    decreases s.len() - i,
{
    if i >= s.len() {
        s.len() as int
    } else if s[i] == c {
        i
    } else {
        find_from(s, i + 1, c)
    }
}

/// Reads an encoded array that starts at `i`: its elements and the position after it.
pub open spec fn parse_array(s: Seq<char>, i: int) -> Option<(Seq<ValueModel>, int)>
    decreases s.len() - i, 2nat,
{
    if 0 <= i < s.len() && s[i] == OUTER_QUOTE {
        if i + 1 < s.len() && s[i + 1] == OUTER_QUOTE {
            Some((seq![], i + 2))
        } else {
            parse_items(s, i + 1)
        }
    } else {
        None
    }
}

/// Reads one or more elements from `j` up to and including the closing outer quote.
pub open spec fn parse_items(s: Seq<char>, j: int) -> Option<(Seq<ValueModel>, int)>
    decreases s.len() - j, 1nat,
{
    match parse_element(s, j) {
        None => None,
        Some((x, k)) => if j < k < s.len() && s[k] == ELEMENT_SEPARATOR {
            match parse_items(s, k + 1) {
                None => None,
                Some((xs, e)) => Some((seq![x] + xs, e)),
            }
        } else if k < s.len() && s[k] == OUTER_QUOTE {
            Some((seq![x], k + 1))
        } else {
            None
        },
    }
}

/// Reads one element that starts at `j`: its value and the position after it.
pub open spec fn parse_element(s: Seq<char>, j: int) -> Option<(ValueModel, int)>
    decreases s.len() - j, 0nat,
{
    if 0 <= j < s.len() && s[j] == INNER_QUOTE {
        let c = find_from(s, j + 1, TAG_SEPARATOR);
        if j < c < s.len() {
            match tag_text_kind(s.subrange(j + 1, c)) {
                None => None,
                Some(Kind::Array) => match parse_array(s, c + 1) {
                    None => None,
                    Some((items, e)) => if e < s.len() && s[e] == INNER_QUOTE {
                        Some((ValueModel::Array(items), e + 1))
                    } else {
                        None
                    },
                },
                Some(k) => {
                    let q = find_from(s, c + 1, INNER_QUOTE);
                    if q < s.len() {
                        match scalar_of(k, s.subrange(c + 1, q)) {
                            None => None,
                            Some(v) => Some((v, q + 1)),
                        }
                    } else {
                        None
                    }
                },
            }
        } else {
            None
        }
    } else {
        None
    }
}

/// The value that a tag and a payload stand for, if they are well formed.
pub open spec fn decode_spec(tag: int, text: Seq<char>) -> Option<ValueModel> {
    match kind_of_tag(tag) {
        None => None,
        Some(Kind::Array) => match parse_array(text, 0) {
            Some((items, e)) => if e == text.len() {
                Some(ValueModel::Array(items))
            } else {
                None
            },
            None => None,
        },
        Some(k) => scalar_of(k, text),
    }
}

// ---------------------------------------------------------------------------
// Round trip
// ---------------------------------------------------------------------------

/// A value that can stand as an array element: no text in it holds the inner quote.
pub open spec fn element_safe(v: ValueModel) -> bool
    decreases v,
{
    match v {
        ValueModel::Double(s) => !s.contains(INNER_QUOTE),
        ValueModel::Str(s) => !s.contains(INNER_QUOTE),
        ValueModel::Error(s) => !s.contains(INNER_QUOTE),
        ValueModel::Array(items) => forall|i: int|
            0 <= i < items.len() ==> element_safe(#[trigger] items[i]),
        _ => true,
    }
}

/// A value that survives encoding and decoding: a scalar, or an array of safe elements.
pub open spec fn round_trips(v: ValueModel) -> bool {
    match v {
        ValueModel::Array(_) => element_safe(v),
        _ => true,
    }
}

proof fn lemma_find_from(s: Seq<char>, i: int, k: int, c: char)
    requires
        0 <= i <= k < s.len(),
        s[k] == c,
        forall|m: int| i <= m < k ==> s[m] != c,
    ensures
        find_from(s, i, c) == k,
    decreases k - i,
{
    if i < k {
        lemma_find_from(s, i + 1, k, c);
    }
}

proof fn lemma_tag_digit(k: Kind)
    ensures
        tag_text_kind(seq![tag_char(k)]) == Some(k),
{
    let t = seq![tag_char(k)];
    assert(t.drop_last() =~= Seq::<char>::empty());
    assert(digits_value(Seq::<char>::empty()) == 0);
    assert(t.last() == tag_char(k));
    assert(digits_value(t) == digit_value(tag_char(k)));
}

proof fn lemma_parse_element(x: ValueModel, s: Seq<char>, j: int)
    requires
        element_safe(x),
        0 <= j,
        j + element_of(x).len() <= s.len(),
        s.subrange(j, j + element_of(x).len()) == element_of(x),
    ensures
        parse_element(s, j) == Some((x, j + element_of(x).len())),
    decreases x, 0nat,
{
    let e = element_of(x);
    let p = payload_of(x);
    let n = p.len() as int;
    let d = tag_char(kind_of(x));
    assert(e.len() == n + 4);
    assert(e[0] == INNER_QUOTE && e[1] == d && e[2] == TAG_SEPARATOR && e[n + 3] == INNER_QUOTE);
    assert(s[j] == e[0]);
    assert(s[j + 1] == e[1]);
    assert(s[j + 2] == e[2]);
    assert(s[j + n + 3] == e[n + 3]);
    lemma_find_from(s, j + 1, j + 2, TAG_SEPARATOR);
    assert(s.subrange(j + 1, j + 2) =~= seq![d]);
    lemma_tag_digit(kind_of(x));
    assert(s.subrange(j + 3, j + 3 + n) =~= p) by {
        assert forall|m: int| 0 <= m < n implies s.subrange(j + 3, j + 3 + n)[m] == p[m] by {
            assert(s[j + 3 + m] == e[3 + m]);
        }
    }
    match x {
        ValueModel::Array(items) => {
            assert(s.subrange(j + 3, j + 3 + n) == payload_of(x));
            lemma_parse_array(items, s, j + 3);
        },
        _ => {
            assert forall|m: int| j + 3 <= m < j + 3 + n implies s[m] != INNER_QUOTE by {
                assert(s[m] == p[m - j - 3]);
                if s[m] == INNER_QUOTE {
                    assert(p.contains(INNER_QUOTE));
                }
            }
            lemma_find_from(s, j + 3, j + 3 + n, INNER_QUOTE);
        },
    }
}

proof fn lemma_parse_array(items: Seq<ValueModel>, s: Seq<char>, i: int)
    requires
        forall|k: int| 0 <= k < items.len() ==> element_safe(#[trigger] items[k]),
        0 <= i,
        i + payload_of(ValueModel::Array(items)).len() <= s.len(),
        s.subrange(i, i + payload_of(ValueModel::Array(items)).len()) == payload_of(
            ValueModel::Array(items),
        ),
    ensures
        parse_array(s, i) == Some((items, i + payload_of(ValueModel::Array(items)).len())),
    decreases items, 2nat,
{
    let a = payload_of(ValueModel::Array(items));
    let t = items_text(items);
    let n = t.len() as int;
    assert(a.len() == n + 2);
    assert(s[i] == a[0]);
    assert(s[i + n + 1] == a[n + 1]);
    if items.len() == 0 {
        assert(s[i + 1] == a[1]);
    } else {
        let e0 = element_of(items[0]);
        assert(t.subrange(0, e0.len() as int) =~= e0) by {
            if items.len() > 1 {
                assert(t == e0 + seq![ELEMENT_SEPARATOR] + items_text(
                    items.subrange(1, items.len() as int),
                ));
            }
        }
        assert(s[i + 1] == a[1]);
        assert(a[1] == t[0]);
        assert(t[0] == e0[0]);
        assert(s.subrange(i + 1, i + 1 + n) =~= t) by {
            assert forall|m: int| 0 <= m < n implies s.subrange(i + 1, i + 1 + n)[m] == t[m] by {
                assert(s[i + 1 + m] == a[1 + m]);
            }
        }
        lemma_parse_items(items, s, i + 1);
    }
}

proof fn lemma_parse_items(items: Seq<ValueModel>, s: Seq<char>, j: int)
    requires
        items.len() > 0,
        forall|k: int| 0 <= k < items.len() ==> element_safe(#[trigger] items[k]),
        0 <= j,
        j + items_text(items).len() < s.len(),
        s.subrange(j, j + items_text(items).len()) == items_text(items),
        s[j + items_text(items).len()] == OUTER_QUOTE,
    ensures
        parse_items(s, j) == Some((items, j + items_text(items).len() + 1)),
    decreases items, 1nat,
{
    let t = items_text(items);
    let x = items[0];
    let e0 = element_of(x);
    let m = e0.len() as int;
    assert(element_safe(x));
    assert(s.subrange(j, j + m) =~= e0) by {
        if items.len() > 1 {
            assert(t == e0 + seq![ELEMENT_SEPARATOR] + items_text(
                items.subrange(1, items.len() as int),
            ));
        }
        assert forall|k: int| 0 <= k < m implies s.subrange(j, j + m)[k] == e0[k] by {
            assert(s[j + k] == t[k]);
        }
    }
    lemma_parse_element(x, s, j);
    if items.len() == 1 {
        assert(seq![x] =~= items);
    } else {
        let rest = items.subrange(1, items.len() as int);
        let rt = items_text(rest);
        assert(t == e0 + seq![ELEMENT_SEPARATOR] + rt);
        assert(s[j + m] == t[m]);
        assert(s.subrange(j + m + 1, j + m + 1 + rt.len()) =~= rt) by {
            assert forall|k: int| 0 <= k < rt.len() implies s.subrange(
                j + m + 1,
                j + m + 1 + rt.len(),
            )[k] == rt[k] by {
                assert(s[j + m + 1 + k] == t[m + 1 + k]);
            }
        }
        assert forall|k: int| 0 <= k < rest.len() implies element_safe(#[trigger] rest[k]) by {
            assert(rest[k] == items[k + 1]);
        }
        lemma_parse_items(rest, s, j + m + 1);
        assert(seq![x] + rest =~= items);
    }
}

/// Decoding the encoding of a value gives the value back, at every depth of nesting,
/// provided no text inside an array holds the inner quote.
pub proof fn lemma_round_trip(v: ValueModel)
    requires
        round_trips(v),
    ensures
        decode_spec(tag_of(kind_of(v)), payload_of(v)) == Some(v),
{
    crate::value::lemma_tag_bijective(kind_of(v), 0);
    match v {
        ValueModel::Array(items) => {
            let a = payload_of(v);
            assert(a.subrange(0, a.len() as int) =~= a);
            lemma_parse_array(items, a, 0);
        },
        ValueModel::Bool(b) => {},
        _ => {},
    }
}

// ---------------------------------------------------------------------------
// Executable encoder and decoder
// ---------------------------------------------------------------------------

proof fn lemma_items_text_push(a: Seq<ValueModel>, x: ValueModel)
    ensures
        a.len() == 0 ==> items_text(a.push(x)) == element_of(x),
        a.len() > 0 ==> items_text(a.push(x)) == items_text(a) + seq![ELEMENT_SEPARATOR]
            + element_of(x),
    decreases a.len(),
{
    let b = a.push(x);
    if a.len() == 0 {
        assert(b.len() == 1 && b[0] == x);
    } else if a.len() == 1 {
        assert(b.subrange(1, 2) =~= seq![x]);
        assert(items_text(seq![x]) == element_of(x));
    } else {
        let rest = a.subrange(1, a.len() as int);
        assert(b.subrange(1, b.len() as int) =~= rest.push(x));
        lemma_items_text_push(rest, x);
        assert(items_text(b) =~= items_text(a) + seq![ELEMENT_SEPARATOR] + element_of(x));
    }
}

proof fn lemma_array_view(items: &Vec<Value>)
    ensures
        Value::Array(*items)@ == ValueModel::Array(models(items@)),
{
    let v = Value::Array(*items);
    let ms = v@->Array_0;
    assert(ms.len() == items.len());
    assert forall|i: int| 0 <= i < items.len() implies ms[i] == items[i]@ by {}
    assert(models(items@) =~= ms);
}

fn push_payload(v: &Value, out: &mut String)
    ensures
        final(out)@ == old(out)@ + payload_of(v@),
    decreases v, 0nat,
{
    match v {
        Value::Null => {
            assert(old(out)@ + payload_of(v@) =~= old(out)@);
        },
        Value::Bool(b) => {
            if *b {
                push_char(out, '1');
            } else {
                push_char(out, '0');
            }
        },
        Value::Double(t) => {
            out.append(t.as_str());
        },
        Value::Str(t) => {
            out.append(t.as_str());
        },
        Value::Error(t) => {
            out.append(t.as_str());
        },
        Value::Array(items) => {
            proof {
                lemma_array_view(items);
            }
            let ghost ms = models(items@);
            push_char(out, OUTER_QUOTE);
            let ghost start = out@;
            assert(ms.take(0) =~= Seq::<ValueModel>::empty());
            for idx in 0..items.len()
                invariant
                    *v == Value::Array(*items),
                    ms == models(items@),
                    out@ == start + items_text(ms.take(idx as int)),
            {
                if idx > 0 {
                    push_char(out, ELEMENT_SEPARATOR);
                }
                proof {
                    broadcast use vstd::std_specs::vec::axiom_vec_index_decreases;

                    assert(decreases_to!(*items => items[idx as int]));
                    assert(decreases_to!(*v => (*v)->Array_0));
                    assert(decreases_to!(*v => items[idx as int]));
                }
                push_element(&items[idx], out);
                proof {
                    assert(ms.take(idx as int + 1) =~= ms.take(idx as int).push(ms[idx as int]));
                    lemma_items_text_push(ms.take(idx as int), ms[idx as int]);
                }
                assert(out@ =~= start + items_text(ms.take(idx as int + 1)));
            }
            push_char(out, OUTER_QUOTE);
            assert(ms.take(items.len() as int) =~= ms);
            assert(out@ =~= old(out)@ + payload_of(v@));
        },
    }
}

fn push_element(v: &Value, out: &mut String)
    ensures
        final(out)@ == old(out)@ + element_of(v@),
    decreases v, 1nat,
{
    push_char(out, INNER_QUOTE);
    let tag = match v.kind() {
        Kind::Null => '0',
        Kind::Bool => '1',
        Kind::Double => '2',
        Kind::Str => '3',
        Kind::Array => '4',
        Kind::Error => '5',
    };
    push_char(out, tag);
    push_char(out, TAG_SEPARATOR);
    push_payload(v, out);
    push_char(out, INNER_QUOTE);
    assert(out@ =~= old(out)@ + element_of(v@));
}

/// Encodes a value as its kind and its wire text.
pub fn encode(v: &Value) -> (r: (Kind, String))
    ensures
        r.0 == kind_of(v@),
        r.1@ == payload_of(v@),
{
    let mut out = String::new();
    push_payload(v, &mut out);
    assert(out@ =~= payload_of(v@));
    (v.kind(), out)
}

/// Prefixes the elements read so far to the outcome of reading the rest.
pub open spec fn prepend(
    a: Seq<ValueModel>,
    r: Option<(Seq<ValueModel>, int)>,
) -> Option<(Seq<ValueModel>, int)> {
    match r {
        None => None,
        Some((xs, e)) => Some((a + xs, e)),
    }
}

fn find_from_exec(s: &Vec<char>, i: usize, c: char) -> (r: usize)
    requires
        i <= s.len(),
    ensures
        r == find_from(s@, i as int, c),
        i <= r <= s.len(),
{
    let mut k: usize = i;
    while k < s.len()
        invariant
            i <= k <= s.len(),
            find_from(s@, i as int, c) == find_from(s@, k as int, c),
        decreases s.len() - k,
    {
        if s[k] == c {
            return k;
        }
        k = k + 1;
    }
    k
}

proof fn lemma_digits_push(t: Seq<char>, d: char)
    ensures
        digits_value(t.push(d)) == digits_value(t) * 10 + digit_value(d),
{
    assert(t.push(d).drop_last() =~= t);
}

/// Reads the kind tag written in `s` from `from` up to `to`.
fn tag_of_range(s: &Vec<char>, from: usize, to: usize) -> (r: Option<Kind>)
    requires
        from <= to <= s.len(),
    ensures
        r == tag_text_kind(s@.subrange(from as int, to as int)),
{
    if from == to {
        return None;
    }
    // The value read so far, held at 6 once it is out of range.
    let mut val: u32 = 0;
    let mut k: usize = from;
    while k < to
        invariant
            from <= k <= to <= s.len(),
            forall|m: int| 0 <= m < k - from ==> is_digit(#[trigger] s@.subrange(from as int, k as int)[m]),
            val <= 6,
            val < 6 ==> val == digits_value(s@.subrange(from as int, k as int)),
            val == 6 ==> digits_value(s@.subrange(from as int, k as int)) >= 6,
        decreases to - k,
    {
        let c = s[k];
        if !('0' <= c && c <= '9') {
            let ghost t = s@.subrange(from as int, to as int);
            assert(t[k - from] == c);
            return None;
        }
        let d: u32 = c as u32 - '0' as u32;
        proof {
            let t = s@.subrange(from as int, k as int);
            assert(s@.subrange(from as int, k as int + 1) =~= t.push(c));
            lemma_digits_push(t, c);
        }
        if val < 6 {
            val = val * 10 + d;
            if val > 6 {
                val = 6;
            }
        }
        k = k + 1;
    }
    let ghost t = s@.subrange(from as int, to as int);
    assert forall|m: int| 0 <= m < t.len() implies is_digit(#[trigger] t[m]) by {
        assert(t[m] == s@.subrange(from as int, k as int)[m]);
    }
    Kind::from_tag(val as i32)
}

/// Whether `s` from `from` up to `to` holds exactly the characters of `w`.
fn range_is(s: &Vec<char>, from: usize, to: usize, w: &Vec<char>) -> (r: bool)
    requires
        from <= to <= s.len(),
    ensures
        r == (s@.subrange(from as int, to as int) == w@),
{
    if to - from != w.len() {
        return false;
    }
    let mut k: usize = 0;
    while k < w.len()
        invariant
            to - from == w.len(),
            from <= to <= s.len(),
            k <= w.len(),
            forall|m: int| 0 <= m < k ==> s@[from + m] == w@[m],
        decreases w.len() - k,
    {
        if s[from + k] != w[k] {
            assert(s@.subrange(from as int, to as int)[k as int] != w@[k as int]);
            return false;
        }
        k = k + 1;
    }
    assert(s@.subrange(from as int, to as int) =~= w@);
    true
}

/// Reads a value of a non-array kind from the payload in `s` from `from` up to `to`.
fn scalar_of_range(k: Kind, s: &Vec<char>, from: usize, to: usize) -> (r: Option<Value>)
    requires
        from <= to <= s.len(),
    ensures
        match r {
            Some(v) => scalar_of(k, s@.subrange(from as int, to as int)) == Some(v@),
            None => scalar_of(k, s@.subrange(from as int, to as int)) is None,
        },
{
    match k {
        Kind::Null => {
            let v = Value::Null;
            assert(v@ == ValueModel::Null);
            Some(v)
        },
        Kind::Bool => {
            let one = vec!['1'];
            let yes = vec!['t', 'r', 'u', 'e'];
            let zero = vec!['0'];
            let no = vec!['f', 'a', 'l', 's', 'e'];
            assert(one@ =~= seq!['1']);
            assert(yes@ =~= seq!['t', 'r', 'u', 'e']);
            assert(zero@ =~= seq!['0']);
            assert(no@ =~= seq!['f', 'a', 'l', 's', 'e']);
            if range_is(s, from, to, &one) || range_is(s, from, to, &yes) {
                Some(Value::Bool(true))
            } else if range_is(s, from, to, &zero) || range_is(s, from, to, &no) {
                Some(Value::Bool(false))
            } else {
                None
            }
        },
        Kind::Double => Some(Value::Double(string_of_range(s, from, to))),
        Kind::Str => Some(Value::Str(string_of_range(s, from, to))),
        Kind::Array => None,
        Kind::Error => Some(Value::Error(string_of_range(s, from, to))),
    }
}

fn parse_array_exec(s: &Vec<char>, i: usize) -> (r: Option<(Vec<Value>, usize)>)
    requires
        i <= s.len(),
    ensures
        match r {
            Some((items, e)) => parse_array(s@, i as int) == Some((models(items@), e as int)),
            None => parse_array(s@, i as int) is None,
        },
    decreases s.len() - i, 2nat,
{
    if i < s.len() && s[i] == OUTER_QUOTE {
        if i + 1 < s.len() && s[i + 1] == OUTER_QUOTE {
            let empty: Vec<Value> = Vec::new();
            assert(models(empty@) =~= Seq::<ValueModel>::empty());
            Some((empty, i + 2))
        } else {
            parse_items_exec(s, i + 1)
        }
    } else {
        None
    }
}

fn parse_items_exec(s: &Vec<char>, j0: usize) -> (r: Option<(Vec<Value>, usize)>)
    requires
        j0 <= s.len(),
    ensures
        match r {
            Some((items, e)) => parse_items(s@, j0 as int) == Some((models(items@), e as int)),
            None => parse_items(s@, j0 as int) is None,
        },
    decreases s.len() - j0, 1nat,
{
    let mut acc: Vec<Value> = Vec::new();
    let mut j: usize = j0;
    proof {
        match parse_items(s@, j0 as int) {
            Some((xs, e)) => {
                assert(models(acc@) + xs =~= xs);
            },
            None => {},
        }
    }
    loop
        invariant
            j0 <= j <= s.len(),
            parse_items(s@, j0 as int) == prepend(models(acc@), parse_items(s@, j as int)),
        decreases s.len() - j,
    {
        match parse_element_exec(s, j) {
            None => {
                return None;
            },
            Some((x, k)) => {
                let ghost before = models(acc@);
                acc.push(x);
                assert(models(acc@) =~= before + seq![x@]);
                if j < k && k < s.len() && s[k] == ELEMENT_SEPARATOR {
                    proof {
                        match parse_items(s@, k as int + 1) {
                            Some((xs, e)) => {
                                assert(before + (seq![x@] + xs) =~= models(acc@) + xs);
                            },
                            None => {},
                        }
                    }
                    j = k + 1;
                } else if k < s.len() && s[k] == OUTER_QUOTE {
                    assert(before + seq![x@] =~= models(acc@));
                    return Some((acc, k + 1));
                } else {
                    return None;
                }
            },
        }
    }
}

fn parse_element_exec(s: &Vec<char>, j: usize) -> (r: Option<(Value, usize)>)
    requires
        j <= s.len(),
    ensures
        match r {
            Some((v, e)) => parse_element(s@, j as int) == Some((v@, e as int)) && e <= s.len(),
            None => parse_element(s@, j as int) is None,
        },
    decreases s.len() - j, 0nat,
{
    if !(j < s.len() && s[j] == INNER_QUOTE) {
        return None;
    }
    let c = find_from_exec(s, j + 1, TAG_SEPARATOR);
    if !(j < c && c < s.len()) {
        return None;
    }
    match tag_of_range(s, j + 1, c) {
        None => None,
        Some(Kind::Array) => match parse_array_exec(s, c + 1) {
            None => None,
            Some((items, e)) => {
                if e < s.len() && s[e] == INNER_QUOTE {
                    proof {
                        lemma_array_view(&items);
                    }
                    Some((Value::Array(items), e + 1))
                } else {
                    None
                }
            },
        },
        Some(k) => {
            let q = find_from_exec(s, c + 1, INNER_QUOTE);
            if q < s.len() {
                match scalar_of_range(k, s, c + 1, q) {
                    None => None,
                    Some(v) => Some((v, q + 1)),
                }
            } else {
                None
            }
        },
    }
}

/// Decodes a value from its kind tag and its wire text.
pub fn decode(tag: i32, text: &str) -> (r: Result<Value, CodecError>)
    ensures
        match r {
            Ok(v) => decode_spec(tag as int, text@) == Some(v@),
            Err(e) => decode_spec(tag as int, text@) is None && e == CodecError::MalformedEncoding,
        },
{
    let s = chars_of(text);
    assert(s@.subrange(0, s@.len() as int) =~= s@);
    match Kind::from_tag(tag) {
        None => Err(CodecError::MalformedEncoding),
        Some(Kind::Array) => match parse_array_exec(&s, 0) {
            Some((items, e)) => {
                if e == s.len() {
                    proof {
                        lemma_array_view(&items);
                    }
                    Ok(Value::Array(items))
                } else {
                    Err(CodecError::MalformedEncoding)
                }
            },
            None => Err(CodecError::MalformedEncoding),
        },
        Some(k) => match scalar_of_range(k, &s, 0, s.len()) {
            Some(v) => Ok(v),
            None => Err(CodecError::MalformedEncoding),
        },
    }
}

} // verus!
