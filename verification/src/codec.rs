//! Canonical JSON: a deterministic byte encoding of JSON values.
//!
//! Objects are emitted with keys in strictly increasing UTF-8 order, arrays
//! in element order, strings escaped and UTF-8 encoded, and numbers (carried
//! in fixed-point millionths) in their minimal decimal form. The encoding is
//! the signing surface of every entity, so it is specified to the byte.

use vstd::prelude::*;
use vstd::multiset::Multiset;
use vstd::utf8::encode_utf8;

use crate::text::chars_lt;

verus! {

broadcast use vstd::seq::group_seq_axioms, vstd::std_specs::vec::group_vec_axioms;

/// Numbers carry six decimal places: a value `m` stands for `m / SCALE`.
pub const SCALE: i64 = 1_000_000;

/// The mathematical value of a [`JsonValue`].
#[verifier::ext_equal]
pub enum JsonV {
    Null,
    Bool(bool),
    Fixed(int),
    Str(Seq<char>),
    Array(Seq<JsonV>),
    Object(Seq<(Seq<char>, JsonV)>),
}

/// A JSON value whose numbers are fixed-point millionths.
pub enum JsonValue {
    Null,
    Bool(bool),
    Fixed(i64),
    Str(String),
    Array(Vec<JsonValue>),
    Object(Vec<(String, JsonValue)>),
}

/// The mathematical value of an exec JSON value.
pub open spec fn jv_view(v: JsonValue) -> JsonV
    decreases v,
    via jv_view_dec
{
    match v {
        JsonValue::Null => JsonV::Null,
        JsonValue::Bool(b) => JsonV::Bool(b),
        JsonValue::Fixed(m) => JsonV::Fixed(m as int),
        JsonValue::Str(s) => JsonV::Str(s@),
        JsonValue::Array(es) => JsonV::Array(jv_views(es@)),
        JsonValue::Object(ps) => JsonV::Object(jv_member_views(ps@)),
    }
}

/// Views of a sequence of values, element-wise.
pub open spec fn jv_views(es: Seq<JsonValue>) -> Seq<JsonV>
    decreases es,
{
    if es.len() == 0 {
        seq![]
    } else {
        seq![jv_view(es[0])] + jv_views(es.drop_first())
    }
}

/// Views of a sequence of members, element-wise.
pub open spec fn jv_member_views(ps: Seq<(String, JsonValue)>) -> Seq<(Seq<char>, JsonV)>
    decreases ps,
{
    if ps.len() == 0 {
        seq![]
    } else {
        seq![(ps[0].0@, jv_view(ps[0].1))] + jv_member_views(ps.drop_first())
    }
}

#[via_fn]
proof fn jv_view_dec(v: JsonValue) {
    match v {
        JsonValue::Array(es) => {
            assert(decreases_to!(v => es));
            assert(decreases_to!(es => es@));
        },
        JsonValue::Object(ps) => {
            assert(decreases_to!(v => ps));
            assert(decreases_to!(ps => ps@));
        },
        _ => {},
    }
}

impl View for JsonValue {
    type V = JsonV;

    open spec fn view(&self) -> JsonV {
        jv_view(*self)
    }
}

/// Element views line up with element indexing.
pub proof fn lemma_jv_views_index(es: Seq<JsonValue>)
    ensures
        jv_views(es).len() == es.len(),
        forall|i: int| 0 <= i < es.len() ==> jv_views(es)[i] == jv_view(#[trigger] es[i]),
    decreases es.len(),
{
    if es.len() > 0 {
        lemma_jv_views_index(es.drop_first());
        assert forall|i: int| 0 <= i < es.len() implies jv_views(es)[i] == jv_view(
            #[trigger] es[i],
        ) by {
            if i > 0 {
                assert(jv_views(es)[i] == jv_views(es.drop_first())[i - 1]);
                assert(es.drop_first()[i - 1] == es[i]);
            }
        }
    }
}

/// Member views line up with member indexing.
pub proof fn lemma_jv_member_views_index(ps: Seq<(String, JsonValue)>)
    ensures
        jv_member_views(ps).len() == ps.len(),
        forall|i: int|
            0 <= i < ps.len() ==> jv_member_views(ps)[i] == ((#[trigger] ps[i]).0@, jv_view(
                ps[i].1,
            )),
    decreases ps.len(),
{
    if ps.len() > 0 {
        lemma_jv_member_views_index(ps.drop_first());
        assert forall|i: int| 0 <= i < ps.len() implies jv_member_views(ps)[i] == (
            (#[trigger] ps[i]).0@,
            jv_view(ps[i].1),
        ) by {
            if i > 0 {
                assert(jv_member_views(ps)[i] == jv_member_views(ps.drop_first())[i - 1]);
                assert(ps.drop_first()[i - 1] == ps[i]);
            }
        }
    }
}

/// Element-wise agreement with a target makes the member views the target.
pub proof fn lemma_member_views_eq(ps: Seq<(String, JsonValue)>, target: Seq<(Seq<char>, JsonV)>)
    requires
        ps.len() == target.len(),
        forall|j: int|
            0 <= j < ps.len() ==> (#[trigger] ps[j]).0@ == target[j].0 && jv_view(ps[j].1)
                == target[j].1,
    ensures
        jv_member_views(ps) == target,
{
    lemma_jv_member_views_index(ps);
    assert forall|j: int| 0 <= j < ps.len() implies jv_member_views(ps)[j] == #[trigger] target[j] by {
        assert(jv_member_views(ps)[j] == (ps[j].0@, jv_view(ps[j].1)));
        assert((target[j].0, target[j].1) == target[j]);
    }
    assert(jv_member_views(ps) =~= target);
}

/// Element-wise agreement with a target makes the element views the target.
pub proof fn lemma_views_eq(es: Seq<JsonValue>, target: Seq<JsonV>)
    requires
        es.len() == target.len(),
        forall|j: int| 0 <= j < es.len() ==> jv_view(#[trigger] es[j]) == target[j],
    ensures
        jv_views(es) == target,
{
    lemma_jv_views_index(es);
    assert forall|j: int| 0 <= j < es.len() implies jv_views(es)[j] == #[trigger] target[j] by {
        assert(jv_views(es)[j] == jv_view(es[j]));
    }
    assert(jv_views(es) =~= target);
}

/// The lower-case hex digit for a value below 16.
pub open spec fn hex_digit(n: int) -> u8 {
    if n < 10 {
        (48 + n) as u8
    } else {
        (87 + n) as u8
    }
}

/// How one byte of a string is written: the two-character escapes of JSON,
/// `\u00XX` for other control bytes, and everything else verbatim.
pub open spec fn escape_byte(b: u8) -> Seq<u8> {
    if b == 0x22 {
        seq![0x5Cu8, 0x22u8]
    } else if b == 0x5C {
        seq![0x5Cu8, 0x5Cu8]
    } else if b == 0x08 {
        seq![0x5Cu8, 0x62u8]
    } else if b == 0x0C {
        seq![0x5Cu8, 0x66u8]
    } else if b == 0x0A {
        seq![0x5Cu8, 0x6Eu8]
    } else if b == 0x0D {
        seq![0x5Cu8, 0x72u8]
    } else if b == 0x09 {
        seq![0x5Cu8, 0x74u8]
    } else if b < 0x20 {
        seq![0x5Cu8, 0x75u8, 0x30u8, 0x30u8, hex_digit(b as int / 16), hex_digit(b as int % 16)]
    } else {
        seq![b]
    }
}

/// JSON string escaping over UTF-8 bytes.
pub open spec fn escape_bytes(bs: Seq<u8>) -> Seq<u8>
    decreases bs.len(),
{
    if bs.len() == 0 {
        seq![]
    } else {
        escape_byte(bs[0]) + escape_bytes(bs.drop_first())
    }
}

/// A JSON string token: quote, escaped UTF-8 bytes, quote.
pub open spec fn quoted(s: Seq<char>) -> Seq<u8> {
    seq![0x22u8] + escape_bytes(encode_utf8(s)) + seq![0x22u8]
}

/// Decimal digits of a natural number, most significant first.
pub open spec fn dec_digits(n: nat) -> Seq<u8>
    decreases n,
{
    if n < 10 {
        seq![(48 + n) as u8]
    } else {
        dec_digits(n / 10) + seq![(48 + (n % 10)) as u8]
    }
}

/// The six decimal digits of a fraction in millionths, zero padded.
pub open spec fn pad6(n: nat) -> Seq<u8> {
    seq![
        (48 + (n / 100000) % 10) as u8,
        (48 + (n / 10000) % 10) as u8,
        (48 + (n / 1000) % 10) as u8,
        (48 + (n / 100) % 10) as u8,
        (48 + (n / 10) % 10) as u8,
        (48 + n % 10) as u8,
    ]
}

/// Trailing zero digits removed.
pub open spec fn strip_zeros(s: Seq<u8>) -> Seq<u8>
    decreases s.len(),
{
    if s.len() == 0 {
        s
    } else if s.last() == 48 {
        strip_zeros(s.drop_last())
    } else {
        s
    }
}

/// The minimal decimal form of a fixed-point number in millionths: an
/// optional sign, the integer part, and the fraction without trailing zeros
/// (omitted entirely when zero).
pub open spec fn fixed_bytes(m: int) -> Seq<u8> {
    let a = if m < 0 {
        -m
    } else {
        m
    };
    let sign: Seq<u8> = if m < 0 {
        seq![45u8]
    } else {
        seq![]
    };
    let frac = strip_zeros(pad6((a as nat) % 1000000));
    if frac.len() == 0 {
        sign + dec_digits((a as nat) / 1000000)
    } else {
        sign + dec_digits((a as nat) / 1000000) + seq![46u8] + frac
    }
}

/// The canonical bytes of a JSON value, objects emitted in stored order.
pub open spec fn canon(v: JsonV) -> Seq<u8>
    decreases v,
{
    match v {
        JsonV::Null => seq![110u8, 117u8, 108u8, 108u8],
        JsonV::Bool(b) => if b {
            seq![116u8, 114u8, 117u8, 101u8]
        } else {
            seq![102u8, 97u8, 108u8, 115u8, 101u8]
        },
        JsonV::Fixed(m) => fixed_bytes(m),
        JsonV::Str(s) => quoted(s),
        JsonV::Array(es) => seq![91u8] + canon_items(es) + seq![93u8],
        JsonV::Object(ps) => seq![123u8] + canon_members(ps) + seq![125u8],
    }
}

/// Array elements, comma separated.
pub open spec fn canon_items(es: Seq<JsonV>) -> Seq<u8>
    decreases es,
{
    if es.len() == 0 {
        seq![]
    } else {
        canon(es[0]) + canon_rest_items(es.drop_first())
    }
}

/// The tail of an array: each element preceded by a comma.
pub open spec fn canon_rest_items(es: Seq<JsonV>) -> Seq<u8>
    decreases es,
{
    if es.len() == 0 {
        seq![]
    } else {
        seq![44u8] + canon(es[0]) + canon_rest_items(es.drop_first())
    }
}

/// One object member: quoted key, colon, value.
pub open spec fn canon_member(p: (Seq<char>, JsonV)) -> Seq<u8>
    decreases p,
{
    quoted(p.0) + seq![58u8] + canon(p.1)
}

/// Object members, comma separated.
pub open spec fn canon_members(ps: Seq<(Seq<char>, JsonV)>) -> Seq<u8>
    decreases ps,
{
    if ps.len() == 0 {
        seq![]
    } else {
        canon_member(ps[0]) + canon_rest_members(ps.drop_first())
    }
}

/// The tail of an object: each member preceded by a comma.
pub open spec fn canon_rest_members(ps: Seq<(Seq<char>, JsonV)>) -> Seq<u8>
    decreases ps,
{
    if ps.len() == 0 {
        seq![]
    } else {
        seq![44u8] + canon_member(ps[0]) + canon_rest_members(ps.drop_first())
    }
}

/// A value is in canonical form when every object in it has strictly
/// increasing keys.
pub open spec fn canonical_form(v: JsonV) -> bool
    decreases v,
{
    match v {
        JsonV::Array(es) => forall|i: int| 0 <= i < es.len() ==> canonical_form(#[trigger] es[i]),
        JsonV::Object(ps) => (forall|i: int, j: int|
            0 <= i < j < ps.len() ==> chars_lt(ps[i].0, ps[j].0)) && (forall|i: int|
            0 <= i < ps.len() ==> canonical_form(#[trigger] ps[i].1)),
        _ => true,
    }
}

} // verus!

// The executable writer follows. Each function appends the canonical bytes
// of its piece to `out` and is proved against the spec functions above.

verus! {

/// Stripping a run of zero digits leaves nothing.
proof fn lemma_strip_zeros_all(s: Seq<u8>)
    requires
        forall|i: int| 0 <= i < s.len() ==> s[i] == 48,
    ensures
        strip_zeros(s) == Seq::<u8>::empty(),
    decreases s.len(),
{
    if s.len() > 0 {
        lemma_strip_zeros_all(s.drop_last());
    }
    assert(strip_zeros(s) =~= Seq::<u8>::empty());
}

/// Only a run of zero digits strips to nothing.
proof fn lemma_strip_zeros_empty(s: Seq<u8>)
    requires
        strip_zeros(s) == Seq::<u8>::empty(),
    ensures
        forall|i: int| 0 <= i < s.len() ==> s[i] == 48,
    decreases s.len(),
{
    if s.len() > 0 {
        if s.last() == 48 {
            lemma_strip_zeros_empty(s.drop_last());
            assert forall|i: int| 0 <= i < s.len() implies s[i] == 48 by {
                if i < s.len() - 1 {
                    assert(s.drop_last()[i] == 48);
                }
            }
        }
    }
}

/// A fraction in millionths whose six digits are all zero is zero.
proof fn lemma_pad6_zero(n: nat)
    requires
        n < 1000000,
        forall|i: int| 0 <= i < pad6(n).len() ==> pad6(n)[i] == 48,
    ensures
        n == 0,
{
    assert(pad6(n)[5] == 48);
    assert(n % 10 == 0);
    assert(pad6(n)[4] == 48);
    assert((n / 10) % 10 == 0);
    assert(pad6(n)[3] == 48);
    assert((n / 100) % 10 == 0);
    assert(pad6(n)[2] == 48);
    assert((n / 1000) % 10 == 0);
    assert(pad6(n)[1] == 48);
    assert((n / 10000) % 10 == 0);
    assert(pad6(n)[0] == 48);
    assert((n / 100000) % 10 == 0);
    assert(n == 0) by (nonlinear_arith)
        requires
            n < 1000000,
            n % 10 == 0,
            (n / 10) % 10 == 0,
            (n / 100) % 10 == 0,
            (n / 1000) % 10 == 0,
            (n / 10000) % 10 == 0,
            (n / 100000) % 10 == 0,
    ;
}

/// Append the decimal digits of `n`.
fn write_dec(n: u64, out: &mut Vec<u8>)
    ensures
        final(out)@ == old(out)@ + dec_digits(n as nat),
    decreases n,
{
    if n < 10 {
        out.push((48 + n) as u8);
    } else {
        write_dec(n / 10, out);
        out.push((48 + (n % 10)) as u8);
    }
}

/// Append the minimal decimal form of a fixed-point number in millionths.
fn write_fixed(m: i64, out: &mut Vec<u8>)
    ensures
        final(out)@ == old(out)@ + fixed_bytes(m as int),
{
    let a: u64 = if m < 0 {
        out.push(45);
        if m == i64::MIN {
            9223372036854775808u64
        } else {
            (-m) as u64
        }
    } else {
        m as u64
    };
    assert(a as int == if m < 0 { -(m as int) } else { m as int });
    write_dec(a / 1000000, out);
    let fp: u64 = a % 1000000;
    if fp == 0 {
        proof {
            lemma_strip_zeros_all(pad6((fp as nat)));
        }
    } else {
        out.push(46);
        let mut f: Vec<u8> = Vec::new();
        f.push((48 + (fp / 100000) % 10) as u8);
        f.push((48 + (fp / 10000) % 10) as u8);
        f.push((48 + (fp / 1000) % 10) as u8);
        f.push((48 + (fp / 100) % 10) as u8);
        f.push((48 + (fp / 10) % 10) as u8);
        f.push((48 + fp % 10) as u8);
        assert(f@ =~= pad6(fp as nat));
        while f.len() > 0 && f[f.len() - 1] == 48
            invariant
                strip_zeros(f@) == strip_zeros(pad6((fp as nat))),
            decreases f.len(),
        {
            assert(f@.last() == 48);
            f.pop();
        }
        proof {
            if f.len() > 0 {
                assert(strip_zeros(f@) == f@);
            } else {
                assert(strip_zeros(f@) == Seq::<u8>::empty());
                lemma_strip_zeros_empty(pad6((fp as nat)));
                lemma_pad6_zero(fp as nat);
                assert(false);
            }
        }
        out.append(&mut f);
    }
}

/// Append the escape of one string byte.
fn push_escaped(b: u8, out: &mut Vec<u8>)
    ensures
        final(out)@ == old(out)@ + escape_byte(b),
{
    if b == 0x22 {
        out.push(0x5C);
        out.push(0x22);
    } else if b == 0x5C {
        out.push(0x5C);
        out.push(0x5C);
    } else if b == 0x08 {
        out.push(0x5C);
        out.push(0x62);
    } else if b == 0x0C {
        out.push(0x5C);
        out.push(0x66);
    } else if b == 0x0A {
        out.push(0x5C);
        out.push(0x6E);
    } else if b == 0x0D {
        out.push(0x5C);
        out.push(0x72);
    } else if b == 0x09 {
        out.push(0x5C);
        out.push(0x74);
    } else if b < 0x20 {
        out.push(0x5C);
        out.push(0x75);
        out.push(0x30);
        out.push(0x30);
        let hi = b / 16;
        let lo = b % 16;
        out.push(
            if hi < 10 {
                48 + hi
            } else {
                87 + hi
            },
        );
        out.push(
            if lo < 10 {
                48 + lo
            } else {
                87 + lo
            },
        );
        assert(out@ =~= old(out)@ + escape_byte(b));
    } else {
        out.push(b);
    }
}

/// Append a quoted, escaped JSON string token.
fn write_quoted(s: &str, out: &mut Vec<u8>)
    ensures
        final(out)@ == old(out)@ + quoted(s@),
{
    out.push(0x22);
    let bs = s.as_bytes_vec();
    let ghost all: Seq<u8> = bs@;
    let n = bs.len();
    let mut i: usize = 0;
    assert(all.skip(0) == all);
    while i < n
        invariant
            i <= n,
            n == all.len(),
            bs@ == all,
            out@ + escape_bytes(all.skip(i as int)) == old(out)@ + seq![0x22u8] + escape_bytes(
                all,
            ),
        decreases n - i,
    {
        proof {
            assert(all.skip(i as int)[0] == all[i as int]);
            assert(all.skip(i as int).drop_first() =~= all.skip(i as int + 1));
        }
        push_escaped(bs[i], out);
        i += 1;
    }
    out.push(0x22);
    assert(out@ =~= old(out)@ + quoted(s@));
}

/// Append the canonical bytes of a JSON value, objects in stored order.
pub fn write_canon(v: &JsonValue, out: &mut Vec<u8>)
    ensures
        final(out)@ == old(out)@ + canon(v@),
    decreases v,
{
    match v {
        JsonValue::Null => {
            out.push(110);
            out.push(117);
            out.push(108);
            out.push(108);
            assert(out@ =~= old(out)@ + canon(v@));
        },
        JsonValue::Bool(b) => {
            if *b {
                out.push(116);
                out.push(114);
                out.push(117);
                out.push(101);
            } else {
                out.push(102);
                out.push(97);
                out.push(108);
                out.push(115);
                out.push(101);
            }
            assert(out@ =~= old(out)@ + canon(v@));
        },
        JsonValue::Fixed(m) => {
            write_fixed(*m, out);
        },
        JsonValue::Str(s) => {
            write_quoted(s.as_str(), out);
        },
        JsonValue::Array(es) => {
            let ghost vs = jv_views(es@);
            proof {
                lemma_jv_views_index(es@);
            }
            out.push(91);
            let ghost base = old(out)@;
            let n = es.len();
            let mut j: usize = 0;
            while j < n
                invariant
                    j <= n,
                    n == es@.len(),
                    vs == jv_views(es@),
                    vs.len() == n,
                    *v == JsonValue::Array(*es),
                    forall|k: int| 0 <= k < n ==> vs[k] == jv_view(#[trigger] es@[k]),
                    j == 0 ==> out@ == base + seq![91u8],
                    j > 0 ==> out@ + canon_rest_items(vs.skip(j as int)) == base + seq![91u8]
                        + canon_items(vs),
                decreases n - j,
            {
                if j > 0 {
                    out.push(44);
                }
                proof {
                    assert(*es == v->Array_0);
                    assert(decreases_to!(*v => v->Array_0));
                    assert(decreases_to!(*es => es[j as int]));
                }
                write_canon(&es[j], out);
                proof {
                    if j == 0 {
                        if n > 1 {
                            assert(vs.drop_first() =~= vs.skip(1));
                        } else {
                            assert(vs.drop_first() =~= vs.skip(1));
                        }
                        assert(canon_items(vs) == canon(vs[0]) + canon_rest_items(vs.skip(1)));
                    } else {
                        assert(vs.skip(j as int)[0] == vs[j as int]);
                        assert(vs.skip(j as int).drop_first() =~= vs.skip(j as int + 1));
                        assert(canon_rest_items(vs.skip(j as int)) == seq![44u8] + canon(
                            vs[j as int],
                        ) + canon_rest_items(vs.skip(j as int + 1)));
                    }
                }
                j += 1;
            }
            proof {
                if n == 0 {
                    assert(canon_items(vs) =~= Seq::<u8>::empty());
                } else {
                    assert(vs.skip(n as int) =~= Seq::<JsonV>::empty());
                    assert(canon_rest_items(vs.skip(n as int)) =~= Seq::<u8>::empty());
                }
            }
            out.push(93);
            assert(out@ =~= old(out)@ + canon(v@));
        },
        JsonValue::Object(ps) => {
            let ghost ms = jv_member_views(ps@);
            proof {
                lemma_jv_member_views_index(ps@);
            }
            out.push(123);
            let ghost base = old(out)@;
            let n = ps.len();
            let mut j: usize = 0;
            while j < n
                invariant
                    j <= n,
                    n == ps@.len(),
                    ms == jv_member_views(ps@),
                    ms.len() == n,
                    *v == JsonValue::Object(*ps),
                    forall|k: int|
                        0 <= k < n ==> ms[k] == ((#[trigger] ps@[k]).0@, jv_view(ps@[k].1)),
                    j == 0 ==> out@ == base + seq![123u8],
                    j > 0 ==> out@ + canon_rest_members(ms.skip(j as int)) == base + seq![123u8]
                        + canon_members(ms),
                decreases n - j,
            {
                if j > 0 {
                    out.push(44);
                }
                write_quoted(ps[j].0.as_str(), out);
                out.push(58);
                proof {
                    assert(*ps == v->Object_0);
                    assert(decreases_to!(*v => v->Object_0));
                    assert(decreases_to!(*ps => ps[j as int]));
                    assert(decreases_to!(ps[j as int] => ps[j as int].1));
                }
                write_canon(&ps[j].1, out);
                proof {
                    assert(canon_member(ms[j as int]) == quoted(ps@[j as int].0@) + seq![58u8]
                        + canon(jv_view(ps@[j as int].1)));
                    if j == 0 {
                        assert(ms.drop_first() =~= ms.skip(1));
                        assert(canon_members(ms) == canon_member(ms[0]) + canon_rest_members(
                            ms.skip(1),
                        ));
                    } else {
                        assert(ms.skip(j as int)[0] == ms[j as int]);
                        assert(ms.skip(j as int).drop_first() =~= ms.skip(j as int + 1));
                        assert(canon_rest_members(ms.skip(j as int)) == seq![44u8] + canon_member(
                            ms[j as int],
                        ) + canon_rest_members(ms.skip(j as int + 1)));
                    }
                }
                j += 1;
            }
            proof {
                if n == 0 {
                    assert(canon_members(ms) =~= Seq::<u8>::empty());
                } else {
                    assert(ms.skip(n as int) =~= Seq::<(Seq<char>, JsonV)>::empty());
                    assert(canon_rest_members(ms.skip(n as int)) =~= Seq::<u8>::empty());
                }
            }
            out.push(125);
            assert(out@ =~= old(out)@ + canon(v@));
        },
    }
}

/// The canonical bytes of a JSON value.
pub fn canonical_bytes(v: &JsonValue) -> (r: Vec<u8>)
    ensures
        r@ == canon(v@),
{
    let mut out: Vec<u8> = Vec::new();
    write_canon(v, &mut out);
    out
}

} // verus!

// The determinism law: canonicalization does not depend on the order in
// which an object's members arrive, only on which members they are.

verus! {

/// Object members in strictly increasing key order.
pub open spec fn members_sorted(ms: Seq<(Seq<char>, JsonV)>) -> bool {
    forall|i: int, j: int|
        0 <= i < j < ms.len() ==> chars_lt((#[trigger] ms[i]).0, (#[trigger] ms[j]).0)
}

/// No two members share a key.
pub open spec fn member_keys_distinct(ms: Seq<(Seq<char>, JsonV)>) -> bool {
    forall|i: int, j: int| 0 <= i < j < ms.len() ==> (#[trigger] ms[i]).0 != (#[trigger] ms[j]).0
}

/// Two sorted member lists carrying the same members are identical.
pub proof fn lemma_sorted_members_unique(xs: Seq<(Seq<char>, JsonV)>, ys: Seq<(Seq<char>, JsonV)>)
    requires
        members_sorted(xs),
        members_sorted(ys),
        xs.to_multiset() == ys.to_multiset(),
    ensures
        xs == ys,
    decreases xs.len(),
{
    broadcast use vstd::seq_lib::group_to_multiset_ensures;

    if xs.len() == 0 {
        assert(ys.to_multiset().len() == 0);
        assert(xs =~= ys);
    } else {
        assert(xs.len() == xs.to_multiset().len());
        assert(ys.len() == ys.to_multiset().len());
        assert(ys.len() == xs.len());
        // each head occurs in the other list
        assert(xs.to_multiset().count(xs[0]) > 0);
        assert(ys.contains(xs[0]));
        let k = choose|k: int| 0 <= k < ys.len() && ys[k] == xs[0];
        assert(xs.contains(ys[0])) by {
            assert(ys.to_multiset().count(ys[0]) > 0);
        }
        let m = choose|m: int| 0 <= m < xs.len() && xs[m] == ys[0];
        // both heads are minimal, so they coincide
        if k > 0 {
            assert(chars_lt(ys[0].0, ys[k].0));
            if m > 0 {
                assert(chars_lt(xs[0].0, xs[m].0));
                crate::text::lemma_chars_lt_transitive(xs[0].0, ys[0].0, xs[0].0);
                crate::text::lemma_chars_lt_trichotomy(xs[0].0, xs[0].0);
                assert(false);
            }
            assert(xs[0] == ys[0]) by {
                assert(xs[m] == ys[0] && m == 0);
            }
        }
        assert(xs[0] == ys[0]);
        let xr = xs.drop_first();
        let yr = ys.drop_first();
        assert(xs =~= seq![xs[0]] + xr);
        assert(ys =~= seq![ys[0]] + yr);
        vstd::seq_lib::lemma_multiset_commutative(seq![xs[0]], xr);
        vstd::seq_lib::lemma_multiset_commutative(seq![ys[0]], yr);
        assert(xr.to_multiset() =~= yr.to_multiset()) by {
            assert(seq![xs[0]].to_multiset() =~= Multiset::<(Seq<char>, JsonV)>::empty().insert(
                xs[0],
            )) by {
                assert(seq![xs[0]] =~= Seq::<(Seq<char>, JsonV)>::empty().push(xs[0]));
            }
            assert(xs.to_multiset() =~= xr.to_multiset().insert(xs[0]));
            assert(ys.to_multiset() =~= yr.to_multiset().insert(ys[0]));
            assert forall|e: (Seq<char>, JsonV)| true implies xr.to_multiset().count(e)
                == yr.to_multiset().count(e) by {
                assert(xr.to_multiset().insert(xs[0]).count(e) == yr.to_multiset().insert(
                    ys[0],
                ).count(e));
            }
        }
        assert(members_sorted(xr)) by {
            assert forall|i: int, j: int| 0 <= i < j < xr.len() implies chars_lt(
                (#[trigger] xr[i]).0,
                (#[trigger] xr[j]).0,
            ) by {
                assert(xr[i] == xs[i + 1]);
                assert(xr[j] == xs[j + 1]);
            }
        }
        assert(members_sorted(yr)) by {
            assert forall|i: int, j: int| 0 <= i < j < yr.len() implies chars_lt(
                (#[trigger] yr[i]).0,
                (#[trigger] yr[j]).0,
            ) by {
                assert(yr[i] == ys[i + 1]);
                assert(yr[j] == ys[j + 1]);
            }
        }
        lemma_sorted_members_unique(xr, yr);
        assert(xs =~= ys);
    }
}

/// Canonicalization is insensitive to member order: any two sorted
/// arrangements of the same members — under permutation the member
/// multiset is unchanged — produce byte-identical canonical JSON.
pub proof fn lemma_canonical_key_permutation(
    xs: Seq<(Seq<char>, JsonV)>,
    ys: Seq<(Seq<char>, JsonV)>,
)
    requires
        members_sorted(xs),
        members_sorted(ys),
        xs.to_multiset() == ys.to_multiset(),
    ensures
        canon(JsonV::Object(xs)) == canon(JsonV::Object(ys)),
{
    lemma_sorted_members_unique(xs, ys);
}

/// Sort an object's members by key, dropping any later duplicate of a key,
/// so that the result is in canonical member order.
/// Whether index `j` holds the first occurrence of its key in `ms`.
pub open spec fn spec_first_with_key(ms: Seq<(String, JsonValue)>, j: int) -> bool {
    &&& 0 <= j < ms.len()
    &&& forall|i: int| 0 <= i < j ==> (#[trigger] ms[i]).0@ != ms[j].0@
}

/// Whether the exact pair occurs among the members.
pub open spec fn spec_member_in(p: (String, JsonValue), ms: Seq<(String, JsonValue)>) -> bool {
    exists|k: int| 0 <= k < ms.len() && (#[trigger] ms[k]) == p
}

/// Whether some member carries the key.
pub open spec fn spec_key_in(key: Seq<char>, ms: Seq<(String, JsonValue)>) -> bool {
    exists|k: int| 0 <= k < ms.len() && (#[trigger] ms[k]).0@ == key
}

/// Whether the pair is a first occurrence drawn from the first `bound`
/// members of `ms`.
pub open spec fn spec_from_first(
    x: (String, JsonValue),
    ms: Seq<(String, JsonValue)>,
    bound: int,
) -> bool {
    exists|j: int| spec_first_with_key(ms, j) && j < bound && x == #[trigger] ms[j]
}

#[verifier::rlimit(100)]
pub fn sort_object_members(pairs: Vec<(String, JsonValue)>) -> (r: Vec<(String, JsonValue)>)
    ensures
        members_sorted(jv_member_views(r@)),
        forall|k: int|
            0 <= k < r@.len() ==> exists|j: int|
                0 <= j < pairs@.len() && (#[trigger] r@[k]) == pairs@[j],
        forall|j: int| spec_first_with_key(pairs@, j) ==> spec_member_in(pairs@[j], r@),
        forall|k: int|
            0 <= k < r@.len() ==> spec_from_first(#[trigger] r@[k], pairs@, pairs@.len() as int),
{
    let ghost orig = pairs@;
    let mut rest = pairs;
    let mut out: Vec<(String, JsonValue)> = Vec::new();
    let ghost mut taken: int = 0;
    while rest.len() > 0
        invariant
            0 <= taken <= orig.len(),
            rest@ =~= orig.skip(taken),
            members_sorted(jv_member_views(out@)),
            forall|k: int|
                0 <= k < out@.len() ==> exists|j: int|
                    0 <= j < orig.len() && (#[trigger] out@[k]) == orig[j],
            forall|j: int|
                spec_first_with_key(orig, j) && j < taken ==> spec_member_in(orig[j], out@),
            forall|k: int| 0 <= k < out@.len() ==> spec_from_first(#[trigger] out@[k], orig, taken),
            forall|j: int| 0 <= j < taken ==> spec_key_in((#[trigger] orig[j]).0@, out@),
        decreases rest@.len(),
    {
        let p = rest.remove(0);
        proof {
            assert(p == orig.skip(taken)[0]);
            assert(p == orig[taken]);
            assert(rest@ =~= orig.skip(taken + 1));
            taken = taken + 1;
        }
        let m = out.len();
        let mut j: usize = 0;
        let mut clash = false;
        while j < m && !clash && crate::text::str_lt(out[j].0.as_str(), p.0.as_str())
            invariant
                j <= m,
                m == out@.len(),
                !clash ==> forall|a: int| 0 <= a < j ==> chars_lt((#[trigger] out@[a]).0@, p.0@),
                clash ==> spec_key_in(p.0@, out@),
            decreases m - j,
        {
            if crate::text::str_eq(out[j].0.as_str(), p.0.as_str()) {
                proof {
                    assert(spec_key_in(p.0@, out@));
                }
                clash = true;
                j = m;
            } else {
                j += 1;
            }
        }
        let insert_at = j;
        let ghost no_clash_low: bool = !clash;
        if !clash && insert_at < m && crate::text::str_eq(
            out[insert_at].0.as_str(),
            p.0.as_str(),
        ) {
            proof {
                assert(spec_key_in(p.0@, out@));
            }
            clash = true;
        }
        if !clash {
            let ghost before = out@;
            let ghost pj = j as int;
            let ghost key_v = p.0@;
            proof {
                lemma_jv_member_views_index(before);
                assert forall|q: int| 0 <= q < before.len() implies (#[trigger] before[q]).0@
                    != key_v by {
                    crate::text::lemma_chars_lt_trichotomy(before[q].0@, key_v);
                    if q > pj {
                        assert(chars_lt(
                            jv_member_views(before)[pj].0,
                            jv_member_views(before)[q].0,
                        ));
                        assert(chars_lt(before[pj].0@, before[q].0@));
                        if before[q].0@ == key_v {
                            assert(chars_lt(before[pj].0@, key_v));
                            assert(false);
                        }
                    }
                }
                assert forall|i: int| 0 <= i < taken - 1 implies (#[trigger] orig[i]).0@ != orig[taken - 1].0@ by {
                    assert(spec_key_in(orig[i].0@, before));
                    let q0 = choose|q0: int|
                        0 <= q0 < before.len() && (#[trigger] before[q0]).0@ == orig[i].0@;
                    assert(before[q0].0@ != key_v);
                }
                assert(spec_first_with_key(orig, taken - 1));
            }
            out.insert(j, p);
            proof {
                lemma_jv_member_views_index(out@);
                assert(out@ =~= before.take(pj) + seq![out@[pj]] + before.skip(pj));
                assert forall|a: int, b: int|
                    0 <= a < b < out@.len() implies chars_lt(
                    (#[trigger] jv_member_views(out@)[a]).0,
                    (#[trigger] jv_member_views(out@)[b]).0,
                ) by {
                    if b < pj {
                        assert(out@[a] == before[a] && out@[b] == before[b]);
                    } else if a < pj && b == pj {
                        assert(out@[a] == before[a]);
                    } else if a == pj && b > pj {
                        assert(out@[b] == before[b - 1]);
                        if pj < before.len() {
                            if b - 1 > pj {
                                assert(chars_lt(before[pj].0@, before[b - 1].0@));
                                crate::text::lemma_chars_lt_trichotomy(key_v, before[pj].0@);
                                crate::text::lemma_chars_lt_transitive(
                                    key_v,
                                    before[pj].0@,
                                    before[b - 1].0@,
                                );
                            } else {
                                crate::text::lemma_chars_lt_trichotomy(key_v, before[pj].0@);
                            }
                        }
                    } else if a < pj && b > pj {
                        assert(out@[a] == before[a]);
                        assert(out@[b] == before[b - 1]);
                    } else {
                        assert(out@[a] == before[a - 1]);
                        assert(out@[b] == before[b - 1]);
                    }
                }
                assert forall|k: int|
                    0 <= k < out@.len() implies exists|j2: int|
                    0 <= j2 < orig.len() && (#[trigger] out@[k]) == orig[j2] by {
                    if k < pj {
                        assert(out@[k] == before[k]);
                    } else if k == pj {
                        assert(out@[k] == orig[taken - 1]);
                    } else {
                        assert(out@[k] == before[k - 1]);
                    }
                }
                assert forall|j2: int|
                    spec_first_with_key(orig, j2) && j2 < taken implies spec_member_in(
                    orig[j2],
                    out@,
                ) by {
                    if j2 == taken - 1 {
                        assert(out@[pj] == orig[j2]);
                    } else {
                        assert(spec_member_in(orig[j2], before));
                        let k0 = choose|k0: int|
                            0 <= k0 < before.len() && (#[trigger] before[k0]) == orig[j2];
                        if k0 < pj {
                            assert(out@[k0] == before[k0]);
                        } else {
                            assert(out@[k0 + 1] == before[k0]);
                        }
                    }
                }
                assert forall|k: int|
                    0 <= k < out@.len() implies spec_from_first(#[trigger] out@[k], orig, taken) by {
                    if k < pj {
                        assert(spec_from_first(before[k], orig, taken - 1));
                        let j0 = choose|j0: int|
                            spec_first_with_key(orig, j0) && j0 < taken - 1 && before[k] == #[trigger] orig[j0];
                        assert(out@[k] == orig[j0]);
                    } else if k == pj {
                        assert(out@[k] == orig[taken - 1]);
                        assert(spec_first_with_key(orig, taken - 1));
                    } else {
                        assert(spec_from_first(before[k - 1], orig, taken - 1));
                        let j0 = choose|j0: int|
                            spec_first_with_key(orig, j0) && j0 < taken - 1 && before[k - 1] == #[trigger] orig[j0];
                        assert(out@[k] == orig[j0]);
                    }
                }
                assert forall|j2: int|
                    0 <= j2 < taken implies spec_key_in((#[trigger] orig[j2]).0@, out@) by {
                    if j2 == taken - 1 {
                        assert(out@[pj].0@ == orig[j2].0@);
                    } else {
                        assert(spec_key_in(orig[j2].0@, before));
                        let k0 = choose|k0: int|
                            0 <= k0 < before.len() && (#[trigger] before[k0]).0@ == orig[j2].0@;
                        if k0 < pj {
                            assert(out@[k0] == before[k0]);
                        } else {
                            assert(out@[k0 + 1] == before[k0]);
                        }
                    }
                }
            }
        } else {
            proof {
                assert(spec_key_in(p.0@, out@));
                let q = choose|q: int| 0 <= q < out@.len() && (#[trigger] out@[q]).0@ == p.0@;
                assert(spec_from_first(out@[q], orig, taken - 1));
                let j0 = choose|j0: int|
                    spec_first_with_key(orig, j0) && j0 < taken - 1 && out@[q] == #[trigger] orig[j0];
                assert(orig[j0].0@ == orig[taken - 1].0@);
                assert(!spec_first_with_key(orig, taken - 1));
                assert forall|j2: int|
                    spec_first_with_key(orig, j2) && j2 < taken implies spec_member_in(
                    orig[j2],
                    out@,
                ) by {
                    if j2 == taken - 1 {
                        assert(false);
                    }
                }
                assert forall|k: int|
                    0 <= k < out@.len() implies spec_from_first(#[trigger] out@[k], orig, taken) by {
                    assert(spec_from_first(out@[k], orig, taken - 1));
                    let j1 = choose|j1: int|
                        spec_first_with_key(orig, j1) && j1 < taken - 1 && out@[k] == #[trigger] orig[j1];
                }
                assert(spec_key_in(orig[taken - 1].0@, out@));
            }
        }
    }
    out
}

} // verus!
