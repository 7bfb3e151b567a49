//! The codec's round trip: parsing a canonically serialized JSON value
//! yields that value back. `lemma_parse_of_canonical` is the statement;
//! the lemmas before it walk the grammar layer by layer.

use vstd::prelude::*;
use crate::api::{Command, Region};
use crate::encode::{spec_command_json, spec_region_json, spec_regions_json};
use crate::json::{
    spec_digits, spec_escape, spec_escape_byte, spec_hex_digit, spec_ser, spec_ser_elems,
    spec_ser_members, spec_ser_int, spec_ser_str, wf_jv, JsonV,
};
use crate::parse::{
    is_digit, is_hex, is_ws, hex_val, sp_digits_from, sp_elems, sp_members, sp_number, sp_parse,
    sp_strbody, sp_value, sp_ws,
};

verus! {

spec fn pow10(n: nat) -> int
    decreases n,
{
    if n == 0 {
        1
    } else {
        10 * pow10((n - 1) as nat)
    }
}

/// The number a digit string denotes.
spec fn digits_val(d: Seq<u8>) -> int
    decreases d,
{
    if d.len() == 0 {
        0
    } else {
        digits_val(d.drop_last()) * 10 + (d.last() - 48)
    }
}

spec fn all_digits(d: Seq<u8>) -> bool {
    forall|i: int| 0 <= i < d.len() ==> is_digit(#[trigger] d[i])
}

proof fn lemma_digits_shape(m: nat)
    ensures
        spec_digits(m).len() >= 1,
        all_digits(spec_digits(m)),
        digits_val(spec_digits(m)) == m,
        m >= 1 ==> spec_digits(m)[0] != 48,
    decreases m,
{
    if m < 10 {
        assert(spec_digits(m) =~= seq![(48 + m) as u8]);
        assert(spec_digits(m).drop_last() =~= Seq::<u8>::empty());
        assert(digits_val(Seq::<u8>::empty()) == 0);
    } else {
        lemma_digits_shape(m / 10);
        let d = spec_digits(m);
        let front = spec_digits(m / 10);
        assert(d =~= front + seq![(48 + m % 10) as u8]);
        assert(d.drop_last() =~= front);
        assert forall|i: int| 0 <= i < d.len() implies is_digit(#[trigger] d[i]) by {
            if i < front.len() {
                assert(d[i] == front[i]);
            }
        }
        assert(d[0] == front[0]);
    }
}

/// Peeling the first digit off a digit string.
proof fn lemma_val_first(d: Seq<u8>)
    requires
        d.len() >= 1,
    ensures
        digits_val(d) == (d[0] - 48) * pow10((d.len() - 1) as nat) + digits_val(d.drop_first()),
    decreases d.len(),
{
    if d.len() == 1 {
        assert(d.drop_last() =~= Seq::<u8>::empty());
        assert(d.drop_first() =~= Seq::<u8>::empty());
        assert(digits_val(Seq::<u8>::empty()) == 0);
        assert(digits_val(d) == (d[0] - 48) * 1) by {
            assert((d[0] - 48) * 1 == d[0] - 48) by (nonlinear_arith);
        }
    } else {
        let dl = d.drop_last();
        lemma_val_first(dl);
        assert(dl.drop_first() =~= d.drop_first().drop_last());
        assert(d.drop_first().last() == d.last());
        let k = (d.len() - 2) as nat;
        assert(digits_val(d) == digits_val(dl) * 10 + (d.last() - 48));
        assert(digits_val(dl) == (d[0] - 48) * pow10(k) + digits_val(dl.drop_first()));
        assert(((d[0] - 48) * pow10(k) + digits_val(dl.drop_first())) * 10 == (d[0] - 48) * pow10(
            k,
        ) * 10 + digits_val(dl.drop_first()) * 10) by (nonlinear_arith);
        assert((d[0] - 48) * pow10(k) * 10 == (d[0] - 48) * (pow10(k) * 10)) by (nonlinear_arith);
        assert(pow10(k) * 10 == pow10((d.len() - 1) as nat));
        assert(digits_val(d.drop_first()) == digits_val(dl.drop_first()) * 10 + (d.last() - 48));
    }
}

/// Reading a maximal digit run from position `j` yields the run's value on
/// top of the accumulator.
proof fn lemma_parse_digit_run(s: Seq<u8>, j: int, k: int, acc: int)
    requires
        0 <= j,
        j + k <= s.len(),
        k >= 0,
        0 <= acc,
        all_digits(s.subrange(j, j + k)),
        j + k == s.len() || !is_digit(s[j + k]),
    ensures
        sp_digits_from(s, j, acc) == (acc * pow10(k as nat) + digits_val(s.subrange(j, j + k)), j
            + k),
    decreases k,
{
    let d = s.subrange(j, j + k);
    if k == 0 {
        assert(d =~= Seq::<u8>::empty());
        assert(digits_val(Seq::<u8>::empty()) == 0);
        assert(acc * 1 == acc) by (nonlinear_arith);
    } else {
        assert(is_digit(s[j])) by {
            assert(d[0] == s[j]);
        }
        let acc2 = acc * 10 + (s[j] - 48);
        assert(acc * 10 >= 0) by (nonlinear_arith)
            requires
                acc >= 0,
        ;
        assert(acc2 >= 0);
        assert(d.drop_first() =~= s.subrange(j + 1, j + k));
        assert forall|i: int| 0 <= i < k - 1 implies is_digit(
            #[trigger] s.subrange(j + 1, j + k)[i],
        ) by {
            assert(s.subrange(j + 1, j + k)[i] == d[i + 1]);
        }
        lemma_parse_digit_run(s, j + 1, k - 1, acc2);
        lemma_val_first(d);
        let p = pow10((k - 1) as nat);
        assert((acc * 10 + (s[j] - 48)) * p == acc * 10 * p + (s[j] - 48) * p)
            by (nonlinear_arith);
        assert(acc * 10 * p == acc * (10 * p)) by (nonlinear_arith);
        assert(10 * p == pow10(k as nat));
        assert(sp_digits_from(s, j, acc) == sp_digits_from(s, j + 1, acc2));
    }
}

/// Reading back a canonically printed integer.
proof fn lemma_parse_int(s: Seq<u8>, i: int, n: int)
    requires
        -(i128::MAX as int) <= n <= i128::MAX as int,
        0 <= i,
        i + spec_ser_int(n).len() <= s.len(),
        s.subrange(i, i + spec_ser_int(n).len()) == spec_ser_int(n),
        i + spec_ser_int(n).len() == s.len() || !is_digit(s[i + spec_ser_int(n).len()]),
    ensures
        sp_number(s, i) == Option::Some((n, i + spec_ser_int(n).len())),
{
    let t = spec_ser_int(n);
    if n >= 0 {
        lemma_digits_shape(n as nat);
        assert(t == spec_digits(n as nat));
        assert(s[i] == t[0]);
        assert(all_digits(t));
        assert(is_digit(s[i]));
        assert(s[i] != 45);
        if n == 0 {
            assert(t =~= seq![48u8]);
            assert(s[i] == 48);
        } else {
            assert(s[i] != 48);
            assert(s.subrange(i, i + t.len()) =~= t);
            assert forall|q: int| 0 <= q < t.len() implies is_digit(
                #[trigger] s.subrange(i, i + t.len())[q],
            ) by {
                assert(s.subrange(i, i + t.len())[q] == t[q]);
            }
            lemma_parse_digit_run(s, i, t.len() as int, 0);
            assert(0 * pow10(t.len() as nat) == 0) by (nonlinear_arith);
            assert(digits_val(s.subrange(i, i + t.len())) == n);
        }
    } else {
        let mag = (-n) as nat;
        lemma_digits_shape(mag);
        assert(t == seq![45u8] + spec_digits(mag));
        assert(s[i] == t[0]);
        assert(t[0] == 45);
        let dl = spec_digits(mag).len() as int;
        assert(s.subrange(i + 1, i + 1 + dl) =~= spec_digits(mag)) by {
            assert forall|q: int| 0 <= q < dl implies s.subrange(i + 1, i + 1 + dl)[q]
                == spec_digits(mag)[q] by {
                assert(s.subrange(i + 1, i + 1 + dl)[q] == s.subrange(i, i + t.len())[q + 1]);
                assert(t[q + 1] == spec_digits(mag)[q]);
            }
        }
        assert(s[i + 1] == spec_digits(mag)[0]);
        assert(is_digit(s[i + 1]));
        assert(s[i + 1] != 48);
        assert forall|q: int| 0 <= q < dl implies is_digit(
            #[trigger] s.subrange(i + 1, i + 1 + dl)[q],
        ) by {
            assert(s.subrange(i + 1, i + 1 + dl)[q] == spec_digits(mag)[q]);
        }
        lemma_parse_digit_run(s, i + 1, dl, 0);
        assert(0 * pow10(dl as nat) == 0) by (nonlinear_arith);
        assert(digits_val(s.subrange(i + 1, i + 1 + dl)) == mag);
    }
}

proof fn lemma_hex_digit_reads_back(n: int)
    requires
        0 <= n < 16,
    ensures
        is_hex(spec_hex_digit(n)),
        hex_val(spec_hex_digit(n)) == n,
{
}

/// Reading back an escaped string body followed by its closing quote.
proof fn lemma_parse_strbody(t: Seq<u8>, s: Seq<u8>, i: int)
    requires
        0 <= i,
        i + spec_escape(t).len() + 1 <= s.len(),
        s.subrange(i, i + spec_escape(t).len()) == spec_escape(t),
        s[i + spec_escape(t).len()] == 34,
    ensures
        sp_strbody(s, i) == Option::Some((t, i + spec_escape(t).len() + 1)),
    decreases t.len(),
{
    let e = spec_escape(t);
    if t.len() == 0 {
        assert(e =~= Seq::<u8>::empty());
        assert(s[i] == 34);
        assert(t =~= Seq::<u8>::empty());
    } else {
        let b = t[0];
        let eb = spec_escape_byte(b);
        let rest = t.drop_first();
        let er = spec_escape(rest);
        let w = eb.len() as int;
        assert(e == eb + er);
        assert forall|q: int| 0 <= q < w implies s[i + q] == eb[q] by {
            assert(s.subrange(i, i + e.len() as int)[q] == e[q]);
            assert(e[q] == eb[q]);
        }
        assert(s.subrange(i + w, i + w + er.len() as int) =~= er) by {
            assert forall|q: int| 0 <= q < er.len() implies s.subrange(
                i + w,
                i + w + er.len() as int,
            )[q] == er[q] by {
                assert(s.subrange(i, i + e.len() as int)[w + q] == e[w + q]);
                assert(e[w + q] == er[q]);
            }
        }
        assert(s[i + w + er.len() as int] == 34);
        lemma_parse_strbody(rest, s, i + w);
        assert(seq![b] + rest =~= t);
        if b == 34 || b == 92 {
            assert(s[i] == 92 && s[i + 1] == b);
        } else if b < 32 {
            assert(eb == seq![
                92u8,
                117u8,
                48u8,
                48u8,
                spec_hex_digit(b as int / 16),
                spec_hex_digit(b as int % 16),
            ]);
            assert(s[i] == 92 && s[i + 1] == 117 && s[i + 2] == 48 && s[i + 3] == 48);
            assert(s[i + 4] == spec_hex_digit(b as int / 16));
            assert(s[i + 5] == spec_hex_digit(b as int % 16));
            lemma_hex_digit_reads_back(b as int / 16);
            lemma_hex_digit_reads_back(b as int % 16);
            assert(hex_val(48) == 0);
            let cp = hex_val(s[i + 2]) * 4096 + hex_val(s[i + 3]) * 256 + hex_val(s[i + 4]) * 16
                + hex_val(s[i + 5]);
            assert(cp == (b as int / 16) * 16 + (b as int % 16));
            assert(cp == b);
        } else {
            assert(s[i] == b);
        }
    }
}

/// The first byte of a canonical serialization: never whitespace, never a
/// separator, and it selects the parser's branch.
proof fn lemma_ser_first_byte(v: JsonV)
    ensures
        spec_ser(v).len() >= 1,
        !is_ws(spec_ser(v)[0]),
        spec_ser(v)[0] != 93 && spec_ser(v)[0] != 125 && spec_ser(v)[0] != 44 && spec_ser(v)[0]
            != 58,
{
    match v {
        JsonV::Int(n) => {
            if n >= 0 {
                lemma_digits_shape(n as nat);
                assert(spec_ser(v)[0] == spec_digits(n as nat)[0]);
                assert(is_digit(spec_ser(v)[0]));
            } else {
                assert(spec_ser(v)[0] == 45);
            }
        },
        _ => {},
    }
}

/// Reading back one canonically serialized value. The byte after it, if it
/// is looked at, must be a separator or closer, so that a number is not
/// extended.
proof fn rt_value(v: JsonV, s: Seq<u8>, i: int, fuel: nat)
    requires
        wf_jv(v),
        0 <= i,
        i + spec_ser(v).len() <= s.len(),
        s.subrange(i, i + spec_ser(v).len() as int) == spec_ser(v),
        i + spec_ser(v).len() == s.len() || s[i + spec_ser(v).len()] == 44 || s[i + spec_ser(
            v,
        ).len()] == 93 || s[i + spec_ser(v).len()] == 125,
        fuel >= 2 * (s.len() - i) + 1,
    ensures
        sp_value(s, i, fuel) == Option::Some((v, i + spec_ser(v).len())),
    decreases v,
{
    let t = spec_ser(v);
    let l = t.len() as int;
    lemma_ser_first_byte(v);
    assert forall|q: int| 0 <= q < l implies s[i + q] == t[q] by {
        assert(s.subrange(i, i + l)[q] == t[q]);
    }
    match v {
        JsonV::Null => {
            assert(t =~= seq![110u8, 117u8, 108u8, 108u8]);
            assert(s[i] == 110 && s[i + 1] == 117 && s[i + 2] == 108 && s[i + 3] == 108);
            assert(sp_value(s, i, fuel) == Option::Some((v, i + l)));
        },
        JsonV::Bool(b) => {
            if b {
                assert(t =~= seq![116u8, 114u8, 117u8, 101u8]);
                assert(s[i] == 116 && s[i + 1] == 114 && s[i + 2] == 117 && s[i + 3] == 101);
            } else {
                assert(t =~= seq![102u8, 97u8, 108u8, 115u8, 101u8]);
                assert(s[i] == 102 && s[i + 1] == 97 && s[i + 2] == 108 && s[i + 3] == 115 && s[i
                    + 4] == 101);
            }
            assert(sp_value(s, i, fuel) == Option::Some((v, i + l)));
        },
        JsonV::Int(n) => {
            assert(t == spec_ser_int(n));
            if i + l < s.len() {
                assert(!is_digit(s[i + l]));
            }
            lemma_parse_int(s, i, n);
            assert(s[i] != 110 && s[i] != 116 && s[i] != 102 && s[i] != 34 && s[i] != 91 && s[i]
                != 123);
            assert(sp_value(s, i, fuel) == Option::Some((v, i + l)));
        },
        JsonV::Str(b) => {
            assert(t == spec_ser_str(b));
            assert(s[i] == 34);
            let el = spec_escape(b).len() as int;
            assert(s.subrange(i + 1, i + 1 + el) =~= spec_escape(b)) by {
                assert forall|q: int| 0 <= q < el implies s.subrange(i + 1, i + 1 + el)[q]
                    == spec_escape(b)[q] by {
                    assert(s[i + 1 + q] == t[1 + q]);
                    assert(t[1 + q] == spec_escape(b)[q]);
                }
            }
            assert(s[i + 1 + el] == t[1 + el]);
            assert(t[1 + el] == 34);
            lemma_parse_strbody(b, s, i + 1);
            assert(sp_value(s, i, fuel) == Option::Some((v, i + l)));
        },
        JsonV::Arr(a) => {
            assert(s[i] == 91);
            assert(s[i + l - 1] == t[l - 1]);
            if a.len() == 0 {
                assert(spec_ser_elems(a) =~= Seq::<u8>::empty());
                assert(t =~= seq![91u8, 93u8]);
                assert(l == 2);
                assert(s[i + 1] == 93);
                assert(sp_ws(s, i + 1) == i + 1);
                assert(a =~= Seq::<JsonV>::empty());
            } else {
                let el = spec_ser_elems(a).len() as int;
                assert(l == el + 2);
                lemma_ser_first_byte(a[0]);
                assert(spec_ser_elems(a)[0] == spec_ser(a[0])[0]) by {
                    if a.len() >= 2 {
                        assert(spec_ser_elems(a) == spec_ser(a[0]) + seq![44u8]
                            + spec_ser_elems(a.drop_first()));
                    }
                }
                assert(s[i + 1] == t[1]);
                assert(t[1] == spec_ser_elems(a)[0]);
                assert(!is_ws(s[i + 1]));
                assert(sp_ws(s, i + 1) == i + 1);
                assert(s[i + 1] != 93);
                assert(s.subrange(i + 1, i + 1 + el) =~= spec_ser_elems(a)) by {
                    assert forall|q: int| 0 <= q < el implies s.subrange(i + 1, i + 1 + el)[q]
                        == spec_ser_elems(a)[q] by {
                        assert(s[i + 1 + q] == t[1 + q]);
                        assert(t[1 + q] == spec_ser_elems(a)[q]);
                    }
                }
                assert(s[i + 1 + el] == t[1 + el]);
                assert(t[1 + el] == 93);
                rt_elems(a, s, i + 1, (fuel - 1) as nat);
            }
            assert(sp_value(s, i, fuel) == Option::Some((v, i + l)));
        },
        JsonV::Obj(o) => {
            assert(s[i] == 123);
            if o.len() == 0 {
                assert(spec_ser_members(o) =~= Seq::<u8>::empty());
                assert(t =~= seq![123u8, 125u8]);
                assert(l == 2);
                assert(s[i + 1] == 125);
                assert(sp_ws(s, i + 1) == i + 1);
                assert(o =~= Seq::<(Seq<u8>, JsonV)>::empty());
            } else {
                let el = spec_ser_members(o).len() as int;
                assert(l == el + 2);
                assert(spec_ser_members(o)[0] == 34) by {
                    if o.len() >= 2 {
                        assert(spec_ser_members(o) == spec_ser_str(o[0].0) + seq![58u8]
                            + spec_ser(o[0].1) + seq![44u8] + spec_ser_members(o.drop_first()));
                    }
                    assert(spec_ser_str(o[0].0)[0] == 34);
                }
                assert(s[i + 1] == t[1]);
                assert(t[1] == spec_ser_members(o)[0]);
                assert(sp_ws(s, i + 1) == i + 1);
                assert(s[i + 1] != 125);
                assert(s.subrange(i + 1, i + 1 + el) =~= spec_ser_members(o)) by {
                    assert forall|q: int| 0 <= q < el implies s.subrange(i + 1, i + 1 + el)[q]
                        == spec_ser_members(o)[q] by {
                        assert(s[i + 1 + q] == t[1 + q]);
                        assert(t[1 + q] == spec_ser_members(o)[q]);
                    }
                }
                assert(s[i + 1 + el] == t[1 + el]);
                assert(t[1 + el] == 125);
                rt_members(o, s, i + 1, (fuel - 1) as nat);
            }
            assert(sp_value(s, i, fuel) == Option::Some((v, i + l)));
        },
    }
}

/// Reading back one or more serialized array elements and the `]` after
/// them.
proof fn rt_elems(vs: Seq<JsonV>, s: Seq<u8>, i: int, fuel: nat)
    requires
        vs.len() >= 1,
        forall|q: int| 0 <= q < vs.len() ==> wf_jv(#[trigger] vs[q]),
        0 <= i,
        i + spec_ser_elems(vs).len() < s.len(),
        s.subrange(i, i + spec_ser_elems(vs).len() as int) == spec_ser_elems(vs),
        s[i + spec_ser_elems(vs).len()] == 93,
        fuel >= 2 * (s.len() - i) + 2,
    ensures
        sp_elems(s, i, fuel) == Option::Some((vs, i + spec_ser_elems(vs).len() + 1)),
    decreases vs,
{
    let e = spec_ser_elems(vs);
    let el = e.len() as int;
    assert forall|q: int| 0 <= q < el implies s[i + q] == e[q] by {
        assert(s.subrange(i, i + el)[q] == e[q]);
    }
    let v0 = vs[0];
    let l0 = spec_ser(v0).len() as int;
    if vs.len() == 1 {
        assert(e == spec_ser(v0));
        assert(s.subrange(i, i + l0) =~= spec_ser(v0));
        rt_value(v0, s, i, (fuel - 1) as nat);
        let n = i + l0;
        assert(s[n] == 93);
        assert(sp_ws(s, n) == n);
        assert(seq![v0] =~= vs);
    } else {
        let rest = vs.drop_first();
        let er = spec_ser_elems(rest);
        assert(e == spec_ser(v0) + seq![44u8] + er);
        assert(s.subrange(i, i + l0) =~= spec_ser(v0)) by {
            assert forall|q: int| 0 <= q < l0 implies s.subrange(i, i + l0)[q] == spec_ser(v0)[q]
                by {
                assert(s[i + q] == e[q]);
                assert(e[q] == spec_ser(v0)[q]);
            }
        }
        assert(s[i + l0] == e[l0]);
        assert(e[l0] == 44);
        rt_value(v0, s, i, (fuel - 1) as nat);
        let n = i + l0;
        assert(sp_ws(s, n) == n);
        let m2 = n + 1;
        lemma_ser_first_byte(rest[0]);
        assert(er[0] == spec_ser(rest[0])[0]) by {
            if rest.len() >= 2 {
                assert(er == spec_ser(rest[0]) + seq![44u8] + spec_ser_elems(rest.drop_first()));
            }
        }
        assert(s[m2] == e[l0 + 1]);
        assert(e[l0 + 1] == er[0]);
        assert(!is_ws(s[m2]));
        assert(sp_ws(s, m2) == m2);
        assert(s.subrange(m2, m2 + er.len() as int) =~= er) by {
            assert forall|q: int| 0 <= q < er.len() implies s.subrange(
                m2,
                m2 + er.len() as int,
            )[q] == er[q] by {
                assert(s[m2 + q] == e[l0 + 1 + q]);
                assert(e[l0 + 1 + q] == er[q]);
            }
        }
        assert(s[m2 + er.len() as int] == 93);
        assert forall|q: int| 0 <= q < rest.len() implies wf_jv(#[trigger] rest[q]) by {
            assert(rest[q] == vs[q + 1]);
        }
        rt_elems(rest, s, m2, (fuel - 1) as nat);
        assert(seq![v0] + rest =~= vs);
    }
}

/// Reading back one or more serialized object members and the `}` after
/// them.
proof fn rt_members(o: Seq<(Seq<u8>, JsonV)>, s: Seq<u8>, i: int, fuel: nat)
    requires
        o.len() >= 1,
        forall|q: int| 0 <= q < o.len() ==> wf_jv((#[trigger] o[q]).1),
        0 <= i,
        i + spec_ser_members(o).len() < s.len(),
        s.subrange(i, i + spec_ser_members(o).len() as int) == spec_ser_members(o),
        s[i + spec_ser_members(o).len()] == 125,
        fuel >= 2 * (s.len() - i) + 2,
    ensures
        sp_members(s, i, fuel) == Option::Some((o, i + spec_ser_members(o).len() + 1)),
    decreases o,
{
    let e = spec_ser_members(o);
    let el = e.len() as int;
    assert forall|q: int| 0 <= q < el implies s[i + q] == e[q] by {
        assert(s.subrange(i, i + el)[q] == e[q]);
    }
    let k0 = o[0].0;
    let v0 = o[0].1;
    let kl = spec_ser_str(k0).len() as int;
    let l0 = spec_ser(v0).len() as int;
    let head = spec_ser_str(k0) + seq![58u8] + spec_ser(v0);
    if o.len() == 1 {
        assert(e == head);
    } else {
        assert(e == head + seq![44u8] + spec_ser_members(o.drop_first()));
    }
    assert(s[i] == e[0]);
    assert(e[0] == spec_ser_str(k0)[0]);
    assert(spec_ser_str(k0)[0] == 34);
    let esc = spec_escape(k0);
    assert(s.subrange(i + 1, i + 1 + esc.len() as int) =~= esc) by {
        assert forall|q: int| 0 <= q < esc.len() implies s.subrange(
            i + 1,
            i + 1 + esc.len() as int,
        )[q] == esc[q] by {
            assert(s[i + 1 + q] == e[1 + q]);
            assert(e[1 + q] == spec_ser_str(k0)[1 + q]);
            assert(spec_ser_str(k0)[1 + q] == esc[q]);
        }
    }
    assert(s[i + 1 + esc.len() as int] == e[1 + esc.len() as int]);
    assert(e[kl - 1] == spec_ser_str(k0)[kl - 1]);
    assert(spec_ser_str(k0)[kl - 1] == 34);
    lemma_parse_strbody(k0, s, i + 1);
    let n = i + kl;
    assert(s[n] == e[kl]);
    assert(e[kl] == 58);
    assert(sp_ws(s, n) == n);
    let m2 = n + 1;
    lemma_ser_first_byte(v0);
    assert(s[m2] == e[kl + 1]);
    assert(e[kl + 1] == spec_ser(v0)[0]);
    assert(sp_ws(s, m2) == m2);
    assert(s.subrange(m2, m2 + l0) =~= spec_ser(v0)) by {
        assert forall|q: int| 0 <= q < l0 implies s.subrange(m2, m2 + l0)[q] == spec_ser(v0)[q]
            by {
            assert(s[m2 + q] == e[kl + 1 + q]);
            assert(e[kl + 1 + q] == spec_ser(v0)[q]);
        }
    }
    let p = m2 + l0;
    if o.len() == 1 {
        assert(p == i + el);
        assert(s[p] == 125);
        rt_value(v0, s, m2, (fuel - 1) as nat);
        assert(sp_ws(s, p) == p);
        assert(seq![(k0, v0)] =~= o);
    } else {
        let rest = o.drop_first();
        let er = spec_ser_members(rest);
        assert(s[p] == e[kl + 1 + l0]);
        assert(e[kl + 1 + l0] == 44);
        rt_value(v0, s, m2, (fuel - 1) as nat);
        assert(sp_ws(s, p) == p);
        let q2 = p + 1;
        assert(er[0] == spec_ser_str(rest[0].0)[0]) by {
            if rest.len() >= 2 {
                assert(er == spec_ser_str(rest[0].0) + seq![58u8] + spec_ser(rest[0].1)
                    + seq![44u8] + spec_ser_members(rest.drop_first()));
            }
        }
        assert(s[q2] == e[kl + 2 + l0]);
        assert(e[kl + 2 + l0] == er[0]);
        assert(er[0] == 34);
        assert(sp_ws(s, q2) == q2);
        assert(s.subrange(q2, q2 + er.len() as int) =~= er) by {
            assert forall|w: int| 0 <= w < er.len() implies s.subrange(
                q2,
                q2 + er.len() as int,
            )[w] == er[w] by {
                assert(s[q2 + w] == e[kl + 2 + l0 + w]);
                assert(e[kl + 2 + l0 + w] == er[w]);
            }
        }
        assert(s[q2 + er.len() as int] == 125);
        assert forall|w: int| 0 <= w < rest.len() implies wf_jv((#[trigger] rest[w]).1) by {
            assert(rest[w] == o[w + 1]);
        }
        rt_members(rest, s, q2, (fuel - 1) as nat);
        assert(seq![(k0, v0)] + rest =~= o);
    }
}

/// Law: the codec round-trips. Parsing the canonical serialization of any
/// well-formed JSON value yields exactly that value.
pub proof fn lemma_parse_of_canonical(v: JsonV)
    requires
        wf_jv(v),
    ensures
        sp_parse(spec_ser(v)) == Option::Some(v),
{
    reveal(sp_parse);
    let s = spec_ser(v);
    lemma_ser_first_byte(v);
    assert(sp_ws(s, 0) == 0);
    assert(s.subrange(0, s.len() as int) =~= s);
    rt_value(v, s, 0, (2 * s.len() + 2) as nat);
    assert(sp_ws(s, s.len() as int) == s.len() as int);
}

proof fn lemma_wf_region(r: Region)
    ensures
        wf_jv(spec_region_json(r)),
{
    let o = spec_region_json(r)->Obj_0;
    match r.params {
        Option::Some(p) => {
            assert(o.len() == 5);
            assert(o[0].1 is Str && o[1].1 is Str && o[2].1 is Str && o[4].1 is Str);
            let po = o[3].1->Obj_0;
            assert(po.len() == 2 && po[0].1 is Bool && po[1].1 is Bool);
            assert(wf_jv(o[3].1)) by {
                assert forall|w: int| 0 <= w < po.len() implies wf_jv((#[trigger] po[w]).1) by {
                    assert(w == 0 || w == 1);
                }
            }
            assert forall|q: int| 0 <= q < o.len() implies wf_jv((#[trigger] o[q]).1) by {
                assert(q == 0 || q == 1 || q == 2 || q == 3 || q == 4);
            }
        },
        Option::None => {
            assert(o.len() == 4);
            assert(o[0].1 is Str && o[1].1 is Str && o[2].1 is Str && o[3].1 is Str);
            assert forall|q: int| 0 <= q < o.len() implies wf_jv((#[trigger] o[q]).1) by {
                assert(q == 0 || q == 1 || q == 2 || q == 3);
            }
        },
    }
}

proof fn lemma_wf_command_json(c: Command, time: u64)
    ensures
        wf_jv(spec_command_json(c, time)),
{
    let o = spec_command_json(c, time)->Obj_0;
    match c {
        Command::Start { start_regions: Option::Some(sr) } => {
            assert(o.len() == 7);
            assert(o[0].1 is Str && o[2].1 is Str && o[3].1 is Str && o[4].1 is Str);
            assert(o[1].1 == JsonV::Int(time as int));
            assert(o[5].1 == JsonV::Int(sr.ordered as int));
            let a = o[6].1->Arr_0;
            assert(a == spec_regions_json(sr.regions@));
            assert(wf_jv(o[6].1)) by {
                assert forall|w: int| 0 <= w < a.len() implies wf_jv(#[trigger] a[w]) by {
                    lemma_wf_region(sr.regions@[w]);
                    assert(a[w] == spec_region_json(sr.regions@[w]));
                }
            }
            assert forall|q: int| 0 <= q < o.len() implies wf_jv((#[trigger] o[q]).1) by {
                assert(q == 0 || q == 1 || q == 2 || q == 3 || q == 4 || q == 5 || q == 6);
            }
        },
        _ => {
            assert(o.len() == 3);
            assert(o[0].1 is Str && o[2].1 is Str);
            assert(o[1].1 == JsonV::Int(time as int));
            assert forall|q: int| 0 <= q < o.len() implies wf_jv((#[trigger] o[q]).1) by {
                assert(q == 0 || q == 1 || q == 2);
            }
        },
    }
}

/// Law: every encoded command envelope parses back, as generic JSON, to
/// exactly the envelope tree that was serialized. Together with
/// `lemma_plain_envelope_keys` this pins what a reader of the wire sees:
/// for a payload-less command, an object of exactly `command`, `time` and
/// `initiator`.
pub proof fn lemma_envelope_parses_back(c: Command, time: u64)
    ensures
        sp_parse(spec_ser(spec_command_json(c, time))) == Option::Some(
            spec_command_json(c, time),
        ),
{
    lemma_wf_command_json(c, time);
    lemma_parse_of_canonical(spec_command_json(c, time));
}

} // verus!
