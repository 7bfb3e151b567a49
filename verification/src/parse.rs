//! A JSON parser for inbound telemetry payloads. The grammar is defined once
//! as a family of specification functions (`sp_*`) over byte sequences; the
//! executable parser mirrors them exactly, so its result is pinned to the
//! specification on every input. Whitespace is tolerated between tokens;
//! numbers are integers; string escapes cover the short forms and `\uXXXX`
//! for code points below 128.

use vstd::prelude::*;
use vstd::slice::slice_subrange;
use crate::json::{Json, JsonV, view_arr, view_members, view_json};

verus! {

pub open spec fn is_ws(b: u8) -> bool {
    b == 32 || b == 9 || b == 10 || b == 13
}

pub open spec fn is_digit(b: u8) -> bool {
    48 <= b <= 57
}

pub open spec fn is_hex(b: u8) -> bool {
    is_digit(b) || (97 <= b <= 102) || (65 <= b <= 70)
}

pub open spec fn hex_val(b: u8) -> int {
    if is_digit(b) {
        b - 48
    } else if 97 <= b <= 102 {
        b - 87
    } else {
        b - 55
    }
}

/// The first position at or after `i` that holds no whitespace.
pub open spec fn sp_ws(s: Seq<u8>, i: int) -> int
    decreases s.len() - i when 0 <= i <= s.len()
{
    if i < s.len() && is_ws(s[i]) {
        sp_ws(s, i + 1)
    } else {
        i
    }
}

pub proof fn lemma_sp_ws_bounds(s: Seq<u8>, i: int)
    requires
        0 <= i <= s.len(),
    ensures
        i <= sp_ws(s, i) <= s.len(),
        sp_ws(s, i) < s.len() ==> !is_ws(s[sp_ws(s, i)]),
    decreases s.len() - i,
{
    if i < s.len() && is_ws(s[i]) {
        lemma_sp_ws_bounds(s, i + 1);
    }
}

/// Digits read from position `i` with accumulator `acc`: the value read and
/// the position after the last digit.
pub open spec fn sp_digits_from(s: Seq<u8>, i: int, acc: int) -> (int, int)
    decreases s.len() - i when 0 <= i <= s.len()
{
    if i < s.len() && is_digit(s[i]) {
        sp_digits_from(s, i + 1, acc * 10 + (s[i] - 48))
    } else {
        (acc, i)
    }
}

pub proof fn lemma_sp_digits_bounds(s: Seq<u8>, i: int, acc: int)
    requires
        0 <= i <= s.len(),
        0 <= acc,
    ensures
        acc <= sp_digits_from(s, i, acc).0,
        i <= sp_digits_from(s, i, acc).1 <= s.len(),
    decreases s.len() - i,
{
    if i < s.len() && is_digit(s[i]) {
        lemma_sp_digits_bounds(s, i + 1, acc * 10 + (s[i] - 48));
    }
}

/// A number starting at `i`: an optional minus sign, then digits without a
/// leading zero, with a value no larger than `i128` can carry.
pub open spec fn sp_number(s: Seq<u8>, i: int) -> Option<(int, int)>
    recommends
        0 <= i < s.len(),
{
    let neg = s[i] == 45;
    let j = if neg {
        i + 1
    } else {
        i
    };
    if j < s.len() && is_digit(s[j]) {
        if s[j] == 48 {
            if j + 1 < s.len() && is_digit(s[j + 1]) {
                Option::None
            } else {
                Option::Some((0int, j + 1))
            }
        } else {
            let (v, n) = sp_digits_from(s, j, 0);
            if v > i128::MAX as int {
                Option::None
            } else {
                Option::Some(
                    (
                        if neg {
                            -v
                        } else {
                            v
                        },
                        n,
                    ),
                )
            }
        }
    } else {
        Option::None
    }
}

pub proof fn lemma_sp_number_bounds(s: Seq<u8>, i: int)
    requires
        0 <= i < s.len(),
    ensures
        sp_number(s, i) matches Some(p) ==> i < p.1 <= s.len() && -(i128::MAX as int) <= p.0
            <= i128::MAX as int,
{
    let neg = s[i] == 45;
    let j = if neg {
        i + 1
    } else {
        i
    };
    if j < s.len() && is_digit(s[j]) && s[j] != 48 {
        lemma_sp_digits_bounds(s, j + 1, s[j] - 48);
        assert(sp_digits_from(s, j, 0) == sp_digits_from(s, j + 1, (s[j] - 48) as int));
    }
}

pub open spec fn sp_prepend(b: u8, r: Option<(Seq<u8>, int)>) -> Option<(Seq<u8>, int)> {
    match r {
        Option::None => Option::None,
        Option::Some((t, n)) => Option::Some((seq![b] + t, n)),
    }
}

/// The body of a string, read from just after the opening quote up to and
/// including the closing quote: the unescaped bytes and the position after
/// the closing quote.
pub open spec fn sp_strbody(s: Seq<u8>, i: int) -> Option<(Seq<u8>, int)>
    decreases s.len() - i when 0 <= i <= s.len()
{
    if i >= s.len() {
        Option::None
    } else if s[i] == 34 {
        Option::Some((Seq::empty(), i + 1))
    } else if s[i] == 92 {
        if i + 1 >= s.len() {
            Option::None
        } else {
            let e = s[i + 1];
            if e == 34 || e == 92 || e == 47 {
                sp_prepend(e, sp_strbody(s, i + 2))
            } else if e == 98 {
                sp_prepend(8, sp_strbody(s, i + 2))
            } else if e == 102 {
                sp_prepend(12, sp_strbody(s, i + 2))
            } else if e == 110 {
                sp_prepend(10, sp_strbody(s, i + 2))
            } else if e == 114 {
                sp_prepend(13, sp_strbody(s, i + 2))
            } else if e == 116 {
                sp_prepend(9, sp_strbody(s, i + 2))
            } else if e == 117 {
                if i + 6 <= s.len() && is_hex(s[i + 2]) && is_hex(s[i + 3]) && is_hex(s[i + 4])
                    && is_hex(s[i + 5]) {
                    let cp = hex_val(s[i + 2]) * 4096 + hex_val(s[i + 3]) * 256 + hex_val(
                        s[i + 4],
                    ) * 16 + hex_val(s[i + 5]);
                    if cp < 128 {
                        sp_prepend(cp as u8, sp_strbody(s, i + 6))
                    } else {
                        Option::None
                    }
                } else {
                    Option::None
                }
            } else {
                Option::None
            }
        }
    } else if s[i] < 32 {
        Option::None
    } else {
        sp_prepend(s[i], sp_strbody(s, i + 1))
    }
}

pub proof fn lemma_sp_strbody_bounds(s: Seq<u8>, i: int)
    requires
        0 <= i <= s.len(),
    ensures
        sp_strbody(s, i) matches Some(p) ==> i < p.1 <= s.len(),
    decreases s.len() - i,
{
    if i < s.len() && s[i] != 34 {
        if s[i] == 92 {
            if i + 1 < s.len() {
                if i + 2 <= s.len() {
                    lemma_sp_strbody_bounds(s, i + 2);
                }
                if i + 6 <= s.len() {
                    lemma_sp_strbody_bounds(s, i + 6);
                }
            }
        } else {
            lemma_sp_strbody_bounds(s, i + 1);
        }
    }
}

/// A JSON value starting at `i`, which must not be whitespace. The fuel
/// bounds the nesting recursion; `2 * s.len() + 2` is always enough.
pub open spec fn sp_value(s: Seq<u8>, i: int, fuel: nat) -> Option<(JsonV, int)>
    decreases fuel,
{
    if fuel == 0 {
        Option::None
    } else if !(0 <= i < s.len()) {
        Option::None
    } else {
        let b = s[i];
        if b == 110 {
            if i + 4 <= s.len() && s[i + 1] == 117 && s[i + 2] == 108 && s[i + 3] == 108 {
                Option::Some((JsonV::Null, i + 4))
            } else {
                Option::None
            }
        } else if b == 116 {
            if i + 4 <= s.len() && s[i + 1] == 114 && s[i + 2] == 117 && s[i + 3] == 101 {
                Option::Some((JsonV::Bool(true), i + 4))
            } else {
                Option::None
            }
        } else if b == 102 {
            if s.len() - i >= 5 && s[i + 1] == 97 && s[i + 2] == 108 && s[i + 3] == 115 && s[i + 4]
                == 101 {
                Option::Some((JsonV::Bool(false), i + 5))
            } else {
                Option::None
            }
        } else if b == 34 {
            match sp_strbody(s, i + 1) {
                Option::None => Option::None,
                Option::Some((t, n)) => Option::Some((JsonV::Str(t), n)),
            }
        } else if b == 45 || is_digit(b) {
            match sp_number(s, i) {
                Option::None => Option::None,
                Option::Some((v, n)) => Option::Some((JsonV::Int(v), n)),
            }
        } else if b == 91 {
            let j = sp_ws(s, i + 1);
            if j < s.len() && s[j] == 93 {
                Option::Some((JsonV::Arr(Seq::empty()), j + 1))
            } else {
                match sp_elems(s, j, (fuel - 1) as nat) {
                    Option::None => Option::None,
                    Option::Some((a, n)) => Option::Some((JsonV::Arr(a), n)),
                }
            }
        } else if b == 123 {
            let j = sp_ws(s, i + 1);
            if j < s.len() && s[j] == 125 {
                Option::Some((JsonV::Obj(Seq::empty()), j + 1))
            } else {
                match sp_members(s, j, (fuel - 1) as nat) {
                    Option::None => Option::None,
                    Option::Some((o, n)) => Option::Some((JsonV::Obj(o), n)),
                }
            }
        } else {
            Option::None
        }
    }
}

/// One or more comma-separated array elements followed by `]`.
pub open spec fn sp_elems(s: Seq<u8>, i: int, fuel: nat) -> Option<(Seq<JsonV>, int)>
    decreases fuel,
{
    if fuel == 0 {
        Option::None
    } else {
        match sp_value(s, i, (fuel - 1) as nat) {
            Option::None => Option::None,
            Option::Some((v, n)) => {
                if !(0 <= n <= s.len()) {
                    Option::None
                } else {
                    let m = sp_ws(s, n);
                    if m < s.len() && s[m] == 44 {
                        let m2 = sp_ws(s, m + 1);
                        match sp_elems(s, m2, (fuel - 1) as nat) {
                            Option::None => Option::None,
                            Option::Some((a, p)) => Option::Some((seq![v] + a, p)),
                        }
                    } else if m < s.len() && s[m] == 93 {
                        Option::Some((seq![v], m + 1))
                    } else {
                        Option::None
                    }
                }
            },
        }
    }
}

/// One or more `"key": value` members followed by `}`.
pub open spec fn sp_members(s: Seq<u8>, i: int, fuel: nat) -> Option<(Seq<(Seq<u8>, JsonV)>, int)>
    decreases fuel,
{
    if fuel == 0 {
        Option::None
    } else if !(0 <= i < s.len() && s[i] == 34) {
        Option::None
    } else {
        match sp_strbody(s, i + 1) {
            Option::None => Option::None,
            Option::Some((k, n)) => {
                if !(0 <= n <= s.len()) {
                    Option::None
                } else {
                    let m = sp_ws(s, n);
                    if m < s.len() && s[m] == 58 {
                        let m2 = sp_ws(s, m + 1);
                        match sp_value(s, m2, (fuel - 1) as nat) {
                            Option::None => Option::None,
                            Option::Some((v, p)) => {
                                if !(0 <= p <= s.len()) {
                                    Option::None
                                } else {
                                    let q = sp_ws(s, p);
                                    if q < s.len() && s[q] == 44 {
                                        let q2 = sp_ws(s, q + 1);
                                        match sp_members(s, q2, (fuel - 1) as nat) {
                                            Option::None => Option::None,
                                            Option::Some((o, r)) => Option::Some(
                                                (seq![(k, v)] + o, r),
                                            ),
                                        }
                                    } else if q < s.len() && s[q] == 125 {
                                        Option::Some((seq![(k, v)], q + 1))
                                    } else {
                                        Option::None
                                    }
                                }
                            },
                        }
                    } else {
                        Option::None
                    }
                }
            },
        }
    }
}

/// The whole-input parse: one value, surrounded only by whitespace.
#[verifier::opaque]
pub open spec fn sp_parse(s: Seq<u8>) -> Option<JsonV> {
    let i = sp_ws(s, 0);
    match sp_value(s, i, (2 * s.len() + 2) as nat) {
        Option::None => Option::None,
        Option::Some((v, n)) => {
            if 0 <= n <= s.len() && sp_ws(s, n) == s.len() {
                Option::Some(v)
            } else {
                Option::None
            }
        },
    }
}

pub proof fn lemma_sp_value_bounds(s: Seq<u8>, i: int, fuel: nat)
    ensures
        sp_value(s, i, fuel) matches Some(p) ==> p.1 <= s.len(),
    decreases fuel,
{
    if fuel > 0 && 0 <= i < s.len() {
        let b = s[i];
        if b == 34 {
            lemma_sp_strbody_bounds(s, i + 1);
        } else if b == 45 || is_digit(b) {
            lemma_sp_number_bounds(s, i);
        } else if b == 91 || b == 123 {
            lemma_sp_ws_bounds(s, i + 1);
            let j = sp_ws(s, i + 1);
            if b == 91 {
                lemma_sp_elems_bounds(s, j, (fuel - 1) as nat);
            } else {
                lemma_sp_members_bounds(s, j, (fuel - 1) as nat);
            }
        }
    }
}

pub proof fn lemma_sp_elems_bounds(s: Seq<u8>, i: int, fuel: nat)
    ensures
        sp_elems(s, i, fuel) matches Some(p) ==> p.1 <= s.len(),
    decreases fuel,
{
    if fuel > 0 {
        lemma_sp_value_bounds(s, i, (fuel - 1) as nat);
        match sp_value(s, i, (fuel - 1) as nat) {
            Option::Some((v, n)) => {
                if 0 <= n <= s.len() {
                    lemma_sp_ws_bounds(s, n);
                    let m = sp_ws(s, n);
                    if m < s.len() && s[m] == 44 {
                        lemma_sp_ws_bounds(s, m + 1);
                        lemma_sp_elems_bounds(s, sp_ws(s, m + 1), (fuel - 1) as nat);
                    }
                }
            },
            Option::None => {},
        }
    }
}

pub proof fn lemma_sp_members_bounds(s: Seq<u8>, i: int, fuel: nat)
    ensures
        sp_members(s, i, fuel) matches Some(p) ==> p.1 <= s.len(),
    decreases fuel,
{
    if fuel > 0 && 0 <= i < s.len() && s[i] == 34 {
        lemma_sp_strbody_bounds(s, i + 1);
        match sp_strbody(s, i + 1) {
            Option::Some((k, n)) => {
                if 0 <= n <= s.len() {
                    lemma_sp_ws_bounds(s, n);
                    let m = sp_ws(s, n);
                    if m < s.len() && s[m] == 58 {
                        lemma_sp_ws_bounds(s, m + 1);
                        let m2 = sp_ws(s, m + 1);
                        lemma_sp_value_bounds(s, m2, (fuel - 1) as nat);
                        match sp_value(s, m2, (fuel - 1) as nat) {
                            Option::Some((v, p)) => {
                                if 0 <= p <= s.len() {
                                    lemma_sp_ws_bounds(s, p);
                                    let q = sp_ws(s, p);
                                    if q < s.len() && s[q] == 44 {
                                        lemma_sp_ws_bounds(s, q + 1);
                                        lemma_sp_members_bounds(
                                            s,
                                            sp_ws(s, q + 1),
                                            (fuel - 1) as nat,
                                        );
                                    }
                                }
                            },
                            Option::None => {},
                        }
                    }
                }
            },
            Option::None => {},
        }
    }
}

fn skip_ws(s: &[u8], i: usize) -> (r: usize)
    requires
        i <= s@.len(),
    ensures
        r == sp_ws(s@, i as int),
        i <= r <= s@.len(),
    decreases s@.len() - i,
{
    if i < s.len() && (s[i] == 32 || s[i] == 9 || s[i] == 10 || s[i] == 13) {
        skip_ws(s, i + 1)
    } else {
        i
    }
}

fn hex_digit_val(b: u8) -> (r: Option<u8>)
    ensures
        r is Some <==> is_hex(b),
        r matches Some(v) ==> v as int == hex_val(b) && v < 16,
{
    if 48 <= b && b <= 57 {
        Option::Some(b - 48)
    } else if 97 <= b && b <= 102 {
        Option::Some(b - 87)
    } else if 65 <= b && b <= 70 {
        Option::Some(b - 55)
    } else {
        Option::None
    }
}

fn p_digits(s: &[u8], i: usize, acc: i128) -> (r: Option<(i128, usize)>)
    requires
        i <= s@.len(),
        0 <= acc,
    ensures
        ({
            let sp = sp_digits_from(s@, i as int, acc as int);
            match r {
                Option::Some(p) => p.0 as int == sp.0 && p.1 as int == sp.1 && 0 <= p.0,
                Option::None => sp.0 > i128::MAX as int,
            }
        }),
    decreases s@.len() - i,
{
    if i < s.len() && 48 <= s[i] && s[i] <= 57 {
        let d = s[i] - 48;
        if acc > i128::MAX / 10 || (acc == i128::MAX / 10 && (d as i128) > i128::MAX % 10) {
            proof {
                assert(acc * 10 + d > i128::MAX as int);
                lemma_sp_digits_bounds(s@, i as int + 1, acc as int * 10 + (s@[i as int] - 48));
            }
            Option::None
        } else {
            proof {
                assert(acc * 10 + d <= i128::MAX as int);
            }
            p_digits(s, i + 1, acc * 10 + (d as i128))
        }
    } else {
        Option::Some((acc, i))
    }
}

fn p_number(s: &[u8], i: usize) -> (r: Option<(i128, usize)>)
    requires
        i < s@.len(),
    ensures
        ({
            let sp = sp_number(s@, i as int);
            match r {
                Option::Some(p) => sp == Option::Some((p.0 as int, p.1 as int)),
                Option::None => sp is None,
            }
        }),
{
    let neg = s[i] == 45;
    let j = if neg {
        i + 1
    } else {
        i
    };
    if j < s.len() && 48 <= s[j] && s[j] <= 57 {
        if s[j] == 48 {
            if j + 1 < s.len() && 48 <= s[j + 1] && s[j + 1] <= 57 {
                Option::None
            } else {
                Option::Some((0, j + 1))
            }
        } else {
            match p_digits(s, j, 0) {
                Option::None => Option::None,
                Option::Some((v, n)) => {
                    if neg {
                        Option::Some((-v, n))
                    } else {
                        Option::Some((v, n))
                    }
                },
            }
        }
    } else {
        Option::None
    }
}

fn p_strbody(s: &[u8], i: usize) -> (r: Option<(Vec<u8>, usize)>)
    requires
        i <= s@.len(),
    ensures
        ({
            let sp = sp_strbody(s@, i as int);
            match r {
                Option::Some(p) => sp matches Some(q) && p.0@ == q.0 && p.1 as int == q.1,
                Option::None => sp is None,
            }
        }),
    decreases s@.len() - i,
{
    if i >= s.len() {
        return Option::None;
    }
    let c = s[i];
    if c == 34 {
        let v: Vec<u8> = Vec::new();
        assert(v@ =~= Seq::<u8>::empty());
        return Option::Some((v, i + 1));
    }
    if c == 92 {
        if i + 1 >= s.len() {
            return Option::None;
        }
        let e = s[i + 1];
        if e == 117 {
            if s.len() - i < 6 {
                return Option::None;
            }
            let h2 = hex_digit_val(s[i + 2]);
            let h3 = hex_digit_val(s[i + 3]);
            let h4 = hex_digit_val(s[i + 4]);
            let h5 = hex_digit_val(s[i + 5]);
            match (h2, h3, h4, h5) {
                (Option::Some(a), Option::Some(b), Option::Some(cc), Option::Some(d)) => {
                    let cp: u32 = (a as u32) * 4096 + (b as u32) * 256 + (cc as u32) * 16 + (
                    d as u32);
                    if cp >= 128 {
                        return Option::None;
                    }
                    match p_strbody(s, i + 6) {
                        Option::None => Option::None,
                        Option::Some((mut t, n)) => {
                            let ghost t0 = t@;
                            t.insert(0, cp as u8);
                            assert(t@ =~= seq![cp as u8] + t0);
                            Option::Some((t, n))
                        },
                    }
                },
                _ => Option::None,
            }
        } else {
            let pre: u8 = if e == 34 || e == 92 || e == 47 {
                e
            } else if e == 98 {
                8
            } else if e == 102 {
                12
            } else if e == 110 {
                10
            } else if e == 114 {
                13
            } else if e == 116 {
                9
            } else {
                return Option::None;
            };
            match p_strbody(s, i + 2) {
                Option::None => Option::None,
                Option::Some((mut t, n)) => {
                    let ghost t0 = t@;
                    t.insert(0, pre);
                    assert(t@ =~= seq![pre] + t0);
                    Option::Some((t, n))
                },
            }
        }
    } else if c < 32 {
        Option::None
    } else {
        match p_strbody(s, i + 1) {
            Option::None => Option::None,
            Option::Some((mut t, n)) => {
                let ghost t0 = t@;
                t.insert(0, c);
                assert(t@ =~= seq![c] + t0);
                Option::Some((t, n))
            },
        }
    }
}

proof fn lemma_view_arr_cons(a: Seq<Json>, x: Json)
    ensures
        view_arr(seq![x] + a) =~= seq![view_json(x)] + view_arr(a),
{
    let whole = seq![x] + a;
    assert(whole.len() == a.len() + 1);
    assert(whole[0] == x);
    assert(whole.drop_first() =~= a);
}

proof fn lemma_view_members_cons(o: Seq<(Vec<u8>, Json)>, k: Vec<u8>, x: Json)
    ensures
        view_members(seq![(k, x)] + o) =~= seq![(k@, view_json(x))] + view_members(o),
{
    let whole = seq![(k, x)] + o;
    assert(whole.len() == o.len() + 1);
    assert(whole[0] == (k, x));
    assert(whole.drop_first() =~= o);
}

fn p_value(s: &[u8], i: usize, fuel: u128) -> (r: Option<(Json, usize)>)
    requires
        i <= s@.len(),
    ensures
        ({
            let sp = sp_value(s@, i as int, fuel as nat);
            match r {
                Option::Some(p) => sp matches Some(q) && p.0@ == q.0 && p.1 as int == q.1,
                Option::None => sp is None,
            }
        }),
    decreases fuel,
{
    if fuel == 0 {
        return Option::None;
    }
    if i >= s.len() {
        return Option::None;
    }
    let b = s[i];
    if b == 110 {
        if s.len() - i >= 4 && s[i + 1] == 117 && s[i + 2] == 108 && s[i + 3] == 108 {
            Option::Some((Json::Null, i + 4))
        } else {
            Option::None
        }
    } else if b == 116 {
        if s.len() - i >= 4 && s[i + 1] == 114 && s[i + 2] == 117 && s[i + 3] == 101 {
            Option::Some((Json::Bool(true), i + 4))
        } else {
            Option::None
        }
    } else if b == 102 {
        if s.len() - i >= 5 && s[i + 1] == 97 && s[i + 2] == 108 && s[i + 3] == 115 && s[i + 4]
            == 101 {
            Option::Some((Json::Bool(false), i + 5))
        } else {
            Option::None
        }
    } else if b == 34 {
        match p_strbody(s, i + 1) {
            Option::None => Option::None,
            Option::Some((t, n)) => Option::Some((Json::Str(t), n)),
        }
    } else if b == 45 || (48 <= b && b <= 57) {
        match p_number(s, i) {
            Option::None => Option::None,
            Option::Some((v, n)) => Option::Some((Json::Int(v), n)),
        }
    } else if b == 91 {
        let j = skip_ws(s, i + 1);
        if j < s.len() && s[j] == 93 {
            let a: Vec<Json> = Vec::new();
            proof {
                assert(view_arr(a@) =~= Seq::<JsonV>::empty());
            }
            Option::Some((Json::Arr(a), j + 1))
        } else {
            match p_elems(s, j, fuel - 1) {
                Option::None => Option::None,
                Option::Some((a, n)) => Option::Some((Json::Arr(a), n)),
            }
        }
    } else if b == 123 {
        let j = skip_ws(s, i + 1);
        if j < s.len() && s[j] == 125 {
            let o: Vec<(Vec<u8>, Json)> = Vec::new();
            proof {
                assert(view_members(o@) =~= Seq::<(Seq<u8>, JsonV)>::empty());
            }
            Option::Some((Json::Obj(o), j + 1))
        } else {
            match p_members(s, j, fuel - 1) {
                Option::None => Option::None,
                Option::Some((o, n)) => Option::Some((Json::Obj(o), n)),
            }
        }
    } else {
        Option::None
    }
}

fn p_elems(s: &[u8], i: usize, fuel: u128) -> (r: Option<(Vec<Json>, usize)>)
    requires
        i <= s@.len(),
    ensures
        ({
            let sp = sp_elems(s@, i as int, fuel as nat);
            match r {
                Option::Some(p) => sp matches Some(q) && view_arr(p.0@) == q.0 && p.1 as int
                    == q.1,
                Option::None => sp is None,
            }
        }),
    decreases fuel,
{
    if fuel == 0 {
        return Option::None;
    }
    match p_value(s, i, fuel - 1) {
        Option::None => Option::None,
        Option::Some((v, n)) => {
            proof {
                lemma_sp_value_bounds(s@, i as int, (fuel - 1) as nat);
            }
            let m = skip_ws(s, n);
            if m < s.len() && s[m] == 44 {
                let m2 = skip_ws(s, m + 1);
                match p_elems(s, m2, fuel - 1) {
                    Option::None => Option::None,
                    Option::Some((mut a, p)) => {
                        let ghost a0 = a@;
                        let ghost vv = v@;
                        a.insert(0, v);
                        proof {
                            assert(a@ =~= seq![a@[0]] + a0);
                            lemma_view_arr_cons(a0, a@[0]);
                        }
                        Option::Some((a, p))
                    },
                }
            } else if m < s.len() && s[m] == 93 {
                let mut a: Vec<Json> = Vec::new();
                let ghost vv = v@;
                a.push(v);
                proof {
                    assert(a@ =~= seq![a@[0]] + Seq::<Json>::empty());
                    lemma_view_arr_cons(Seq::empty(), a@[0]);
                    assert(view_arr(Seq::<Json>::empty()) =~= Seq::<JsonV>::empty());
                    assert(view_arr(a@) =~= seq![vv]);
                }
                Option::Some((a, m + 1))
            } else {
                Option::None
            }
        },
    }
}

fn p_members(s: &[u8], i: usize, fuel: u128) -> (r: Option<(Vec<(Vec<u8>, Json)>, usize)>)
    requires
        i <= s@.len(),
    ensures
        ({
            let sp = sp_members(s@, i as int, fuel as nat);
            match r {
                Option::Some(p) => sp matches Some(q) && view_members(p.0@) == q.0 && p.1 as int
                    == q.1,
                Option::None => sp is None,
            }
        }),
    decreases fuel,
{
    if fuel == 0 {
        return Option::None;
    }
    if !(i < s.len() && s[i] == 34) {
        return Option::None;
    }
    match p_strbody(s, i + 1) {
        Option::None => Option::None,
        Option::Some((k, n)) => {
            proof {
                lemma_sp_strbody_bounds(s@, i as int + 1);
            }
            let m = skip_ws(s, n);
            if m < s.len() && s[m] == 58 {
                let m2 = skip_ws(s, m + 1);
                match p_value(s, m2, fuel - 1) {
                    Option::None => Option::None,
                    Option::Some((v, p)) => {
                        proof {
                            lemma_sp_value_bounds(s@, m2 as int, (fuel - 1) as nat);
                        }
                        let q = skip_ws(s, p);
                        if q < s.len() && s[q] == 44 {
                            let q2 = skip_ws(s, q + 1);
                            match p_members(s, q2, fuel - 1) {
                                Option::None => Option::None,
                                Option::Some((mut o, rr)) => {
                                    let ghost o0 = o@;
                                    let ghost kk = k@;
                                    let ghost vv = v@;
                                    o.insert(0, (k, v));
                                    proof {
                                        assert(o@ =~= seq![o@[0]] + o0);
                                        lemma_view_members_cons(o0, o@[0].0, o@[0].1);
                                        assert(view_members(o@) =~= seq![(kk, vv)]
                                            + view_members(o0));
                                    }
                                    Option::Some((o, rr))
                                },
                            }
                        } else if q < s.len() && s[q] == 125 {
                            let mut o: Vec<(Vec<u8>, Json)> = Vec::new();
                            let ghost kk = k@;
                            let ghost vv = v@;
                            o.push((k, v));
                            proof {
                                assert(o@ =~= seq![o@[0]] + Seq::<(Vec<u8>, Json)>::empty());
                                lemma_view_members_cons(Seq::empty(), o@[0].0, o@[0].1);
                                assert(view_members(Seq::<(Vec<u8>, Json)>::empty())
                                    =~= Seq::<(Seq<u8>, JsonV)>::empty());
                                assert(view_members(o@) =~= seq![(kk, vv)]);
                            }
                            Option::Some((o, q + 1))
                        } else {
                            Option::None
                        }
                    },
                }
            } else {
                Option::None
            }
        },
    }
}

/// Parse a whole payload: one JSON value surrounded only by whitespace.
pub fn parse_bytes(s: &[u8]) -> (r: Option<Json>)
    ensures
        match r {
            Option::Some(j) => sp_parse(s@) == Option::Some(j@),
            Option::None => sp_parse(s@) is None,
        },
{
    proof {
        reveal(sp_parse);
    }
    let i = skip_ws(s, 0);
    let fuel: u128 = 2 * (s.len() as u128) + 2;
    match p_value(s, i, fuel) {
        Option::None => Option::None,
        Option::Some((j, n)) => {
            proof {
                lemma_sp_value_bounds(s@, i as int, fuel as nat);
            }
            let m = skip_ws(s, n);
            if m == s.len() {
                Option::Some(j)
            } else {
                Option::None
            }
        },
    }
}

} // verus!
