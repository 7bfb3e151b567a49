//! The JSON tree model shared by the encoder and the decoder, together with
//! its mathematical mirror, the canonical serialization function, and a
//! verified serializer. Strings are kept as raw UTF-8 bytes (the bytes that
//! stand between the quotes after unescaping).

use vstd::prelude::*;
use vstd::slice::slice_subrange;
use vstd::string::*;
use vstd::utf8::encode_utf8_decode_utf8;

verus! {

/// A JSON document. Numbers are integers: the wire protocol modelled here
/// exchanges only integral numbers, so a payload holding a fractional or
/// exponent-form number is treated as malformed by the parser.
#[derive(Debug)]
pub enum Json {
    Null,
    Bool(bool),
    Int(i128),
    Str(Vec<u8>),
    Arr(Vec<Json>),
    Obj(Vec<(Vec<u8>, Json)>),
}

/// The mathematical mirror of `Json`: sequences in place of vectors and an
/// unbounded integer in place of `i128`. All contracts speak of this type.
#[verifier::ext_equal]
pub enum JsonV {
    Null,
    Bool(bool),
    Int(int),
    Str(Seq<u8>),
    Arr(Seq<JsonV>),
    Obj(Seq<(Seq<u8>, JsonV)>),
}

pub open spec fn view_json(j: Json) -> JsonV
    decreases j,
{
    match j {
        Json::Null => JsonV::Null,
        Json::Bool(b) => JsonV::Bool(b),
        Json::Int(v) => JsonV::Int(v as int),
        Json::Str(s) => JsonV::Str(s@),
        Json::Arr(a) => JsonV::Arr(view_arr(a@)),
        Json::Obj(o) => JsonV::Obj(view_members(o@)),
    }
}

pub open spec fn view_arr(a: Seq<Json>) -> Seq<JsonV>
    decreases a,
{
    if a.len() == 0 {
        Seq::empty()
    } else {
        seq![view_json(a[0])] + view_arr(a.drop_first())
    }
}

pub open spec fn view_members(o: Seq<(Vec<u8>, Json)>) -> Seq<(Seq<u8>, JsonV)>
    decreases o,
{
    if o.len() == 0 {
        Seq::empty()
    } else {
        seq![(o[0].0@, view_json(o[0].1))] + view_members(o.drop_first())
    }
}

impl View for Json {
    type V = JsonV;

    open spec fn view(&self) -> JsonV {
        view_json(*self)
    }
}

pub proof fn lemma_view_arr(a: Seq<Json>)
    ensures
        view_arr(a).len() == a.len(),
        forall|i: int| 0 <= i < a.len() ==> view_arr(a)[i] == view_json(#[trigger] a[i]),
    decreases a,
{
    if a.len() > 0 {
        lemma_view_arr(a.drop_first());
        assert forall|i: int| 0 <= i < a.len() implies view_arr(a)[i] == view_json(
            #[trigger] a[i],
        ) by {
            if i > 0 {
                assert(a.drop_first()[i - 1] == a[i]);
                assert(view_arr(a)[i] == view_arr(a.drop_first())[i - 1]);
            }
        }
    }
}

pub proof fn lemma_view_members(o: Seq<(Vec<u8>, Json)>)
    ensures
        view_members(o).len() == o.len(),
        forall|i: int|
            0 <= i < o.len() ==> view_members(o)[i] == ((#[trigger] o[i]).0@, view_json(o[i].1)),
    decreases o,
{
    if o.len() > 0 {
        lemma_view_members(o.drop_first());
        assert forall|i: int| 0 <= i < o.len() implies view_members(o)[i] == ((#[trigger] o[i]).0@,
        view_json(o[i].1)) by {
            if i > 0 {
                assert(o.drop_first()[i - 1] == o[i]);
                assert(view_members(o)[i] == view_members(o.drop_first())[i - 1]);
            }
        }
    }
}

/// Well-formed mirror values: every integer fits the executable `i128`
/// representation with the minimum left out, so that its magnitude is
/// printable and re-parsable.
pub open spec fn wf_jv(j: JsonV) -> bool
    decreases j,
{
    match j {
        JsonV::Null => true,
        JsonV::Bool(_) => true,
        JsonV::Int(v) => -(i128::MAX as int) <= v <= i128::MAX as int,
        JsonV::Str(_) => true,
        JsonV::Arr(a) => forall|i: int| 0 <= i < a.len() ==> wf_jv(#[trigger] a[i]),
        JsonV::Obj(o) => forall|i: int| 0 <= i < o.len() ==> wf_jv((#[trigger] o[i]).1),
    }
}

/// One decimal digit, `0` to `f`, as an ASCII byte (lower case).
pub open spec fn spec_hex_digit(n: int) -> u8 {
    if n < 10 {
        (48 + n) as u8
    } else {
        (87 + n) as u8
    }
}

/// How one string byte appears between the quotes: `"` and `\` are escaped,
/// control bytes take the `\u00XX` form, every other byte stands as itself.
pub open spec fn spec_escape_byte(b: u8) -> Seq<u8> {
    if b == 34 {
        seq![92u8, 34u8]
    } else if b == 92 {
        seq![92u8, 92u8]
    } else if b < 32 {
        seq![92u8, 117u8, 48u8, 48u8, spec_hex_digit(b as int / 16), spec_hex_digit(b as int % 16)]
    } else {
        seq![b]
    }
}

pub open spec fn spec_escape(s: Seq<u8>) -> Seq<u8>
    decreases s,
{
    if s.len() == 0 {
        Seq::empty()
    } else {
        spec_escape_byte(s[0]) + spec_escape(s.drop_first())
    }
}

pub open spec fn spec_ser_str(s: Seq<u8>) -> Seq<u8> {
    seq![34u8] + spec_escape(s) + seq![34u8]
}

pub open spec fn spec_digits(n: nat) -> Seq<u8>
    decreases n,
{
    if n < 10 {
        seq![(48 + n) as u8]
    } else {
        spec_digits(n / 10) + seq![(48 + n % 10) as u8]
    }
}

pub open spec fn spec_ser_int(v: int) -> Seq<u8> {
    if v < 0 {
        seq![45u8] + spec_digits((-v) as nat)
    } else {
        spec_digits(v as nat)
    }
}

/// The canonical serialization: no whitespace, object members in stored
/// order, integers in plain decimal.
pub open spec fn spec_ser(j: JsonV) -> Seq<u8>
    decreases j,
{
    match j {
        JsonV::Null => seq![110u8, 117u8, 108u8, 108u8],
        JsonV::Bool(b) => if b {
            seq![116u8, 114u8, 117u8, 101u8]
        } else {
            seq![102u8, 97u8, 108u8, 115u8, 101u8]
        },
        JsonV::Int(v) => spec_ser_int(v),
        JsonV::Str(s) => spec_ser_str(s),
        JsonV::Arr(a) => seq![91u8] + spec_ser_elems(a) + seq![93u8],
        JsonV::Obj(o) => seq![123u8] + spec_ser_members(o) + seq![125u8],
    }
}

pub open spec fn spec_ser_elems(a: Seq<JsonV>) -> Seq<u8>
    decreases a,
{
    if a.len() == 0 {
        Seq::empty()
    } else if a.len() == 1 {
        spec_ser(a[0])
    } else {
        spec_ser(a[0]) + seq![44u8] + spec_ser_elems(a.drop_first())
    }
}

pub open spec fn spec_ser_members(o: Seq<(Seq<u8>, JsonV)>) -> Seq<u8>
    decreases o,
{
    if o.len() == 0 {
        Seq::empty()
    } else if o.len() == 1 {
        spec_ser_str(o[0].0) + seq![58u8] + spec_ser(o[0].1)
    } else {
        spec_ser_str(o[0].0) + seq![58u8] + spec_ser(o[0].1) + seq![44u8] + spec_ser_members(
            o.drop_first(),
        )
    }
}

fn hex_digit(n: u8) -> (r: u8)
    requires
        n < 16,
    ensures
        r == spec_hex_digit(n as int),
{
    if n < 10 {
        48 + n
    } else {
        87 + n
    }
}

fn push_escaped(s: &[u8], out: &mut Vec<u8>)
    ensures
        final(out)@ == old(out)@ + spec_escape(s@),
    decreases s@.len(),
{
    if s.len() == 0 {
        assert(out@ =~= old(out)@ + spec_escape(s@));
        return ;
    }
    let b = s[0];
    if b == 34 {
        out.push(92);
        out.push(34);
    } else if b == 92 {
        out.push(92);
        out.push(92);
    } else if b < 32 {
        out.push(92);
        out.push(117);
        out.push(48);
        out.push(48);
        out.push(hex_digit(b / 16));
        out.push(hex_digit(b % 16));
    } else {
        out.push(b);
    }
    assert(out@ =~= old(out)@ + spec_escape_byte(s@[0]));
    let rest = slice_subrange(s, 1, s.len());
    push_escaped(rest, out);
    assert(rest@ =~= s@.drop_first());
    assert(out@ =~= old(out)@ + spec_escape(s@));
}

fn push_digits(n: u128, out: &mut Vec<u8>)
    ensures
        final(out)@ == old(out)@ + spec_digits(n as nat),
    decreases n,
{
    if n < 10 {
        out.push(48 + (n as u8));
        assert(out@ =~= old(out)@ + spec_digits(n as nat));
    } else {
        push_digits(n / 10, out);
        out.push(48 + ((n % 10) as u8));
        assert(out@ =~= old(out)@ + spec_digits(n as nat));
    }
}

fn push_int(v: i128, out: &mut Vec<u8>)
    ensures
        final(out)@ == old(out)@ + spec_ser_int(v as int),
{
    if v < 0 {
        out.push(45);
        let mag: u128 = ((-(v + 1)) as u128) + 1;
        assert(mag as nat == (-(v as int)) as nat);
        push_digits(mag, out);
        assert(out@ =~= old(out)@ + spec_ser_int(v as int));
    } else {
        push_digits(v as u128, out);
    }
}

fn ser_str_into(s: &[u8], out: &mut Vec<u8>)
    ensures
        final(out)@ == old(out)@ + spec_ser_str(s@),
{
    out.push(34);
    push_escaped(s, out);
    out.push(34);
    assert(out@ =~= old(out)@ + spec_ser_str(s@));
}

fn ser_into(j: &Json, out: &mut Vec<u8>)
    ensures
        final(out)@ == old(out)@ + spec_ser(j@),
    decreases *j,
{
    match j {
        Json::Null => {
            out.push(110);
            out.push(117);
            out.push(108);
            out.push(108);
            assert(out@ =~= old(out)@ + spec_ser(j@));
        },
        Json::Bool(b) => {
            if *b {
                out.push(116);
                out.push(114);
                out.push(117);
                out.push(101);
            } else {
                out.push(102);
                out.push(97);
                out.push(108);
                out.push(115);
                out.push(101);
            }
            assert(out@ =~= old(out)@ + spec_ser(j@));
        },
        Json::Int(v) => {
            push_int(*v, out);
        },
        Json::Str(s) => {
            ser_str_into(s.as_slice(), out);
        },
        Json::Arr(a) => {
            out.push(91);
            ser_elems_into(a.as_slice(), out);
            out.push(93);
            assert(out@ =~= old(out)@ + spec_ser(j@));
        },
        Json::Obj(o) => {
            out.push(123);
            ser_members_into(o.as_slice(), out);
            out.push(125);
            assert(out@ =~= old(out)@ + spec_ser(j@));
        },
    }
}

fn ser_elems_into(a: &[Json], out: &mut Vec<u8>)
    ensures
        final(out)@ == old(out)@ + spec_ser_elems(view_arr(a@)),
    decreases a@,
{
    proof {
        lemma_view_arr(a@);
    }
    if a.len() == 0 {
        assert(out@ =~= old(out)@ + spec_ser_elems(view_arr(a@)));
    } else if a.len() == 1 {
        ser_into(&a[0], out);
        assert(out@ =~= old(out)@ + spec_ser_elems(view_arr(a@)));
    } else {
        ser_into(&a[0], out);
        out.push(44);
        let rest = slice_subrange(a, 1, a.len());
        ser_elems_into(rest, out);
        proof {
            assert(rest@ =~= a@.drop_first());
            assert(view_arr(a@).drop_first() =~= view_arr(a@.drop_first()));
            assert(out@ =~= old(out)@ + spec_ser_elems(view_arr(a@)));
        }
    }
}

fn ser_members_into(o: &[(Vec<u8>, Json)], out: &mut Vec<u8>)
    ensures
        final(out)@ == old(out)@ + spec_ser_members(view_members(o@)),
    decreases o@,
{
    proof {
        lemma_view_members(o@);
    }
    if o.len() == 0 {
        assert(out@ =~= old(out)@ + spec_ser_members(view_members(o@)));
    } else if o.len() == 1 {
        let p = &o[0];
        ser_str_into(p.0.as_slice(), out);
        out.push(58);
        ser_into(&p.1, out);
        assert(out@ =~= old(out)@ + spec_ser_members(view_members(o@)));
    } else {
        let p = &o[0];
        ser_str_into(p.0.as_slice(), out);
        out.push(58);
        ser_into(&p.1, out);
        out.push(44);
        let rest = slice_subrange(o, 1, o.len());
        ser_members_into(rest, out);
        proof {
            assert(rest@ =~= o@.drop_first());
            assert(view_members(o@).drop_first() =~= view_members(o@.drop_first()));
            assert(out@ =~= old(out)@ + spec_ser_members(view_members(o@)));
        }
    }
}

/// Serialize a JSON tree to its canonical byte form.
pub fn to_bytes(j: &Json) -> (r: Vec<u8>)
    ensures
        r@ == spec_ser(j@),
{
    let mut out: Vec<u8> = Vec::new();
    ser_into(j, &mut out);
    proof {
        assert(out@ =~= spec_ser(j@));
    }
    out
}

/// How many members of `o` carry the key `k`.
pub open spec fn key_count(o: Seq<(Seq<u8>, JsonV)>, k: Seq<u8>) -> nat
    decreases o,
{
    if o.len() == 0 {
        0
    } else {
        (if o[0].0 == k {
            1nat
        } else {
            0nat
        }) + key_count(o.drop_first(), k)
    }
}

pub open spec fn first_value(o: Seq<(Seq<u8>, JsonV)>, k: Seq<u8>) -> JsonV
    decreases o,
{
    if o.len() == 0 {
        JsonV::Null
    } else if o[0].0 == k {
        o[0].1
    } else {
        first_value(o.drop_first(), k)
    }
}

/// The member value under key `k`, provided `k` occurs exactly once; a
/// missing or repeated key yields nothing, as the decoder treats both as
/// malformed for a field it needs.
pub open spec fn obj_get_unique(o: Seq<(Seq<u8>, JsonV)>, k: Seq<u8>) -> Option<JsonV> {
    if key_count(o, k) == 1 {
        Option::Some(first_value(o, k))
    } else {
        Option::None
    }
}

/// Two wire names differ whenever the strings differ: UTF-8 encoding is
/// injective.
pub proof fn lemma_bytes_distinct(a: &str, b: &str)
    requires
        a@ != b@,
    ensures
        a.spec_bytes() != b.spec_bytes(),
{
    if a.spec_bytes() == b.spec_bytes() {
        encode_utf8_decode_utf8(a@);
        encode_utf8_decode_utf8(b@);
        assert(false);
    }
}

pub proof fn lemma_key_count_zero(o: Seq<(Seq<u8>, JsonV)>, k: Seq<u8>)
    requires
        forall|i: int| 0 <= i < o.len() ==> (#[trigger] o[i]).0 != k,
    ensures
        key_count(o, k) == 0,
    decreases o,
{
    if o.len() > 0 {
        assert forall|i: int| 0 <= i < o.drop_first().len() implies (#[trigger] o.drop_first()[i]).0
            != k by {
            assert(o.drop_first()[i] == o[i + 1]);
        }
        lemma_key_count_zero(o.drop_first(), k);
    }
}

pub proof fn lemma_key_count_unique(o: Seq<(Seq<u8>, JsonV)>, k: Seq<u8>, idx: int)
    requires
        0 <= idx < o.len(),
        o[idx].0 == k,
        forall|i: int| 0 <= i < o.len() && i != idx ==> (#[trigger] o[i]).0 != k,
    ensures
        key_count(o, k) == 1,
        first_value(o, k) == o[idx].1,
        obj_get_unique(o, k) == Option::Some(o[idx].1),
    decreases o,
{
    if idx == 0 {
        assert forall|i: int| 0 <= i < o.drop_first().len() implies (#[trigger] o.drop_first()[i]).0
            != k by {
            assert(o.drop_first()[i] == o[i + 1]);
        }
        lemma_key_count_zero(o.drop_first(), k);
    } else {
        assert(o[0].0 != k);
        assert forall|i: int|
            0 <= i < o.drop_first().len() && i != idx - 1 implies (#[trigger] o.drop_first()[i]).0
            != k by {
            assert(o.drop_first()[i] == o[i + 1]);
        }
        assert(o.drop_first()[idx - 1] == o[idx]);
        lemma_key_count_unique(o.drop_first(), k, idx - 1);
    }
}

/// Byte-for-byte comparison of two slices.
pub fn bytes_eq(a: &[u8], b: &[u8]) -> (r: bool)
    ensures
        r == (a@ == b@),
    decreases a@.len(),
{
    if a.len() != b.len() {
        assert(a@ != b@);
        return false;
    }
    if a.len() == 0 {
        assert(a@ =~= b@);
        return true;
    }
    if a[0] != b[0] {
        return false;
    }
    let ra = slice_subrange(a, 1, a.len());
    let rb = slice_subrange(b, 1, b.len());
    let r = bytes_eq(ra, rb);
    proof {
        if r {
            assert forall|i: int| 0 <= i < a@.len() implies a@[i] == b@[i] by {
                if i > 0 {
                    assert(ra@[i - 1] == a@[i]);
                    assert(rb@[i - 1] == b@[i]);
                }
            }
            assert(a@ =~= b@);
        } else {
            assert(a@.drop_first() =~= a@.subrange(1, a@.len() as int));
            assert(a@ != b@) by {
                if a@ == b@ {
                    assert(ra@ =~= rb@);
                }
            }
        }
    }
    r
}

fn member_count(o: &[(Vec<u8>, Json)], k: &[u8]) -> (r: usize)
    ensures
        r == key_count(view_members(o@), k@),
    decreases o@,
{
    proof {
        lemma_view_members(o@);
    }
    if o.len() == 0 {
        0
    } else {
        let hit = bytes_eq(o[0].0.as_slice(), k);
        let rest = slice_subrange(o, 1, o.len());
        let n = member_count(rest, k);
        proof {
            assert(rest@ =~= o@.drop_first());
            assert(view_members(o@).drop_first() =~= view_members(o@.drop_first()));
            lemma_key_count_bound(view_members(o@.drop_first()), k@);
        }
        if hit {
            n + 1
        } else {
            n
        }
    }
}

proof fn lemma_key_count_bound(o: Seq<(Seq<u8>, JsonV)>, k: Seq<u8>)
    ensures
        key_count(o, k) <= o.len(),
    decreases o,
{
    if o.len() > 0 {
        lemma_key_count_bound(o.drop_first(), k);
    }
}

fn first_member<'a>(o: &'a [(Vec<u8>, Json)], k: &[u8]) -> (r: Option<&'a Json>)
    ensures
        match r {
            Option::Some(j) => key_count(view_members(o@), k@) > 0 && j@ == first_value(
                view_members(o@),
                k@,
            ),
            Option::None => key_count(view_members(o@), k@) == 0,
        },
    decreases o@,
{
    proof {
        lemma_view_members(o@);
    }
    if o.len() == 0 {
        Option::None
    } else {
        let hit = bytes_eq(o[0].0.as_slice(), k);
        if hit {
            Option::Some(&o[0].1)
        } else {
            let rest = slice_subrange(o, 1, o.len());
            let r = first_member(rest, k);
            proof {
                assert(rest@ =~= o@.drop_first());
                assert(view_members(o@).drop_first() =~= view_members(o@.drop_first()));
            }
            r
        }
    }
}

/// The member under key `k` of an object's member list, provided the key
/// occurs exactly once.
pub fn get_unique<'a>(o: &'a Vec<(Vec<u8>, Json)>, k: &[u8]) -> (r: Option<&'a Json>)
    ensures
        match r {
            Option::Some(j) => obj_get_unique(view_members(o@), k@) == Option::Some(j@),
            Option::None => obj_get_unique(view_members(o@), k@) is None,
        },
{
    let n = member_count(o.as_slice(), k);
    if n != 1 {
        Option::None
    } else {
        let r = first_member(o.as_slice(), k);
        match r {
            Option::Some(j) => Option::Some(j),
            Option::None => Option::None,
        }
    }
}

} // verus!
