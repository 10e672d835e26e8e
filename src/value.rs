//! The canonical value model shared by the host side and the DSL side, and
//! the conversions between host values and canonical values.
use vstd::prelude::*;

verus! {

broadcast use vstd::std_specs::vec::group_vec_axioms;

/// A canonical value. Floats are held as the bit pattern of an IEEE-754
/// binary64 number and never hold a NaN. A mapping's keys are unique and the
/// order of its entries carries no meaning: the DSL side keeps them sorted.
#[derive(Debug, PartialEq)]
pub enum Canonical {
    Null,
    Boolean(bool),
    Integer(i64),
    Float(u64),
    Bytes(String),
    Timestamp(String),
    Regex(String),
    Array(Vec<Canonical>),
    Object(Vec<(String, Canonical)>),
}

/// A host value as the host's type tests classify it, in their fixed order:
/// null, bool, integer, float, text, mapping, sequence, anything else.
#[derive(Debug, PartialEq)]
pub enum HostValue {
    Nil,
    Bool(bool),
    Int(i64),
    Float(u64),
    Text(String),
    Dict(Vec<(HostValue, HostValue)>),
    List(Vec<HostValue>),
    Other,
}

/// A host value of a kind the converter cannot classify, or a mapping key
/// that is not text.
#[derive(PartialEq, Eq, Structural, Debug, Clone, Copy)]
pub enum ConvertError {
    UnsupportedType,
}

/// The bit pattern `b` is a NaN: all exponent bits set, a nonzero fraction.
pub open spec fn is_nan_bits(b: u64) -> bool {
    (b >> 52u64) & 0x7ffu64 == 0x7ffu64 && b & 0xf_ffff_ffff_ffffu64 != 0
}

pub fn float_is_nan(bits: u64) -> (r: bool)
    ensures
        r == is_nan_bits(bits),
{
    (bits >> 52u64) & 0x7ffu64 == 0x7ffu64 && bits & 0xf_ffff_ffff_ffffu64 != 0
}

/// The canonical form of a host float: `Null` for a NaN, else the float.
pub open spec fn float_canonical(bits: u64) -> Canonical {
    if is_nan_bits(bits) {
        Canonical::Null
    } else {
        Canonical::Float(bits)
    }
}

pub fn float_to_canonical(bits: u64) -> (r: Canonical)
    ensures
        r == float_canonical(bits),
{
    if float_is_nan(bits) {
        Canonical::Null
    } else {
        Canonical::Float(bits)
    }
}

/// The host value `h` can be converted: it holds no unclassifiable kind and
/// every mapping key in it is text.
pub open spec fn supported(h: HostValue) -> bool
    decreases h,
{
    match h {
        HostValue::Other => false,
        HostValue::List(items) => forall|i: int|
            #![trigger items[i]]
            0 <= i < items.len() ==> supported(items[i]),
        HostValue::Dict(es) => forall|i: int|
            #![trigger es[i]]
            0 <= i < es.len() ==> (es[i].0 is Text && supported(es[i].1)),
        _ => true,
    }
}

/// The text of a host key, as the key `k` of a canonical mapping.
pub open spec fn key_is(h: HostValue, k: Seq<char>) -> bool {
    h is Text && h->Text_0@ == k
}

/// Entry `j` of `es` is the last one whose key is `k`.
pub open spec fn last_with_key(es: Seq<(HostValue, HostValue)>, j: int, k: Seq<char>) -> bool {
    &&& 0 <= j < es.len()
    &&& key_is(es[j].0, k)
    &&& forall|j2: int| j < j2 < es.len() ==> !key_is(#[trigger] es[j2].0, k)
}

/// The keys of `os` are pairwise distinct.
pub open spec fn keys_unique(os: Seq<(String, Canonical)>) -> bool {
    forall|a: int, b: int| 0 <= a < b < os.len() ==> os[a].0@ != os[b].0@
}

/// `v` is the canonical form of the host value `h`.
pub open spec fn canonical_of(h: HostValue, v: Canonical) -> bool
    decreases h,
{
    match h {
        HostValue::Nil => v is Null,
        HostValue::Bool(b) => v == Canonical::Boolean(b),
        HostValue::Int(i) => v == Canonical::Integer(i),
        HostValue::Float(bits) => v == float_canonical(bits),
        HostValue::Text(s) => v is Bytes && v->Bytes_0@ == s@,
        HostValue::List(items) => {
            &&& v is Array
            &&& v->Array_0.len() == items.len()
            &&& forall|i: int|
                #![trigger items[i]]
                0 <= i < items.len() ==> canonical_of(items[i], v->Array_0[i])
        },
        HostValue::Dict(es) => {
            &&& v is Object
            &&& keys_unique(v->Object_0@)
            &&& forall|a: int|
                #![trigger v->Object_0[a]]
                0 <= a < v->Object_0.len() ==> exists|j: int|
                    #![trigger es[j]]
                    last_with_key(es@, j, v->Object_0[a].0@) && canonical_of(
                        es[j].1,
                        v->Object_0[a].1,
                    )
            &&& forall|j: int|
                0 <= j < es.len() ==> (#[trigger] es[j]).0 is Text && has_key(
                    v->Object_0@,
                    es[j].0->Text_0@,
                )
        },
        HostValue::Other => false,
    }
}

/// Some entry of `os` has the key `k`.
pub open spec fn has_key(os: Seq<(String, Canonical)>, k: Seq<char>) -> bool {
    exists|a: int| 0 <= a < os.len() && os[a].0@ == k
}

/// The pair `e` is an entry of `os`.
pub open spec fn has_entry(os: Seq<(String, Canonical)>, e: (String, Canonical)) -> bool {
    exists|a: int| 0 <= a < os.len() && os[a] == e
}

/// Puts `(key, v)` into the mapping entries `out`: replaces the value of an
/// entry with an equal key, or appends the pair.
fn insert_entry(out: &mut Vec<(String, Canonical)>, key: String, v: Canonical)
    requires
        keys_unique(old(out)@),
    ensures
        keys_unique(final(out)@),
        exists|a: int|
            0 <= a < final(out).len() && final(out)[a].0@ == key@ && final(out)[a].1 == v,
        forall|a: int|
            0 <= a < final(out).len() && #[trigger] final(out)[a].0@ != key@ ==> has_entry(
                old(out)@,
                final(out)[a],
            ),
        forall|b: int|
            0 <= b < old(out).len() ==> has_key(final(out)@, #[trigger] old(out)[b].0@),
{
    let ghost prev = out@;
    let mut a: usize = 0;
    while a < out.len()
        invariant
            0 <= a <= out.len(),
            out@ == prev,
            prev == old(out)@,
            keys_unique(prev),
            forall|b: int| 0 <= b < a ==> out[b].0@ != key@,
        decreases out.len() - a,
    {
        if out[a].0 == key {
            out.set(a, (key, v));
            assert forall|b: int| 0 <= b < prev.len() implies has_key(
                out@,
                #[trigger] prev[b].0@,
            ) by {
                assert(out[b].0@ == prev[b].0@);
            }
            assert forall|c: int|
                0 <= c < out.len() && #[trigger] out[c].0@ != key@ implies has_entry(
                prev,
                out[c],
            ) by {
                assert(prev[c] == out[c]);
            }
            assert(out[a as int].0@ == key@);
            return;
        }
        a += 1;
    }
    out.push((key, v));
    assert forall|b: int| 0 <= b < prev.len() implies has_key(out@, #[trigger] prev[b].0@) by {
        assert(out[b].0@ == prev[b].0@);
    }
    assert forall|c: int| 0 <= c < out.len() && #[trigger] out[c].0@ != key@ implies has_entry(
        prev,
        out[c],
    ) by {
        assert(prev[c] == out[c]);
    }
    assert(out[prev.len() as int].0@ == key@);
}

/// Each item of a host list lies below the list in the decreases order.
proof fn lemma_list_items_decrease(h: HostValue)
    requires
        h is List,
    ensures
        forall|k: int|
            0 <= k < h->List_0.len() ==> decreases_to!(h => #[trigger] h->List_0[k]),
{
    assert forall|k: int| 0 <= k < h->List_0.len() implies decreases_to!(
        h => #[trigger] h->List_0[k]
    ) by {
        assert(decreases_to!(h => h->List_0));
        assert(decreases_to!(h->List_0 => h->List_0[k]));
    }
}

/// Each value of a host mapping lies below the mapping in the decreases order.
proof fn lemma_dict_values_decrease(h: HostValue)
    requires
        h is Dict,
    ensures
        forall|k: int|
            0 <= k < h->Dict_0.len() ==> decreases_to!(h => (#[trigger] h->Dict_0[k]).1),
{
    assert forall|k: int| 0 <= k < h->Dict_0.len() implies decreases_to!(
        h => (#[trigger] h->Dict_0[k]).1
    ) by {
        assert(decreases_to!(h => h->Dict_0));
        assert(decreases_to!(h->Dict_0 => h->Dict_0[k]));
        assert(decreases_to!(h->Dict_0[k] => h->Dict_0[k].1));
    }
}

/// The invariant of a canonical value, at every depth: no float is a NaN and
/// the keys of each mapping are unique.
pub open spec fn well_formed(v: Canonical) -> bool
    decreases v,
{
    match v {
        Canonical::Float(bits) => !is_nan_bits(bits),
        Canonical::Array(items) => forall|i: int|
            #![trigger items[i]]
            0 <= i < items.len() ==> well_formed(items[i]),
        Canonical::Object(os) => {
            &&& keys_unique(os@)
            &&& forall|i: int| #![trigger os[i]] 0 <= i < os.len() ==> well_formed(os[i].1)
        },
        _ => true,
    }
}

/// The canonical form of any host value keeps the canonical invariant.
pub proof fn lemma_canonical_is_well_formed(h: HostValue, v: Canonical)
    requires
        canonical_of(h, v),
    ensures
        well_formed(v),
    decreases h,
{
    match h {
        HostValue::List(items) => {
            lemma_list_items_decrease(h);
            lemma_array_items_decrease(v);
            assert forall|i: int| 0 <= i < items.len() implies well_formed(
                #[trigger] v->Array_0[i],
            ) by {
                lemma_canonical_is_well_formed(items[i], v->Array_0[i]);
            }
        },
        HostValue::Dict(es) => {
            lemma_dict_values_decrease(h);
            lemma_object_values_decrease(v);
            let os = v->Object_0;
            assert forall|a: int| 0 <= a < os.len() implies well_formed(
                (#[trigger] os[a]).1,
            ) by {
                let j = choose|j: int|
                    #![trigger es[j]]
                    last_with_key(es@, j, os[a].0@) && canonical_of(es[j].1, os[a].1);
                lemma_canonical_is_well_formed(es[j].1, os[a].1);
            }
        },
        _ => {},
    }
}

/// Converts a host value into its canonical form. Fails exactly when the
/// value holds a kind that cannot be classified or a mapping key that is not
/// text; no partial result is produced then.
#[verifier::loop_isolation(false)]
pub fn to_canonical(h: &HostValue) -> (r: Result<Canonical, ConvertError>)
    ensures
        r is Ok <==> supported(*h),
        r is Ok ==> canonical_of(*h, r->Ok_0),
        r is Ok ==> well_formed(r->Ok_0),
    decreases h, 1int,
{
    let result = match h {
        HostValue::Nil => Ok(Canonical::Null),
        HostValue::Bool(b) => Ok(Canonical::Boolean(*b)),
        HostValue::Int(i) => Ok(Canonical::Integer(*i)),
        HostValue::Float(bits) => Ok(float_to_canonical(*bits)),
        HostValue::Text(s) => Ok(Canonical::Bytes(s.clone())),
        HostValue::List(items) => {
            proof {
                lemma_list_items_decrease(*h);
            }
            let mut out: Vec<Canonical> = Vec::new();
            let mut i: usize = 0;
            while i < items.len()
                invariant
                    0 <= i <= items.len(),
                    out.len() == i,
                    forall|k: int| 0 <= k < i ==> supported(#[trigger] items[k]),
                    forall|k: int| 0 <= k < i ==> canonical_of(#[trigger] items[k], out[k]),
                decreases items.len() - i,
            {
                match to_canonical(&items[i]) {
                    Ok(v) => out.push(v),
                    Err(e) => {
                        assert(!supported(items[i as int]));
                        return Err(e);
                    },
                }
                i += 1;
            }
            Ok(Canonical::Array(out))
        },
        HostValue::Dict(_) => dict_to_canonical(h),
        HostValue::Other => Err(ConvertError::UnsupportedType),
    };
    proof {
        if result is Ok {
            lemma_canonical_is_well_formed(*h, result->Ok_0);
        }
    }
    result
}

/// `h` is the host rendering of the canonical value `v`: text-like kinds
/// (bytes, timestamps, regexes) become text, everything else maps one to one.
pub open spec fn host_of(v: Canonical, h: HostValue) -> bool
    decreases v,
{
    match v {
        Canonical::Null => h is Nil,
        Canonical::Boolean(b) => h == HostValue::Bool(b),
        Canonical::Integer(i) => h == HostValue::Int(i),
        Canonical::Float(bits) => h == HostValue::Float(bits),
        Canonical::Bytes(s) => h is Text && h->Text_0@ == s@,
        Canonical::Timestamp(s) => h is Text && h->Text_0@ == s@,
        Canonical::Regex(s) => h is Text && h->Text_0@ == s@,
        Canonical::Array(items) => {
            &&& h is List
            &&& h->List_0.len() == items.len()
            &&& forall|i: int|
                #![trigger items[i]]
                0 <= i < items.len() ==> host_of(items[i], h->List_0[i])
        },
        Canonical::Object(os) => {
            &&& h is Dict
            &&& h->Dict_0.len() == os.len()
            &&& forall|i: int|
                #![trigger os[i]]
                0 <= i < os.len() ==> key_is(h->Dict_0[i].0, os[i].0@) && host_of(
                    os[i].1,
                    h->Dict_0[i].1,
                )
        },
    }
}

/// Each item of an array lies below the array in the decreases order.
proof fn lemma_array_items_decrease(v: Canonical)
    requires
        v is Array,
    ensures
        forall|k: int|
            0 <= k < v->Array_0.len() ==> decreases_to!(v => #[trigger] v->Array_0[k]),
{
    assert forall|k: int| 0 <= k < v->Array_0.len() implies decreases_to!(
        v => #[trigger] v->Array_0[k]
    ) by {
        assert(decreases_to!(v => v->Array_0));
        assert(decreases_to!(v->Array_0 => v->Array_0[k]));
    }
}

/// Each value of a mapping lies below the mapping in the decreases order.
proof fn lemma_object_values_decrease(v: Canonical)
    requires
        v is Object,
    ensures
        forall|k: int|
            0 <= k < v->Object_0.len() ==> decreases_to!(v => (#[trigger] v->Object_0[k]).1),
{
    assert forall|k: int| 0 <= k < v->Object_0.len() implies decreases_to!(
        v => (#[trigger] v->Object_0[k]).1
    ) by {
        assert(decreases_to!(v => v->Object_0));
        assert(decreases_to!(v->Object_0 => v->Object_0[k]));
        assert(decreases_to!(v->Object_0[k] => v->Object_0[k].1));
    }
}

/// Renders a canonical value as a host value. Never fails.
#[verifier::loop_isolation(false)]
pub fn from_canonical(v: &Canonical) -> (h: HostValue)
    ensures
        host_of(*v, h),
    decreases v,
{
    match v {
        Canonical::Null => HostValue::Nil,
        Canonical::Boolean(b) => HostValue::Bool(*b),
        Canonical::Integer(i) => HostValue::Int(*i),
        Canonical::Float(bits) => HostValue::Float(*bits),
        Canonical::Bytes(s) => HostValue::Text(s.clone()),
        Canonical::Timestamp(s) => HostValue::Text(s.clone()),
        Canonical::Regex(s) => HostValue::Text(s.clone()),
        Canonical::Array(items) => {
            proof {
                lemma_array_items_decrease(*v);
            }
            let mut out: Vec<HostValue> = Vec::new();
            let mut i: usize = 0;
            while i < items.len()
                invariant
                    0 <= i <= items.len(),
                    out.len() == i,
                    forall|k: int| 0 <= k < i ==> host_of(#[trigger] items[k], out[k]),
                decreases items.len() - i,
            {
                out.push(from_canonical(&items[i]));
                i += 1;
            }
            HostValue::List(out)
        },
        Canonical::Object(os) => {
            proof {
                lemma_object_values_decrease(*v);
            }
            let mut out: Vec<(HostValue, HostValue)> = Vec::new();
            let mut i: usize = 0;
            while i < os.len()
                invariant
                    0 <= i <= os.len(),
                    out.len() == i,
                    forall|k: int|
                        0 <= k < i ==> key_is(out[k].0, (#[trigger] os[k]).0@) && host_of(
                            os[k].1,
                            out[k].1,
                        ),
                decreases os.len() - i,
            {
                let key = HostValue::Text(os[i].0.clone());
                let item = from_canonical(&os[i].1);
                out.push((key, item));
                i += 1;
            }
            HostValue::Dict(out)
        },
    }
}

/// A host NaN has the canonical form `Null`.
pub proof fn lemma_nan_becomes_null(bits: u64, v: Canonical)
    requires
        is_nan_bits(bits),
        canonical_of(HostValue::Float(bits), v),
    ensures
        v is Null,
{
}

/// A host value of an unclassifiable kind cannot be converted, and neither
/// can a list that holds one.
pub proof fn lemma_other_is_unsupported(items: Vec<HostValue>, i: int)
    requires
        0 <= i < items.len(),
        items[i] is Other,
    ensures
        !supported(HostValue::Other),
        !supported(HostValue::List(items)),
{
    lemma_list_items_decrease(HostValue::List(items));
}

/// Some entry of the host mapping entries `es` has the text key `k`.
pub open spec fn has_host_key(es: Seq<(HostValue, HostValue)>, k: Seq<char>) -> bool {
    exists|a: int| 0 <= a < es.len() && key_is(es[a].0, k)
}

/// `back` is what the host value `h` becomes after conversion to canonical
/// form and back: scalars unchanged but a NaN, which becomes null; lists
/// item by item; a mapping with each key once, holding the round trip of the
/// last value given for that key.
pub open spec fn round_trip_of(h: HostValue, back: HostValue) -> bool
    decreases h,
{
    match h {
        HostValue::Float(bits) => if is_nan_bits(bits) {
            back is Nil
        } else {
            back == h
        },
        HostValue::Text(s) => back is Text && back->Text_0@ == s@,
        HostValue::List(items) => {
            &&& back is List
            &&& back->List_0.len() == items.len()
            &&& forall|i: int|
                #![trigger items[i]]
                0 <= i < items.len() ==> round_trip_of(items[i], back->List_0[i])
        },
        HostValue::Dict(es) => {
            &&& back is Dict
            &&& forall|a: int, b: int|
                0 <= a < b < back->Dict_0.len() ==> back->Dict_0[a].0 is Text
                    && back->Dict_0[b].0 is Text && back->Dict_0[a].0->Text_0@
                    != back->Dict_0[b].0->Text_0@
            &&& forall|a: int|
                #![trigger back->Dict_0[a]]
                0 <= a < back->Dict_0.len() ==> back->Dict_0[a].0 is Text && exists|j: int|
                    #![trigger es[j]]
                    last_with_key(es@, j, back->Dict_0[a].0->Text_0@) && round_trip_of(
                        es[j].1,
                        back->Dict_0[a].1,
                    )
            &&& forall|j: int|
                0 <= j < es.len() ==> (#[trigger] es[j]).0 is Text && has_host_key(
                    back->Dict_0@,
                    es[j].0->Text_0@,
                )
        },
        HostValue::Other => false,
        _ => back == h,
    }
}

/// Converting a host value to canonical form and back gives the same value,
/// but that NaN floats become null and a mapping's repeated keys collapse to
/// the last value given.
pub proof fn lemma_round_trip(h: HostValue, v: Canonical, back: HostValue)
    requires
        canonical_of(h, v),
        host_of(v, back),
    ensures
        round_trip_of(h, back),
    decreases h,
{
    match h {
        HostValue::List(items) => {
            lemma_list_items_decrease(h);
            lemma_array_items_decrease(v);
            assert forall|i: int| 0 <= i < items.len() implies round_trip_of(
                #[trigger] items[i],
                back->List_0[i],
            ) by {
                lemma_round_trip(items[i], v->Array_0[i], back->List_0[i]);
            }
        },
        HostValue::Dict(es) => {
            lemma_dict_values_decrease(h);
            lemma_object_values_decrease(v);
            let os = v->Object_0;
            let bs = back->Dict_0;
            assert forall|a: int| #![trigger bs[a]] 0 <= a < bs.len() implies bs[a].0 is Text
                && exists|j: int|
                #![trigger es[j]]
                last_with_key(es@, j, bs[a].0->Text_0@) && round_trip_of(es[j].1, bs[a].1) by {
                assert(key_is(bs[a].0, os[a].0@) && host_of(os[a].1, bs[a].1));
                let j = choose|j: int|
                    #![trigger es[j]]
                    last_with_key(es@, j, os[a].0@) && canonical_of(es[j].1, os[a].1);
                lemma_round_trip(es[j].1, os[a].1, bs[a].1);
            }
            assert forall|j: int| 0 <= j < es.len() implies (#[trigger] es[j]).0 is Text
                && has_host_key(bs@, es[j].0->Text_0@) by {
                let a = choose|a: int| 0 <= a < os.len() && os[a].0@ == es[j].0->Text_0@;
                assert(key_is(bs[a].0, os[a].0@));
            }
            assert forall|a: int, b: int| 0 <= a < b < bs.len() implies bs[a].0 is Text
                && bs[b].0 is Text && bs[a].0->Text_0@ != bs[b].0->Text_0@ by {
                assert(key_is(bs[a].0, os[a].0@));
                assert(key_is(bs[b].0, os[b].0@));
            }
        },
        _ => {},
    }
}

/// The mapping case of `to_canonical`.
#[verifier::loop_isolation(false)]
fn dict_to_canonical(h: &HostValue) -> (r: Result<Canonical, ConvertError>)
    requires
        h is Dict,
    ensures
        r is Ok <==> supported(*h),
        r is Ok ==> canonical_of(*h, r->Ok_0),
    decreases h, 0int,
{
    let es = match h {
        HostValue::Dict(es) => es,
        _ => {
            return Err(ConvertError::UnsupportedType);
        },
    };
    proof {
        lemma_dict_values_decrease(*h);
    }
    let mut out: Vec<(String, Canonical)> = Vec::new();
    let mut i: usize = 0;
    while i < es.len()
        invariant
            0 <= i <= es.len(),
            keys_unique(out@),
            forall|k: int|
                0 <= k < i ==> (#[trigger] es[k]).0 is Text && supported(es[k].1),
            forall|a: int|
                #![trigger out[a]]
                0 <= a < out.len() ==> exists|j: int|
                    #![trigger es[j]]
                    last_with_key(es@.take(i as int), j, out[a].0@)
                        && canonical_of(es[j].1, out[a].1),
            forall|j: int|
                0 <= j < i ==> (#[trigger] es[j]).0 is Text && has_key(
                    out@,
                    es[j].0->Text_0@,
                ),
        decreases es.len() - i,
    {
        let key = match &es[i].0 {
            HostValue::Text(s) => s.clone(),
            _ => {
                assert(!(es[i as int].0 is Text && supported(es[i as int].1)));
                return Err(ConvertError::UnsupportedType);
            },
        };
        let cv = match to_canonical(&es[i].1) {
            Ok(v) => v,
            Err(e) => {
                assert(!supported(es[i as int].1));
                return Err(e);
            },
        };
        let ghost prev = out@;
        let ghost pre = es@.take(i as int);
        let ghost post = es@.take(i + 1);
        assert(key@ == es[i as int].0->Text_0@);
        assert(canonical_of(es[i as int].1, cv));
        assert forall|j2: int| 0 <= j2 < i implies post[j2] == pre[j2] && pre[j2] == es[j2] by {}
        assert(post[i as int] == es[i as int]);
        insert_entry(&mut out, key, cv);
        assert forall|a: int|
            #![trigger out[a]]
            0 <= a < out.len() implies exists|j: int|
            #![trigger es[j]]
            last_with_key(post, j, out[a].0@) && canonical_of(
                es[j].1,
                out[a].1,
            ) by {
            if out[a].0@ == key@ {
                let c = choose|c: int|
                    0 <= c < out.len() && out[c].0@ == key@ && out[c].1 == cv;
                assert(a == c);
                assert(last_with_key(post, i as int, out[a].0@));
                assert(canonical_of(es[i as int].1, out[a].1));
            } else {
                assert(has_entry(prev, out[a]));
                let b = choose|b: int| 0 <= b < prev.len() && prev[b] == out[a];
                let j = choose|j: int|
                    last_with_key(pre, j, prev[b].0@) && canonical_of(
                        es[j].1,
                        prev[b].1,
                    );
                assert(out[a].0@ != key@);
                assert(!key_is(post[i as int].0, out[a].0@));
                assert(last_with_key(post, j, out[a].0@));
            }
        }
        assert forall|j: int| 0 <= j < i + 1 implies (#[trigger] es[j]).0 is Text
            && has_key(out@, es[j].0->Text_0@) by {
            if j < i {
                let b = choose|b: int|
                    0 <= b < prev.len() && prev[b].0@ == es[j].0->Text_0@;
                assert(has_key(out@, prev[b].0@));
            }
        }
        i += 1;
    }
    assert(es@.take(es.len() as int) =~= es@);
    assert forall|a: int|
        #![trigger out[a]]
        0 <= a < out.len() implies exists|j: int|
        #![trigger es[j]]
        last_with_key(es@, j, out[a].0@) && canonical_of(es[j].1, out[a].1) by {
        let j = choose|j: int|
            last_with_key(es@.take(es.len() as int), j, out[a].0@) && canonical_of(
                es[j].1,
                out[a].1,
            );
        assert(last_with_key(es@, j, out[a].0@));
    }
    assert(supported(*h));
    assert(canonical_of(*h, Canonical::Object(out)));
    Ok(Canonical::Object(out))
}

} // verus!
