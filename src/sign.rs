//! The signature engine: canonical ordering of parameters, the signing
//! string, and the two signature algorithms.

use vstd::prelude::*;
use vstd::utf8::encode_utf8;
use hmac::{Hmac, Mac};
use md5::{Digest, Md5};
use crate::client::SeewoSignType;

verus! {

/// A key/value pair seen as text.
pub type PairView = (Seq<char>, Seq<char>);

/// The pairs of a vector, as text.
pub open spec fn pairs_view(v: Seq<(String, String)>) -> Seq<PairView> {
    Seq::new(v.len(), |i: int| (v[i].0@, v[i].1@))
}

/// Byte-wise lexicographic `a <= b`, the order of `Ord for str`.
pub open spec fn bytes_le(a: Seq<u8>, b: Seq<u8>) -> bool
    decreases a.len(),
{
    if a.len() == 0 {
        true
    } else if b.len() == 0 {
        false
    } else if a[0] != b[0] {
        a[0] < b[0]
    } else {
        bytes_le(a.drop_first(), b.drop_first())
    }
}

/// Pairs compare by the UTF-8 bytes of their keys alone.
pub open spec fn key_le(p: PairView, q: PairView) -> bool {
    bytes_le(encode_utf8(p.0), encode_utf8(q.0))
}

/// Inserts `x` into `s` after every pair whose key is not greater.
pub open spec fn insert_by_key(s: Seq<PairView>, x: PairView) -> Seq<PairView>
    decreases s.len(),
{
    if s.len() == 0 {
        seq![x]
    } else if key_le(s.last(), x) {
        s.push(x)
    } else {
        insert_by_key(s.drop_last(), x).push(s.last())
    }
}

/// The stable sort of `s` by key, ascending.
pub open spec fn sort_by_key(s: Seq<PairView>) -> Seq<PairView>
    decreases s.len(),
{
    if s.len() == 0 {
        s
    } else {
        insert_by_key(sort_by_key(s.drop_last()), s.last())
    }
}

/// Key then value, for each pair whose value is not empty, in order.
pub open spec fn concat_pairs(s: Seq<PairView>) -> Seq<u8>
    decreases s.len(),
{
    if s.len() == 0 {
        Seq::empty()
    } else {
        let p = s.last();
        let tail = if p.1.len() == 0 {
            Seq::empty()
        } else {
            encode_utf8(p.0) + encode_utf8(p.1)
        };
        concat_pairs(s.drop_last()) + tail
    }
}

/// The string that is signed: the pairs sorted by key, then concatenated.
pub open spec fn signing_string(params: Seq<PairView>) -> Seq<u8> {
    concat_pairs(sort_by_key(params))
}

/// The digits of uppercase hexadecimal.
pub open spec fn hex_digits() -> Seq<char> {
    seq!['0', '1', '2', '3', '4', '5', '6', '7', '8', '9', 'A', 'B', 'C', 'D', 'E', 'F']
}

/// Two uppercase hex digits for each byte, high nibble first.
pub open spec fn upper_hex(b: Seq<u8>) -> Seq<char>
    decreases b.len(),
{
    if b.len() == 0 {
        Seq::empty()
    } else {
        upper_hex(b.drop_last()) + seq![
            hex_digits()[(b.last() / 16) as int],
            hex_digits()[(b.last() % 16) as int],
        ]
    }
}

/// Hex text has two digits per byte, each an uppercase hex digit.
pub proof fn lemma_upper_hex_digits(b: Seq<u8>)
    ensures
        upper_hex(b).len() == 2 * b.len(),
        forall|i: int| 0 <= i < upper_hex(b).len() ==> hex_digits().contains(#[trigger] upper_hex(b)[i]),
    decreases b.len(),
{
    if b.len() > 0 {
        lemma_upper_hex_digits(b.drop_last());
        let h = hex_digits();
        let hi = (b.last() / 16) as int;
        let lo = (b.last() % 16) as int;
        assert(h.contains(h[hi]));
        assert(h.contains(h[lo]));
        let u = upper_hex(b);
        let d = upper_hex(b.drop_last());
        assert forall|i: int| 0 <= i < u.len() implies h.contains(#[trigger] u[i]) by {
            if i < d.len() {
                assert(u[i] == d[i]);
            }
        }
    }
}

/// The MD5 digest of a byte string.
pub uninterp spec fn md5_of(data: Seq<u8>) -> Seq<u8>;

/// The HMAC-MD5 code of `data` under `key`.
pub uninterp spec fn hmac_md5_of(key: Seq<u8>, data: Seq<u8>) -> Seq<u8>;

/// Relies on md-5's `Md5` (new, update, finalize) and on generic-array's
/// `UpperHex`, which writes each byte of the digest as two uppercase digits.
#[verifier::external_body]
pub(crate) fn md5_upper_hex(data: &[u8]) -> (r: String)
    ensures
        r@ == upper_hex(md5_of(data@)),
        r@.len() == 32,
{
    let mut hasher = Md5::new();
    hasher.update(data);
    format!("{:X}", hasher.finalize())
}

/// Relies on hmac's `Hmac<Md5>`: `new_from_slice` accepts a key of any
/// length (it always returns `Ok`), then update and finalize; the code is
/// written as by `md5_upper_hex`.
#[verifier::external_body]
fn hmac_md5_upper_hex(key: &[u8], data: &[u8]) -> (r: String)
    ensures
        r@ == upper_hex(hmac_md5_of(key@, data@)),
        r@.len() == 32,
{
    let mut mac = Hmac::<Md5>::new_from_slice(key).expect("hmac accepts any key length");
    mac.update(data);
    format!("{:X}", mac.finalize().into_bytes())
}

/// The signature of a parameter set under a secret, for each algorithm.
pub open spec fn signature(secret: Seq<char>, sign_type: SeewoSignType, params: Seq<PairView>) -> Seq<char> {
    match sign_type {
        SeewoSignType::Hmac => upper_hex(hmac_md5_of(encode_utf8(secret), signing_string(params))),
        SeewoSignType::Md5 => upper_hex(
            md5_of(encode_utf8(secret) + signing_string(params) + encode_utf8(secret)),
        ),
    }
}

/// `bytes_le` on the UTF-8 bytes of two strings.
pub fn str_bytes_le(a: &str, b: &str) -> (r: bool)
    ensures
        r == bytes_le(encode_utf8(a@), encode_utf8(b@)),
{
    let x = a.as_bytes();
    let y = b.as_bytes();
    let ghost xs = x@;
    let ghost ys = y@;
    let mut i: usize = 0;
    assert(xs.subrange(0, xs.len() as int) =~= xs);
    assert(ys.subrange(0, ys.len() as int) =~= ys);
    while i < x.len() && i < y.len() && x[i] == y[i]
        invariant
            x@ == xs,
            y@ == ys,
            xs == encode_utf8(a@),
            ys == encode_utf8(b@),
            i <= xs.len(),
            i <= ys.len(),
            bytes_le(xs, ys) == bytes_le(xs.subrange(i as int, xs.len() as int), ys.subrange(i as int, ys.len() as int)),
        decreases xs.len() - i,
    {
        let ghost a1 = xs.subrange(i as int, xs.len() as int);
        let ghost b1 = ys.subrange(i as int, ys.len() as int);
        assert(a1.drop_first() =~= xs.subrange(i + 1, xs.len() as int));
        assert(b1.drop_first() =~= ys.subrange(i + 1, ys.len() as int));
        i = i + 1;
    }
    let ghost a1 = xs.subrange(i as int, xs.len() as int);
    let ghost b1 = ys.subrange(i as int, ys.len() as int);
    if i == x.len() {
        assert(a1.len() == 0);
        true
    } else if i == y.len() {
        assert(b1.len() == 0);
        false
    } else {
        assert(a1[0] == xs[i as int] && b1[0] == ys[i as int]);
        x[i] < y[i]
    }
}

proof fn lemma_insert_position(s: Seq<PairView>, x: PairView, j: int)
    requires
        0 <= j <= s.len(),
        j > 0 ==> key_le(s[j - 1], x),
        forall|k: int| j <= k < s.len() ==> !key_le(#[trigger] s[k], x),
    ensures
        insert_by_key(s, x) == s.insert(j, x),
    decreases s.len(),
{
    if s.len() == 0 {
        assert(s.insert(j, x) =~= seq![x]);
    } else if j == s.len() {
        assert(s.insert(j, x) =~= s.push(x));
    } else {
        assert(!key_le(s[s.len() - 1], x));
        lemma_insert_position(s.drop_last(), x, j);
        assert(s.drop_last().insert(j, x).push(s.last()) =~= s.insert(j, x));
    }
}

/// The pairs sorted by key, ascending; pairs with equal keys keep their order.
pub fn sort_pairs(v: &Vec<(String, String)>) -> (r: Vec<(String, String)>)
    ensures
        pairs_view(r@) == sort_by_key(pairs_view(v@)),
{
    let mut r: Vec<(String, String)> = Vec::new();
    let mut i: usize = 0;
    assert(pairs_view(v@.take(0)) =~= Seq::<PairView>::empty());
    while i < v.len()
        invariant
            i <= v@.len(),
            pairs_view(r@) == sort_by_key(pairs_view(v@.take(i as int))),
        decreases v@.len() - i,
    {
        let x = (v[i].0.clone(), v[i].1.clone());
        let ghost xv: PairView = (x.0@, x.1@);
        let ghost rv = pairs_view(r@);
        let mut j: usize = r.len();
        let mut found = false;
        while j > 0 && !found
            invariant
                j <= r@.len(),
                rv == pairs_view(r@),
                xv == (x.0@, x.1@),
                found ==> j > 0 && key_le(rv[j - 1], xv),
                forall|k: int| j <= k < rv.len() ==> !key_le(#[trigger] rv[k], xv),
            decreases j + (if found { 0int } else { 1int }),
        {
            if str_bytes_le(r[j - 1].0.as_str(), x.0.as_str()) {
                found = true;
            } else {
                j = j - 1;
            }
        }
        proof {
            lemma_insert_position(rv, xv, j as int);
            assert(pairs_view(v@.take(i + 1)).drop_last() =~= pairs_view(v@.take(i as int)));
            assert(pairs_view(v@.take(i + 1)).last() == xv);
        }
        r.insert(j, x);
        assert(pairs_view(r@) =~= rv.insert(j as int, xv));
        i = i + 1;
    }
    assert(v@.take(v@.len() as int) =~= v@);
    r
}

/// Appends the bytes of `s` to `out`.
fn push_bytes(out: &mut Vec<u8>, s: &str)
    ensures
        final(out)@ == old(out)@ + encode_utf8(s@),
{
    let b = s.as_bytes();
    let mut i: usize = 0;
    while i < b.len()
        invariant
            i <= b@.len(),
            b@ == encode_utf8(s@),
            out@ == old(out)@ + b@.take(i as int),
        decreases b@.len() - i,
    {
        out.push(b[i]);
        assert(b@.take(i + 1) =~= b@.take(i as int).push(b@[i as int]));
        i = i + 1;
    }
    assert(b@.take(b@.len() as int) =~= b@);
}

/// The signing string of already sorted pairs: key then value of each pair
/// whose value is not empty.
pub fn concat_sorted(pairs: &Vec<(String, String)>) -> (r: Vec<u8>)
    ensures
        r@ == concat_pairs(pairs_view(pairs@)),
{
    let mut out: Vec<u8> = Vec::new();
    let mut i: usize = 0;
    assert(pairs_view(pairs@).take(0) =~= Seq::<PairView>::empty());
    while i < pairs.len()
        invariant
            i <= pairs@.len(),
            out@ == concat_pairs(pairs_view(pairs@).take(i as int)),
        decreases pairs@.len() - i,
    {
        let ghost before = pairs_view(pairs@).take(i as int);
        assert(pairs_view(pairs@).take(i + 1).drop_last() =~= before);
        let key = pairs[i].0.as_str();
        let value = pairs[i].1.as_str();
        let ghost next = pairs_view(pairs@).take(i + 1);
        assert(next.last() == (key@, value@));
        assert(next.drop_last() == before);
        let empty_value = value.is_empty();
        if !empty_value {
            push_bytes(&mut out, key);
            push_bytes(&mut out, value);
            assert(out@ =~= concat_pairs(before) + (encode_utf8(key@) + encode_utf8(value@)));
        } else {
            assert(out@ =~= concat_pairs(before) + Seq::<u8>::empty());
        }
        assert(out@ == concat_pairs(next));
        i = i + 1;
    }
    assert(pairs_view(pairs@).take(pairs@.len() as int) =~= pairs_view(pairs@));
    out
}

/// Signs a parameter set: sorts it by key, concatenates it, and applies the
/// algorithm with the secret.
pub fn sign_params(params: &Vec<(String, String)>, secret: &str, sign_type: SeewoSignType) -> (r: String)
    ensures
        r@ == signature(secret@, sign_type, pairs_view(params@)),
        r@.len() == 32,
        forall|i: int| 0 <= i < r@.len() ==> hex_digits().contains(#[trigger] r@[i]),
{
    let sorted = sort_pairs(params);
    let material = concat_sorted(&sorted);
    match sign_type {
        SeewoSignType::Hmac => {
            let key = secret.as_bytes();
            let r = hmac_md5_upper_hex(key, material.as_slice());
            proof {
                lemma_upper_hex_digits(hmac_md5_of(key@, material@));
            }
            r
        },
        SeewoSignType::Md5 => {
            let mut salted: Vec<u8> = Vec::new();
            push_bytes(&mut salted, secret);
            let mut j: usize = 0;
            let ghost prefix = salted@;
            while j < material.len()
                invariant
                    j <= material@.len(),
                    salted@ == prefix + material@.take(j as int),
                decreases material@.len() - j,
            {
                salted.push(material[j]);
                assert(material@.take(j + 1) =~= material@.take(j as int).push(material@[j as int]));
                j = j + 1;
            }
            assert(material@.take(material@.len() as int) =~= material@);
            push_bytes(&mut salted, secret);
            let r = md5_upper_hex(salted.as_slice());
            proof {
                lemma_upper_hex_digits(md5_of(salted@));
            }
            r
        },
    }
}

/// `s` is in ascending order of keys.
pub open spec fn sorted_by_key(s: Seq<PairView>) -> bool {
    forall|i: int| 0 <= i < s.len() - 1 ==> key_le(#[trigger] s[i], s[i + 1])
}

/// Byte-wise order is total: of two byte strings, one is not greater.
pub proof fn lemma_bytes_le_total(a: Seq<u8>, b: Seq<u8>)
    ensures
        bytes_le(a, b) || bytes_le(b, a),
    decreases a.len(),
{
    if a.len() > 0 && b.len() > 0 && a[0] == b[0] {
        lemma_bytes_le_total(a.drop_first(), b.drop_first());
    }
}

proof fn lemma_insert_by_key_shape(s: Seq<PairView>, x: PairView)
    ensures
        insert_by_key(s, x).len() == s.len() + 1,
        insert_by_key(s, x).last() == x || (s.len() > 0 && insert_by_key(s, x).last() == s.last()),
        exists|j: int| 0 <= j <= s.len() && insert_by_key(s, x) == s.insert(j, x),
    decreases s.len(),
{
    if s.len() == 0 {
        assert(s.insert(0, x) =~= seq![x]);
    } else if key_le(s.last(), x) {
        assert(s.insert(s.len() as int, x) =~= s.push(x));
    } else {
        lemma_insert_by_key_shape(s.drop_last(), x);
        let j = choose|j: int| 0 <= j <= s.drop_last().len() && insert_by_key(s.drop_last(), x) == s.drop_last().insert(j, x);
        assert(s.drop_last().insert(j, x).push(s.last()) =~= s.insert(j, x));
    }
}

proof fn lemma_insert_by_key_sorted(s: Seq<PairView>, x: PairView)
    requires
        sorted_by_key(s),
    ensures
        sorted_by_key(insert_by_key(s, x)),
    decreases s.len(),
{
    lemma_insert_by_key_shape(s, x);
    if s.len() == 0 {
    } else if key_le(s.last(), x) {
        let t = s.push(x);
        assert forall|i: int| 0 <= i < t.len() - 1 implies key_le(#[trigger] t[i], t[i + 1]) by {
            if i < s.len() - 1 {
                assert(t[i] == s[i] && t[i + 1] == s[i + 1]);
            }
        }
    } else {
        let d = s.drop_last();
        assert(sorted_by_key(d)) by {
            assert forall|i: int| 0 <= i < d.len() - 1 implies key_le(#[trigger] d[i], d[i + 1]) by {
                assert(d[i] == s[i] && d[i + 1] == s[i + 1]);
            }
        }
        lemma_insert_by_key_sorted(d, x);
        lemma_insert_by_key_shape(d, x);
        lemma_bytes_le_total(encode_utf8(s.last().0), encode_utf8(x.0));
        let u = insert_by_key(d, x);
        if d.len() > 0 && u.last() == d.last() {
            assert(key_le(s[s.len() - 2], s[s.len() - 1]));
        }
        let t = u.push(s.last());
        assert forall|i: int| 0 <= i < t.len() - 1 implies key_le(#[trigger] t[i], t[i + 1]) by {
            if i < u.len() - 1 {
                assert(t[i] == u[i] && t[i + 1] == u[i + 1]);
            }
        }
    }
}

/// Sorting by key puts the keys in ascending byte-wise order and keeps
/// every pair.
pub proof fn lemma_sort_by_key_sorted(s: Seq<PairView>)
    ensures
        sorted_by_key(sort_by_key(s)),
        sort_by_key(s).len() == s.len(),
    decreases s.len(),
{
    if s.len() > 0 {
        lemma_sort_by_key_sorted(s.drop_last());
        lemma_insert_by_key_sorted(sort_by_key(s.drop_last()), s.last());
        lemma_insert_by_key_shape(sort_by_key(s.drop_last()), s.last());
    }
}

proof fn lemma_concat_skips_empty(s: Seq<PairView>, j: int, x: PairView)
    requires
        0 <= j <= s.len(),
        x.1.len() == 0,
    ensures
        concat_pairs(s.insert(j, x)) == concat_pairs(s),
    decreases s.len(),
{
    if j == s.len() {
        assert(s.insert(j, x) =~= s.push(x));
        assert(s.push(x).drop_last() =~= s);
        assert(concat_pairs(s) + Seq::<u8>::empty() =~= concat_pairs(s));
    } else {
        lemma_concat_skips_empty(s.drop_last(), j, x);
        assert(s.insert(j, x).drop_last() =~= s.drop_last().insert(j, x));
        assert(s.insert(j, x).last() == s.last());
    }
}

/// A parameter whose value is empty adds nothing to the signing string, at
/// whatever place of the sorted parameters it lands.
pub proof fn lemma_empty_value_not_signed(params: Seq<PairView>, key: Seq<char>)
    ensures
        signing_string(params.push((key, Seq::<char>::empty()))) == signing_string(params),
{
    let x: PairView = (key, Seq::<char>::empty());
    assert(params.push(x).drop_last() =~= params);
    let sorted = sort_by_key(params);
    lemma_insert_by_key_shape(sorted, x);
    let j = choose|j: int| 0 <= j <= sorted.len() && insert_by_key(sorted, x) == sorted.insert(j, x);
    lemma_concat_skips_empty(sorted, j, x);
}

/// With no parameters, the salted digest is the MD5 of the secret written
/// twice.
pub proof fn lemma_salted_digest_of_nothing(secret: Seq<char>)
    ensures
        signature(secret, SeewoSignType::Md5, Seq::empty()) == upper_hex(
            md5_of(encode_utf8(secret) + encode_utf8(secret)),
        ),
{
    assert(encode_utf8(secret) + signing_string(Seq::empty()) + encode_utf8(secret) =~= encode_utf8(secret)
        + encode_utf8(secret));
}

/// The pairs of `s` whose key has the bytes `k`, in order.
pub open spec fn with_key(s: Seq<PairView>, k: Seq<u8>) -> Seq<PairView>
    decreases s.len(),
{
    if s.len() == 0 {
        s
    } else if encode_utf8(s.last().0) == k {
        with_key(s.drop_last(), k).push(s.last())
    } else {
        with_key(s.drop_last(), k)
    }
}

proof fn lemma_bytes_le_refl(a: Seq<u8>)
    ensures
        bytes_le(a, a),
    decreases a.len(),
{
    if a.len() > 0 {
        lemma_bytes_le_refl(a.drop_first());
    }
}

proof fn lemma_with_key_insert(t: Seq<PairView>, x: PairView, k: Seq<u8>)
    ensures
        with_key(insert_by_key(t, x), k) == if encode_utf8(x.0) == k {
            with_key(t, k).push(x)
        } else {
            with_key(t, k)
        },
    decreases t.len(),
{
    if t.len() == 0 {
        assert(seq![x].drop_last() =~= t);
    } else if key_le(t.last(), x) {
        assert(t.push(x).drop_last() =~= t);
    } else {
        let d = t.drop_last();
        lemma_with_key_insert(d, x, k);
        let u = insert_by_key(d, x);
        assert(u.push(t.last()).drop_last() =~= u);
        if encode_utf8(t.last().0) == k && encode_utf8(x.0) == k {
            lemma_bytes_le_refl(k);
        }
    }
}

/// Sorting is stable and keeps every pair: for each key, the pairs with
/// that key come out as they went in, in the same order.
pub proof fn lemma_sort_by_key_stable(s: Seq<PairView>, k: Seq<u8>)
    ensures
        with_key(sort_by_key(s), k) == with_key(s, k),
    decreases s.len(),
{
    if s.len() > 0 {
        lemma_sort_by_key_stable(s.drop_last(), k);
        lemma_with_key_insert(sort_by_key(s.drop_last()), s.last(), k);
    }
}

} // verus!
