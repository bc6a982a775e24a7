//! Byte layout of the records this program stores in accounts.
//!
//! Integers are little-endian; a collection is a `u32` element count followed
//! by its elements; a `bool` is one byte, 0 or 1. A profile is laid out as
//! `seed:32 | authority:32 | recovery_threshold:1 | guardians | recovery:32 | recovered`
//! where a guardian is `pubkey:32 | has_signed:1` and `recovered` holds keys.
//! Records are read from the front of a buffer: bytes past the record are ignored.
use vstd::bytes::*;
use vstd::prelude::*;
use vstd::slice::slice_subrange;

use crate::key::{Key, KEY_LEN};
use crate::state::{
    contains_guardian, contains_key, distinct_guardians, distinct_keys, Guardian, ProfileModel,
    UserProfile, MAX_GUARDIANS,
};

verus! {

pub open spec fn bool_byte(b: bool) -> u8 {
    if b {
        1
    } else {
        0
    }
}

pub open spec fn guardian_bytes(g: Guardian) -> Seq<u8> {
    g.pubkey@ + seq![bool_byte(g.has_signed)]
}

pub open spec fn guardians_bytes(s: Seq<Guardian>) -> Seq<u8>
    decreases s.len(),
{
    if s.len() == 0 {
        Seq::empty()
    } else {
        guardians_bytes(s.drop_last()) + guardian_bytes(s.last())
    }
}

pub open spec fn keys_bytes(s: Seq<Key>) -> Seq<u8>
    decreases s.len(),
{
    if s.len() == 0 {
        Seq::empty()
    } else {
        keys_bytes(s.drop_last()) + s.last()@
    }
}

/// The guardian table: its count, then each guardian.
pub open spec fn guardian_section(s: Seq<Guardian>) -> Seq<u8> {
    spec_u32_to_le_bytes(s.len() as u32) + guardians_bytes(s)
}

/// A key set: its count, then each key.
pub open spec fn key_section(s: Seq<Key>) -> Seq<u8> {
    spec_u32_to_le_bytes(s.len() as u32) + keys_bytes(s)
}

pub open spec fn header_bytes(seed: Key, authority: Key) -> Seq<u8> {
    seed@ + authority@
}

/// Serialized form of a profile.
pub open spec fn profile_bytes(p: ProfileModel) -> Seq<u8> {
    header_bytes(p.seed, p.authority) + seq![p.recovery_threshold] + guardian_section(p.guardians)
        + p.recovery@ + key_section(p.recovered)
}

/// `a` stands in `data` starting at `pos`.
pub open spec fn present_at(a: Seq<u8>, data: Seq<u8>, pos: int) -> bool {
    &&& 0 <= pos
    &&& pos + a.len() <= data.len()
    &&& data.subrange(pos, pos + a.len()) == a
}

pub proof fn lemma_present_at_concat(a: Seq<u8>, b: Seq<u8>, data: Seq<u8>, pos: int)
    requires
        present_at(a + b, data, pos),
    ensures
        present_at(a, data, pos),
        present_at(b, data, pos + a.len()),
{
    let w = data.subrange(pos, pos + a.len() + b.len());
    assert(w == a + b);
    assert(data.subrange(pos, pos + a.len()) =~= w.subrange(0, a.len() as int));
    assert(data.subrange(pos + a.len(), pos + a.len() + b.len()) =~= w.subrange(
        a.len() as int,
        (a.len() + b.len()) as int,
    ));
    assert((a + b).subrange(0, a.len() as int) =~= a);
    assert((a + b).subrange(a.len() as int, (a.len() + b.len()) as int) =~= b);
}

pub proof fn lemma_key_len(k: Key)
    ensures
        k@.len() == 32,
{
}

/// Where each guardian stands in the table's bytes.
pub proof fn lemma_guardians_layout(s: Seq<Guardian>)
    ensures
        guardians_bytes(s).len() == 33 * s.len(),
        forall|i: int|
            #![trigger s[i]]
            0 <= i < s.len() ==> present_at(guardian_bytes(s[i]), guardians_bytes(s), 33 * i),
    decreases s.len(),
{
    if s.len() > 0 {
        let t = s.drop_last();
        lemma_guardians_layout(t);
        let g = s.last();
        lemma_key_len(g.pubkey);
        let b = guardians_bytes(s);
        assert(b == guardians_bytes(t) + guardian_bytes(g));
        assert forall|i: int| #![trigger s[i]] 0 <= i < s.len() implies present_at(
            guardian_bytes(s[i]),
            b,
            33 * i,
        ) by {
            if i < t.len() {
                assert(s[i] == t[i]);
                assert(33 * i + 33 <= 33 * t.len()) by (nonlinear_arith)
                    requires
                        i < t.len(),
                ;
                assert(b.subrange(33 * i, 33 * i + 33) =~= guardians_bytes(t).subrange(
                    33 * i,
                    33 * i + 33,
                ));
            } else {
                assert(b.subrange(33 * i, 33 * i + 33) =~= guardian_bytes(g));
            }
        }
    }
}

/// Where each key stands in the set's bytes.
pub proof fn lemma_keys_layout(s: Seq<Key>)
    ensures
        keys_bytes(s).len() == 32 * s.len(),
        forall|i: int| #![trigger s[i]] 0 <= i < s.len() ==> present_at(s[i]@, keys_bytes(s), 32 * i),
    decreases s.len(),
{
    if s.len() > 0 {
        let t = s.drop_last();
        lemma_keys_layout(t);
        let k = s.last();
        lemma_key_len(k);
        let b = keys_bytes(s);
        assert(b == keys_bytes(t) + k@);
        assert forall|i: int| #![trigger s[i]] 0 <= i < s.len() implies present_at(
            s[i]@,
            b,
            32 * i,
        ) by {
            lemma_key_len(s[i]);
            if i < t.len() {
                assert(s[i] == t[i]);
                assert(32 * i + 32 <= 32 * t.len()) by (nonlinear_arith)
                    requires
                        i < t.len(),
                ;
                assert(b.subrange(32 * i, 32 * i + 32) =~= keys_bytes(t).subrange(
                    32 * i,
                    32 * i + 32,
                ));
            } else {
                assert(b.subrange(32 * i, 32 * i + 32) =~= k@);
            }
        }
    }
}

/// Writes `k` at the end of `out`.
pub fn put_key(out: &mut Vec<u8>, k: &Key)
    ensures
        final(out)@ == old(out)@ + k@,
{
    let mut i: usize = 0;
    while i < KEY_LEN
        invariant
            i <= KEY_LEN,
            k@.len() == 32,
            out@ == old(out)@ + k@.subrange(0, i as int),
        decreases KEY_LEN - i,
    {
        out.push(k.bytes[i]);
        assert(k@.subrange(0, i + 1) =~= k@.subrange(0, i as int).push(k@[i as int]));
        i = i + 1;
    }
    assert(k@.subrange(0, 32) =~= k@);
}

/// Writes `x` at the end of `out`, little-endian.
pub fn put_u32(out: &mut Vec<u8>, x: u32)
    ensures
        final(out)@ == old(out)@ + spec_u32_to_le_bytes(x),
{
    let mut b = u32_to_le_bytes(x);
    out.append(&mut b);
}

/// Writes `x` at the end of `out`, little-endian.
pub fn put_u64(out: &mut Vec<u8>, x: u64)
    ensures
        final(out)@ == old(out)@ + spec_u64_to_le_bytes(x),
{
    let mut b = u64_to_le_bytes(x);
    out.append(&mut b);
}

/// Reads a key at `pos`, if the buffer holds one there.
pub fn get_key(data: &[u8], pos: usize) -> (r: Option<Key>)
    ensures
        r is Some <==> pos + 32 <= data@.len(),
        r matches Some(k) ==> k@ == data@.subrange(pos as int, pos + 32),
{
    if pos > data.len() || data.len() - pos < KEY_LEN {
        return None;
    }
    let mut bytes = [0u8; 32];
    let mut i: usize = 0;
    while i < KEY_LEN
        invariant
            i <= KEY_LEN,
            pos + 32 <= data.len(),
            bytes@.len() == 32,
            forall|j: int| 0 <= j < i ==> bytes@[j] == data@[pos + j],
        decreases KEY_LEN - i,
    {
        bytes.set(i, data[pos + i]);
        i = i + 1;
    }
    let k = Key { bytes };
    assert(k@ =~= data@.subrange(pos as int, pos + 32));
    Some(k)
}

/// Reads a little-endian `u32` at `pos`.
pub fn get_u32(data: &[u8], pos: usize) -> (r: Option<u32>)
    ensures
        r is Some <==> pos + 4 <= data@.len(),
        r matches Some(x) ==> x == spec_u32_from_le_bytes(data@.subrange(pos as int, pos + 4)),
{
    if pos > data.len() || data.len() - pos < 4 {
        return None;
    }
    let s = slice_subrange(data, pos, pos + 4);
    Some(u32_from_le_bytes(s))
}

/// Reads a little-endian `u64` at `pos`.
pub fn get_u64(data: &[u8], pos: usize) -> (r: Option<u64>)
    ensures
        r is Some <==> pos + 8 <= data@.len(),
        r matches Some(x) ==> x == spec_u64_from_le_bytes(data@.subrange(pos as int, pos + 8)),
{
    if pos > data.len() || data.len() - pos < 8 {
        return None;
    }
    let s = slice_subrange(data, pos, pos + 8);
    Some(u64_from_le_bytes(s))
}

/// Reads a `bool` byte at `pos`; any byte other than 0 or 1 is refused.
pub fn get_bool(data: &[u8], pos: usize) -> (r: Option<bool>)
    ensures
        r is Some <==> pos < data@.len() && (data@[pos as int] == 0 || data@[pos as int] == 1),
        r matches Some(b) ==> bool_byte(b) == data@[pos as int],
{
    if pos >= data.len() {
        return None;
    }
    let b = data[pos];
    if b == 0 {
        Some(false)
    } else if b == 1 {
        Some(true)
    } else {
        None
    }
}

} // verus!

verus! {

pub proof fn lemma_present_at_join(a: Seq<u8>, b: Seq<u8>, data: Seq<u8>, pos: int)
    requires
        present_at(a, data, pos),
        present_at(b, data, pos + a.len()),
    ensures
        present_at(a + b, data, pos),
{
    assert(data.subrange(pos, pos + a.len() + b.len()) =~= a + b) by {
        assert forall|j: int| 0 <= j < a.len() + b.len() implies #[trigger] data.subrange(
            pos,
            pos + a.len() + b.len(),
        )[j] == (a + b)[j] by {
            if j < a.len() {
                assert(data.subrange(pos, pos + a.len())[j] == a[j]);
            } else {
                assert(data.subrange(pos + a.len(), pos + a.len() + b.len())[j - a.len()] == b[j
                    - a.len()]);
            }
        }
    }
}

pub proof fn lemma_present_at_within(a: Seq<u8>, b: Seq<u8>, data: Seq<u8>, p: int, q: int)
    requires
        present_at(a, b, p),
        present_at(b, data, q),
    ensures
        present_at(a, data, q + p),
{
    assert(data.subrange(q + p, q + p + a.len()) =~= b.subrange(p, p + a.len()));
}

/// The count of a table that stands at `pos`.
proof fn lemma_count_at(c: Seq<u8>, rest: Seq<u8>, n: nat, data: Seq<u8>, pos: int)
    requires
        c == spec_u32_to_le_bytes(n as u32),
        n <= u32::MAX,
        present_at(c + rest, data, pos),
    ensures
        c.len() == 4,
        spec_u32_from_le_bytes(data.subrange(pos, pos + 4)) == n,
        present_at(rest, data, pos + 4),
{
    lemma_auto_spec_u32_to_from_le_bytes();
    lemma_present_at_concat(c, rest, data, pos);
}

/// Guardian `i` of a table that stands at `pos`.
proof fn lemma_guardian_at(s: Seq<Guardian>, data: Seq<u8>, pos: int, i: int)
    requires
        s.len() <= u32::MAX,
        present_at(guardian_section(s), data, pos),
        0 <= i < s.len(),
    ensures
        present_at(s[i].pubkey@, data, pos + 4 + 33 * i),
        pos + 4 + 33 * i + 33 <= data.len(),
        data[pos + 4 + 33 * i + 32] == bool_byte(s[i].has_signed),
{
    lemma_count_at(spec_u32_to_le_bytes(s.len() as u32), guardians_bytes(s), s.len(), data, pos);
    lemma_guardians_layout(s);
    let g = s[i];
    lemma_present_at_within(guardian_bytes(g), guardians_bytes(s), data, 33 * i, pos + 4);
    lemma_key_len(g.pubkey);
    lemma_present_at_concat(g.pubkey@, seq![bool_byte(g.has_signed)], data, pos + 4 + 33 * i);
    assert(data.subrange(pos + 4 + 33 * i + 32, pos + 4 + 33 * i + 33)[0] == data[pos + 4 + 33 * i
        + 32]);
}

/// Key `i` of a set that stands at `pos`.
proof fn lemma_key_at(s: Seq<Key>, data: Seq<u8>, pos: int, i: int)
    requires
        s.len() <= u32::MAX,
        present_at(key_section(s), data, pos),
        0 <= i < s.len(),
    ensures
        present_at(s[i]@, data, pos + 4 + 32 * i),
{
    lemma_count_at(spec_u32_to_le_bytes(s.len() as u32), keys_bytes(s), s.len(), data, pos);
    lemma_keys_layout(s);
    lemma_present_at_within(s[i]@, keys_bytes(s), data, 32 * i, pos + 4);
}

pub proof fn lemma_key_eq(a: Key, b: Key)
    requires
        a@ == b@,
    ensures
        a == b,
{
    assert(a.bytes == b.bytes);
}

/// A guardian table that may stand at `pos`.
pub open spec fn guardians_fit(s: Seq<Guardian>, data: Seq<u8>, pos: int) -> bool {
    &&& s.len() <= MAX_GUARDIANS
    &&& distinct_guardians(s)
    &&& present_at(guardian_section(s), data, pos)
}

/// A key set that may stand at `pos`.
pub open spec fn keys_fit(s: Seq<Key>, data: Seq<u8>, pos: int) -> bool {
    &&& s.len() <= u32::MAX
    &&& distinct_keys(s)
    &&& present_at(key_section(s), data, pos)
}

/// Reads the guardian table that starts at `pos`, with the offset just past it.
pub fn get_guardians(data: &[u8], pos: usize) -> (r: Option<(Vec<Guardian>, usize)>)
    ensures
        r matches Some((gs, end)) ==> guardians_fit(gs@, data@, pos as int) && end == pos
            + guardian_section(gs@).len(),
        forall|s: Seq<Guardian>|
            #![trigger guardians_fit(s, data@, pos as int)]
            guardians_fit(s, data@, pos as int) ==> (r matches Some((gs, _)) && gs@ == s),
{
    let count = match get_u32(data, pos) {
        Some(c) => c,
        None => {
            assert forall|s: Seq<Guardian>| #[trigger]
                guardians_fit(s, data@, pos as int) implies false by {
                lemma_count_at(
                    spec_u32_to_le_bytes(s.len() as u32),
                    guardians_bytes(s),
                    s.len(),
                    data@,
                    pos as int,
                );
            }
            return None;
        },
    };
    proof {
        assert forall|s: Seq<Guardian>| #[trigger]
            guardians_fit(s, data@, pos as int) implies s.len() == count by {
            lemma_count_at(
                spec_u32_to_le_bytes(s.len() as u32),
                guardians_bytes(s),
                s.len(),
                data@,
                pos as int,
            );
        }
    }
    if count > MAX_GUARDIANS as u32 {
        return None;
    }
    let n: usize = data.len();
    let mut gs: Vec<Guardian> = Vec::new();
    let mut cur: usize = pos + 4;
    assert(data@.subrange(pos + 4, pos + 4) =~= Seq::<u8>::empty());
    let mut i: u32 = 0;
    while i < count
        invariant
            pos + 4 <= data@.len(),
            count <= MAX_GUARDIANS,
            count == spec_u32_from_le_bytes(data@.subrange(pos as int, pos + 4)),
            i <= count,
            cur == pos + 4 + 33 * i,
            n == data@.len(),
            cur <= n,
            gs@.len() == i,
            distinct_guardians(gs@),
            present_at(guardians_bytes(gs@), data@, pos + 4),
            forall|s: Seq<Guardian>| #[trigger]
                guardians_fit(s, data@, pos as int) ==> s.len() == count && s.subrange(
                    0,
                    i as int,
                ) == gs@,
        decreases count - i,
    {
        let ghost old_gs = gs@;
        let k = match get_key(data, cur) {
            Some(k) => k,
            None => {
                assert forall|s: Seq<Guardian>| #[trigger]
                    guardians_fit(s, data@, pos as int) implies false by {
                    lemma_guardian_at(s, data@, pos as int, i as int);
                }
                return None;
            },
        };
        let b = match get_bool(data, cur + 32) {
            Some(b) => b,
            None => {
                assert forall|s: Seq<Guardian>| #[trigger]
                    guardians_fit(s, data@, pos as int) implies false by {
                    lemma_guardian_at(s, data@, pos as int, i as int);
                }
                return None;
            },
        };
        if contains_guardian(&gs, &k) {
            assert forall|s: Seq<Guardian>| #[trigger]
                guardians_fit(s, data@, pos as int) implies false by {
                lemma_guardian_at(s, data@, pos as int, i as int);
                let j = choose|j: int| 0 <= j < gs@.len() && gs@[j].pubkey@ == k@;
                assert(s.subrange(0, i as int)[j] == s[j]);
                assert(s[j].pubkey@ == s[i as int].pubkey@);
            }
            return None;
        }
        let g = Guardian { pubkey: k, has_signed: b };
        gs.push(g);
        proof {
            lemma_key_len(k);
            assert(gs@.drop_last() =~= old_gs);
            assert(data@.subrange(cur + 32, cur + 33) =~= seq![bool_byte(b)]);
            assert(present_at(seq![bool_byte(b)], data@, cur + 32));
            lemma_present_at_join(k@, seq![bool_byte(b)], data@, cur as int);
            lemma_guardians_layout(old_gs);
            lemma_present_at_join(guardians_bytes(old_gs), guardian_bytes(g), data@, pos + 4);
            assert forall|s: Seq<Guardian>| #[trigger]
                guardians_fit(s, data@, pos as int) implies s.subrange(0, i + 1) == gs@ by {
                lemma_guardian_at(s, data@, pos as int, i as int);
                lemma_key_eq(s[i as int].pubkey, k);
                assert(s.subrange(0, i + 1) =~= s.subrange(0, i as int).push(s[i as int]));
            }
        }
        cur = cur + 33;
        i = i + 1;
    }
    proof {
        lemma_guardians_layout(gs@);
        lemma_auto_spec_u32_to_from_le_bytes();
        let c = spec_u32_to_le_bytes(gs@.len() as u32);
        assert(data@.subrange(pos as int, pos + 4) =~= c);
        lemma_present_at_join(c, guardians_bytes(gs@), data@, pos as int);
        assert forall|s: Seq<Guardian>| #[trigger] guardians_fit(s, data@, pos as int) implies gs@
            == s by {
            assert(s.subrange(0, s.len() as int) =~= s);
        }
    }
    Some((gs, cur))
}

/// Reads the key set that starts at `pos`, with the offset just past it.
pub fn get_keys(data: &[u8], pos: usize) -> (r: Option<(Vec<Key>, usize)>)
    ensures
        r matches Some((ks, end)) ==> keys_fit(ks@, data@, pos as int) && end == pos
            + key_section(ks@).len(),
        forall|s: Seq<Key>|
            #![trigger keys_fit(s, data@, pos as int)]
            keys_fit(s, data@, pos as int) ==> (r matches Some((ks, _)) && ks@ == s),
{
    let count = match get_u32(data, pos) {
        Some(c) => c,
        None => {
            assert forall|s: Seq<Key>| #[trigger] keys_fit(s, data@, pos as int) implies false by {
                lemma_count_at(
                    spec_u32_to_le_bytes(s.len() as u32),
                    keys_bytes(s),
                    s.len(),
                    data@,
                    pos as int,
                );
            }
            return None;
        },
    };
    proof {
        assert forall|s: Seq<Key>| #[trigger] keys_fit(s, data@, pos as int) implies s.len()
            == count by {
            lemma_count_at(
                spec_u32_to_le_bytes(s.len() as u32),
                keys_bytes(s),
                s.len(),
                data@,
                pos as int,
            );
        }
    }
    let n: usize = data.len();
    let mut ks: Vec<Key> = Vec::new();
    let mut cur: usize = pos + 4;
    assert(data@.subrange(pos + 4, pos + 4) =~= Seq::<u8>::empty());
    let mut i: u32 = 0;
    while i < count
        invariant
            pos + 4 <= data@.len(),
            count == spec_u32_from_le_bytes(data@.subrange(pos as int, pos + 4)),
            i <= count,
            cur == pos + 4 + 32 * i,
            n == data@.len(),
            cur <= n,
            ks@.len() == i,
            distinct_keys(ks@),
            present_at(keys_bytes(ks@), data@, pos + 4),
            forall|s: Seq<Key>| #[trigger]
                keys_fit(s, data@, pos as int) ==> s.len() == count && s.subrange(0, i as int)
                    == ks@,
        decreases count - i,
    {
        let ghost old_ks = ks@;
        let k = match get_key(data, cur) {
            Some(k) => k,
            None => {
                assert forall|s: Seq<Key>| #[trigger]
                    keys_fit(s, data@, pos as int) implies false by {
                    lemma_key_at(s, data@, pos as int, i as int);
                }
                return None;
            },
        };
        if contains_key(&ks, &k) {
            assert forall|s: Seq<Key>| #[trigger] keys_fit(s, data@, pos as int) implies false by {
                lemma_key_at(s, data@, pos as int, i as int);
                let j = choose|j: int| 0 <= j < ks@.len() && ks@[j]@ == k@;
                assert(s.subrange(0, i as int)[j] == s[j]);
                assert(s[j]@ == s[i as int]@);
            }
            return None;
        }
        ks.push(k);
        proof {
            lemma_key_len(k);
            assert(ks@.drop_last() =~= old_ks);
            lemma_keys_layout(old_ks);
            lemma_present_at_join(keys_bytes(old_ks), k@, data@, pos + 4);
            assert forall|s: Seq<Key>| #[trigger] keys_fit(s, data@, pos as int) implies s.subrange(
                0,
                i + 1,
            ) == ks@ by {
                lemma_key_at(s, data@, pos as int, i as int);
                lemma_key_eq(s[i as int], k);
                assert(s.subrange(0, i + 1) =~= s.subrange(0, i as int).push(s[i as int]));
            }
        }
        cur = cur + 32;
        i = i + 1;
    }
    proof {
        lemma_keys_layout(ks@);
        lemma_auto_spec_u32_to_from_le_bytes();
        let c = spec_u32_to_le_bytes(ks@.len() as u32);
        assert(data@.subrange(pos as int, pos + 4) =~= c);
        lemma_present_at_join(c, keys_bytes(ks@), data@, pos as int);
        assert forall|s: Seq<Key>| #[trigger] keys_fit(s, data@, pos as int) implies ks@ == s by {
            assert(s.subrange(0, s.len() as int) =~= s);
        }
    }
    Some((ks, cur))
}

} // verus!

verus! {

/// `data` begins with the serialized form of the valid profile `q`.
pub open spec fn decodes_to(data: Seq<u8>, q: ProfileModel) -> bool {
    q.wf() && present_at(profile_bytes(q), data, 0)
}

/// Where each field of a serialized profile stands.
proof fn lemma_profile_parts(q: ProfileModel, data: Seq<u8>)
    requires
        decodes_to(data, q),
    ensures
        present_at(q.seed@, data, 0),
        present_at(q.authority@, data, 32),
        data.len() >= 65,
        data[64] == q.recovery_threshold,
        guardians_fit(q.guardians, data, 65),
        guardian_section(q.guardians).len() == 4 + 33 * q.guardians.len(),
        present_at(q.recovery@, data, 65 + guardian_section(q.guardians).len() as int),
        keys_fit(q.recovered, data, 65 + guardian_section(q.guardians).len() as int + 32),
{
    let h = header_bytes(q.seed, q.authority);
    let t = seq![q.recovery_threshold];
    let gsec = guardian_section(q.guardians);
    let ksec = key_section(q.recovered);
    lemma_key_len(q.seed);
    lemma_key_len(q.authority);
    lemma_key_len(q.recovery);
    lemma_guardians_layout(q.guardians);
    lemma_auto_spec_u32_to_from_le_bytes();
    lemma_present_at_concat(h + t + gsec + q.recovery@, ksec, data, 0);
    lemma_present_at_concat(h + t + gsec, q.recovery@, data, 0);
    lemma_present_at_concat(h + t, gsec, data, 0);
    lemma_present_at_concat(h, t, data, 0);
    lemma_present_at_concat(q.seed@, q.authority@, data, 0);
    assert(data.subrange(64, 65)[0] == data[64]);
}

/// A valid profile is read back from its own serialized form, whatever follows it.
pub proof fn lemma_profile_round_trip(p: ProfileModel, rest: Seq<u8>)
    requires
        p.wf(),
    ensures
        decodes_to(profile_bytes(p) + rest, p),
{
    let b = profile_bytes(p);
    assert((b + rest).subrange(0, b.len() as int) =~= b);
}

impl UserProfile {
    /// The serialized form of the profile.
    pub fn serialize(&self) -> (r: Vec<u8>)
        ensures
            r@ == profile_bytes(self@),
    {
        let mut out: Vec<u8> = Vec::new();
        put_key(&mut out, &self.seed);
        put_key(&mut out, &self.authority);
        out.push(self.recovery_threshold);
        put_u32(&mut out, self.guardians.len() as u32);
        let mut i: usize = 0;
        while i < self.guardians.len()
            invariant
                i <= self.guardians@.len(),
                out@ == header_bytes(self.seed, self.authority) + seq![self.recovery_threshold]
                    + spec_u32_to_le_bytes(self.guardians@.len() as u32) + guardians_bytes(
                    self.guardians@.subrange(0, i as int),
                ),
            decreases self.guardians@.len() - i,
        {
            let g = self.guardians[i];
            put_key(&mut out, &g.pubkey);
            out.push(if g.has_signed {
                1u8
            } else {
                0u8
            });
            assert(self.guardians@.subrange(0, i + 1).drop_last() =~= self.guardians@.subrange(
                0,
                i as int,
            ));
            i = i + 1;
        }
        assert(self.guardians@.subrange(0, self.guardians@.len() as int) =~= self.guardians@);
        put_key(&mut out, &self.recovery);
        put_u32(&mut out, self.recovered.len() as u32);
        let ghost before = out@;
        let mut j: usize = 0;
        while j < self.recovered.len()
            invariant
                j <= self.recovered@.len(),
                out@ == before + keys_bytes(self.recovered@.subrange(0, j as int)),
            decreases self.recovered@.len() - j,
        {
            put_key(&mut out, &self.recovered[j]);
            assert(self.recovered@.subrange(0, j + 1).drop_last() =~= self.recovered@.subrange(
                0,
                j as int,
            ));
            j = j + 1;
        }
        assert(self.recovered@.subrange(0, self.recovered@.len() as int) =~= self.recovered@);
        assert(out@ =~= profile_bytes(self@));
        out
    }

    /// Reads the profile stored at the front of `data`.
    pub fn deserialize(data: &[u8]) -> (r: Option<UserProfile>)
        ensures
            r matches Some(p) ==> decodes_to(data@, p@),
            forall|q: ProfileModel|
                #![trigger decodes_to(data@, q)]
                decodes_to(data@, q) ==> (r matches Some(p) && p@ == q),
    {
        let seed = match get_key(data, 0) {
            Some(k) => k,
            None => {
                assert forall|q: ProfileModel| #[trigger] decodes_to(data@, q) implies false by {
                    lemma_profile_parts(q, data@);
                }
                return None;
            },
        };
        let authority = match get_key(data, 32) {
            Some(k) => k,
            None => {
                assert forall|q: ProfileModel| #[trigger] decodes_to(data@, q) implies false by {
                    lemma_profile_parts(q, data@);
                }
                return None;
            },
        };
        if data.len() < 65 {
            assert forall|q: ProfileModel| #[trigger] decodes_to(data@, q) implies false by {
                lemma_profile_parts(q, data@);
            }
            return None;
        }
        let recovery_threshold = data[64];
        let (guardians, g_end) = match get_guardians(data, 65) {
            Some(x) => x,
            None => {
                assert forall|q: ProfileModel| #[trigger] decodes_to(data@, q) implies false by {
                    lemma_profile_parts(q, data@);
                }
                return None;
            },
        };
        let recovery = match get_key(data, g_end) {
            Some(k) => k,
            None => {
                assert forall|q: ProfileModel| #[trigger] decodes_to(data@, q) implies false by {
                    lemma_profile_parts(q, data@);
                }
                return None;
            },
        };
        let (recovered, end) = match get_keys(data, g_end + 32) {
            Some(x) => x,
            None => {
                assert forall|q: ProfileModel| #[trigger] decodes_to(data@, q) implies false by {
                    lemma_profile_parts(q, data@);
                }
                return None;
            },
        };
        let p = UserProfile { seed, authority, recovery_threshold, guardians, recovery, recovered };
        proof {
            lemma_key_len(seed);
            lemma_key_len(authority);
            lemma_key_len(recovery);
            lemma_present_at_join(seed@, authority@, data@, 0);
            assert(data@.subrange(64, 65) =~= seq![recovery_threshold]);
            lemma_present_at_join(header_bytes(seed, authority), seq![recovery_threshold], data@, 0);
            let h = header_bytes(seed, authority) + seq![recovery_threshold];
            lemma_present_at_join(h, guardian_section(guardians@), data@, 0);
            let h2 = h + guardian_section(guardians@);
            lemma_present_at_join(h2, recovery@, data@, 0);
            lemma_present_at_join(h2 + recovery@, key_section(recovered@), data@, 0);
            assert(decodes_to(data@, p@));
            assert forall|q: ProfileModel| #[trigger] decodes_to(data@, q) implies p@ == q by {
                lemma_profile_parts(q, data@);
                lemma_key_eq(q.seed, seed);
                lemma_key_eq(q.authority, authority);
                lemma_guardians_layout(q.guardians);
                lemma_guardians_layout(guardians@);
                lemma_key_eq(q.recovery, recovery);
            }
        }
        Some(p)
    }
}

} // verus!

verus! {

/// The serialized length of a profile depends on its two counts alone.
pub proof fn lemma_profile_len(p: ProfileModel)
    ensures
        profile_bytes(p).len() == 105 + 33 * p.guardians.len() + 32 * p.recovered.len(),
{
    lemma_key_len(p.seed);
    lemma_key_len(p.authority);
    lemma_key_len(p.recovery);
    lemma_guardians_layout(p.guardians);
    lemma_keys_layout(p.recovered);
    lemma_auto_spec_u32_to_from_le_bytes();
    assert(guardian_section(p.guardians).len() == 4 + 33 * p.guardians.len());
    assert(key_section(p.recovered).len() == 4 + 32 * p.recovered.len());
    assert(header_bytes(p.seed, p.authority).len() == 64);
}

} // verus!

verus! {

/// Bytes that hold a valid profile hold exactly one.
pub proof fn lemma_decodes_to_unique(data: Seq<u8>, a: ProfileModel, b: ProfileModel)
    requires
        decodes_to(data, a),
        decodes_to(data, b),
    ensures
        a == b,
{
    lemma_profile_parts(a, data);
    lemma_profile_parts(b, data);
    lemma_key_eq(a.seed, b.seed);
    lemma_key_eq(a.authority, b.authority);
    lemma_count_at(
        spec_u32_to_le_bytes(a.guardians.len() as u32),
        guardians_bytes(a.guardians),
        a.guardians.len(),
        data,
        65,
    );
    lemma_count_at(
        spec_u32_to_le_bytes(b.guardians.len() as u32),
        guardians_bytes(b.guardians),
        b.guardians.len(),
        data,
        65,
    );
    assert forall|i: int| 0 <= i < a.guardians.len() implies a.guardians[i] == b.guardians[i] by {
        lemma_guardian_at(a.guardians, data, 65, i);
        lemma_guardian_at(b.guardians, data, 65, i);
        lemma_key_eq(a.guardians[i].pubkey, b.guardians[i].pubkey);
    }
    assert(a.guardians =~= b.guardians);
    lemma_key_eq(a.recovery, b.recovery);
    let pos = 65 + guardian_section(a.guardians).len() as int + 32;
    lemma_count_at(
        spec_u32_to_le_bytes(a.recovered.len() as u32),
        keys_bytes(a.recovered),
        a.recovered.len(),
        data,
        pos,
    );
    lemma_count_at(
        spec_u32_to_le_bytes(b.recovered.len() as u32),
        keys_bytes(b.recovered),
        b.recovered.len(),
        data,
        pos,
    );
    assert forall|i: int| 0 <= i < a.recovered.len() implies a.recovered[i] == b.recovered[i] by {
        lemma_key_at(a.recovered, data, pos, i);
        lemma_key_at(b.recovered, data, pos, i);
        lemma_key_eq(a.recovered[i], b.recovered[i]);
    }
    assert(a.recovered =~= b.recovered);
}

} // verus!
