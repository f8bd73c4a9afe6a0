use vstd::prelude::*;

use bytes::Bytes;

use crate::packet::{
    bytes_from_vec, bytes_into_vec, bytes_len, bytes_slice, bytes_view, FragmentData,
    FRAGMENT_SIZE,
};
use crate::wrapping_id::MessageId;

verus! {

/// Number of chunks of size `f` needed to hold `l` bytes: `ceil(l / f)`.
pub open spec fn num_chunks(l: int, f: int) -> int {
    (l + f - 1) / f
}

/// The `i`-th chunk of `payload` cut into pieces of size `f` (the last one may be shorter).
pub open spec fn chunk(payload: Seq<u8>, f: int, i: int) -> Seq<u8> {
    let end = if (i + 1) * f < payload.len() { (i + 1) * f } else { payload.len() as int };
    payload.subrange(i * f, end)
}

/// The fragments that split `payload` into chunks of size `f` under one message id.
pub open spec fn fragment_spec(frag: FragmentData, id: MessageId, payload: Seq<u8>, f: int, i: int) -> bool {
    &&& frag.message_id == id
    &&& frag.fragment_id as int == i
    &&& frag.num_fragments as int == num_chunks(payload.len() as int, f)
    &&& bytes_view(frag.bytes) == chunk(payload, f, i)
}

/// Slot table of a reassembly: slot `k` holds the bytes of the first fragment with
/// `fragment_id == k` that belongs to message `id` with `n` fragments; other fragments are ignored.
pub open spec fn fill_slots(frs: Seq<FragmentData>, id: MessageId, n: int) -> Seq<Option<Seq<u8>>>
    decreases frs.len(),
{
    if frs.len() == 0 {
        Seq::new(n as nat, |k: int| None)
    } else {
        let s = fill_slots(frs.drop_last(), id, n);
        let f = frs.last();
        if f.message_id == id && f.num_fragments as int == n && (f.fragment_id as int) < n
            && s[f.fragment_id as int] is None {
            s.update(f.fragment_id as int, Some(bytes_view(f.bytes)))
        } else {
            s
        }
    }
}

/// Concatenation of the filled slots, in slot order.
pub open spec fn join_slots(s: Seq<Option<Seq<u8>>>) -> Seq<u8>
    decreases s.len(),
{
    if s.len() == 0 {
        Seq::empty()
    } else {
        join_slots(s.drop_last()) + s.last().unwrap()
    }
}

pub open spec fn all_filled(s: Seq<Option<Seq<u8>>>) -> bool {
    forall|k: int| 0 <= k < s.len() ==> (#[trigger] s[k]) is Some
}

/// What reassembling a group of fragments gives: the group is led by its first
/// fragment (id and count); it completes once every slot is filled.
pub open spec fn reassemble_spec(frs: Seq<FragmentData>) -> Option<Seq<u8>> {
    if frs.len() == 0 || frs[0].num_fragments == 0 {
        None
    } else {
        let s = fill_slots(frs, frs[0].message_id, frs[0].num_fragments as int);
        if all_filled(s) {
            Some(join_slots(s))
        } else {
            None
        }
    }
}

/// Splits oversized payloads into fragments.
#[derive(Clone, Copy, Debug)]
pub struct FragmentSender {
    pub fragment_size: usize,
}

impl FragmentSender {
    pub fn new() -> (r: FragmentSender)
        ensures
            r.fragment_size == FRAGMENT_SIZE,
    {
        FragmentSender { fragment_size: FRAGMENT_SIZE }
    }

    /// A sender that cuts payloads into chunks of `fragment_size` bytes.
    pub fn with_fragment_size(fragment_size: usize) -> (r: FragmentSender)
        requires
            fragment_size > 0,
        ensures
            r.fragment_size == fragment_size,
    {
        FragmentSender { fragment_size }
    }

    /// Splits `fragment_bytes` into consecutive chunks of `fragment_size` bytes, the
    /// last one possibly shorter, each tagged with its index and the chunk count.
    pub fn build_fragments(&self, fragment_message_id: MessageId, fragment_bytes: Bytes) -> (r: Vec<FragmentData>)
        requires
            self.fragment_size > 0,
            bytes_view(fragment_bytes).len() >= self.fragment_size,
            num_chunks(bytes_view(fragment_bytes).len() as int, self.fragment_size as int) <= 255,
        ensures
            r@.len() == num_chunks(bytes_view(fragment_bytes).len() as int, self.fragment_size as int),
            forall|i: int| 0 <= i < r@.len() ==> fragment_spec(#[trigger] r@[i], fragment_message_id,
                bytes_view(fragment_bytes), self.fragment_size as int, i),
    {
        let f = self.fragment_size;
        let len = bytes_len(&fragment_bytes);
        let ghost n = num_chunks(len as int, f as int);
        proof {
            lemma_num_chunks_bounds(len as int, f as int);
        }
        proof {
            lemma_num_chunks_exact(len as int, f as int);
        }
        let num_fragments: u8 = if len % f == 0 { (len / f) as u8 } else { (len / f + 1) as u8 };
        let mut r: Vec<FragmentData> = Vec::new();
        let mut start: usize = 0;
        let mut i: u8 = 0;
        while start < len
            invariant
                f == self.fragment_size,
                f > 0,
                len == bytes_view(fragment_bytes).len(),
                num_fragments as int == n,
                n == num_chunks(len as int, f as int),
                start < len ==> start as int == i as int * f as int,
                start == len ==> i as int == n,
                start <= len,
                i as int <= n,
                start < len ==> (i as int) < n,
                r@.len() == i as int,
                forall|k: int| 0 <= k < r@.len() ==> fragment_spec(#[trigger] r@[k], fragment_message_id,
                    bytes_view(fragment_bytes), f as int, k),
            decreases len - start,
        {
            let end: usize = if len - start > f { start + f } else { len };
            let bytes = bytes_slice(&fragment_bytes, start, end);
            let frag = FragmentData {
                message_id: fragment_message_id,
                fragment_id: i,
                num_fragments,
                bytes,
            };
            assert((i as int + 1) * f as int == start as int + f as int) by (nonlinear_arith)
                requires start as int == i as int * f as int;
            assert(fragment_spec(frag, fragment_message_id, bytes_view(fragment_bytes), f as int, i as int));
            r.push(frag);
            proof {
                if end < len {
                    lemma_chunk_index_bound(len as int, f as int, i as int + 1);
                } else {
                    lemma_chunk_count_reached(len as int, f as int, i as int + 1);
                }
            }
            start = end;
            i = i + 1;
        }
        r
    }
}

pub(crate) proof fn lemma_num_chunks_bounds(l: int, f: int)
    requires
        l >= 0,
        f > 0,
    ensures
        num_chunks(l, f) >= 0,
        num_chunks(l, f) * f >= l,
        (num_chunks(l, f) - 1) * f < l || l == 0,
{
    let n = num_chunks(l, f);
    vstd::arithmetic::div_mod::lemma_fundamental_div_mod(l + f - 1, f);
    assert(n * f >= l) by (nonlinear_arith)
        requires
            n == (l + f - 1) / f,
            l + f - 1 == f * ((l + f - 1) / f) + (l + f - 1) % f,
            0 <= (l + f - 1) % f < f,
    ;
    assert((n - 1) * f < l || l == 0) by (nonlinear_arith)
        requires
            n == (l + f - 1) / f,
            l + f - 1 == f * ((l + f - 1) / f) + (l + f - 1) % f,
            0 <= (l + f - 1) % f < f,
            l >= 0,
    ;
}

pub(crate) proof fn lemma_num_chunks_exact(l: int, f: int)
    requires
        l >= 0,
        f > 0,
    ensures
        l % f == 0 ==> num_chunks(l, f) == l / f,
        l % f != 0 ==> num_chunks(l, f) == l / f + 1,
{
    vstd::arithmetic::div_mod::lemma_fundamental_div_mod(l, f);
    vstd::arithmetic::div_mod::lemma_fundamental_div_mod(l + f - 1, f);
    let q = l / f;
    let m = l % f;
    if m == 0 {
        assert(l + f - 1 == q * f + (f - 1)) by (nonlinear_arith) requires l == f * q + m, m == 0;
        vstd::arithmetic::div_mod::lemma_div_multiples_vanish_fancy(q, f - 1, f);
    } else {
        assert(l + f - 1 == (q + 1) * f + (m - 1)) by (nonlinear_arith) requires l == f * q + m;
        vstd::arithmetic::div_mod::lemma_div_multiples_vanish_fancy(q + 1, m - 1, f);
    }
}

proof fn lemma_chunk_index_bound(l: int, f: int, i: int)
    requires
        l >= 0,
        f > 0,
        i >= 0,
        i * f < l,
    ensures
        i < num_chunks(l, f),
{
    lemma_num_chunks_bounds(l, f);
    let n = num_chunks(l, f);
    if i >= n {
        assert(i * f >= n * f) by (nonlinear_arith) requires i >= n, f > 0;
    }
}

proof fn lemma_chunk_count_reached(l: int, f: int, i: int)
    requires
        l >= 0,
        f > 0,
        0 <= i <= num_chunks(l, f),
        i * f >= l,
    ensures
        i == num_chunks(l, f),
{
    lemma_num_chunks_bounds(l, f);
    let n = num_chunks(l, f);
    if i < n && l > 0 {
        assert(i * f <= (n - 1) * f) by (nonlinear_arith) requires i <= n - 1, f > 0;
    }
    if l == 0 {
        assert(n == 0) by (nonlinear_arith) requires n == (f - 1) / f, f > 0;
    }
}


/// The slot table of `v` seen as byte sequences.
pub open spec fn slots_view(v: Seq<Option<Bytes>>) -> Seq<Option<Seq<u8>>> {
    Seq::new(v.len(), |k: int| match v[k] {
        Some(b) => Some(bytes_view(b)),
        None => None,
    })
}

/// Reassembles a group of fragments into the payload they were cut from: the first fragment fixes
/// the message id and the fragment count; each slot takes the first matching fragment;
/// once every slot is filled the slots are concatenated in `fragment_id` order.
/// Malformed or foreign fragments are ignored, so such a group never completes.
pub fn reassemble(fragments: &Vec<FragmentData>) -> (r: Option<Bytes>)
    ensures
        match r {
            Some(v) => reassemble_spec(fragments@) == Some(bytes_view(v)),
            None => reassemble_spec(fragments@) is None,
        },
{
    if fragments.len() == 0 || fragments[0].num_fragments == 0 {
        return None;
    }
    let id = fragments[0].message_id;
    let n = fragments[0].num_fragments;
    let mut slots: Vec<Option<Bytes>> = Vec::new();
    let mut k: u8 = 0;
    while k < n
        invariant
            k <= n,
            slots@.len() == k as int,
            forall|j: int| 0 <= j < k ==> (#[trigger] slots@[j]) is None,
        decreases n - k,
    {
        slots.push(None);
        k = k + 1;
    }
    assert(slots_view(slots@) =~= fill_slots(fragments@.subrange(0, 0), id, n as int));
    let mut i: usize = 0;
    while i < fragments.len()
        invariant
            i <= fragments@.len(),
            slots@.len() == n as int,
            slots_view(slots@) == fill_slots(fragments@.subrange(0, i as int), id, n as int),
        decreases fragments@.len() - i,
    {
        let frag = &fragments[i];
        let ghost prev = fill_slots(fragments@.subrange(0, i as int), id, n as int);
        assert(fragments@.subrange(0, i as int + 1).drop_last() =~= fragments@.subrange(0, i as int));
        if frag.message_id == id && frag.num_fragments == n && frag.fragment_id < n {
            let fid = frag.fragment_id as usize;
            if slots[fid].is_none() {
                slots[fid] = Some(frag.bytes.clone());
                assert(slots_view(slots@) =~= prev.update(fid as int, Some(bytes_view(frag.bytes))));
            }
        }
        i = i + 1;
    }
    assert(fragments@.subrange(0, fragments@.len() as int) =~= fragments@);
    let ghost sv = slots_view(slots@);
    let mut out: Vec<u8> = Vec::new();
    let mut k: usize = 0;
    while k < slots.len()
        invariant
            k <= slots@.len(),
            sv == slots_view(slots@),
            sv == fill_slots(fragments@, id, n as int),
            fragments@.len() > 0,
            id == fragments@[0].message_id,
            n == fragments@[0].num_fragments,
            forall|j: int| 0 <= j < k ==> (#[trigger] sv[j]) is Some,
            out@ == join_slots(sv.subrange(0, k as int)),
        decreases slots@.len() - k,
    {
        match &slots[k] {
            Some(b) => {
                let mut piece = bytes_into_vec(b.clone());
                out.append(&mut piece);
                assert(sv.subrange(0, k as int + 1).drop_last() =~= sv.subrange(0, k as int));
            },
            None => {
                assert(sv[k as int] is None);
                assert(!all_filled(sv));
                return None;
            },
        }
        k = k + 1;
    }
    assert(sv.subrange(0, sv.len() as int) =~= sv);
    Some(bytes_from_vec(out))
}

/// Collects fragments as they arrive and hands back each payload once all of its
/// fragments are in.
pub struct FragmentReceiver {
    pub pending: Vec<FragmentData>,
}

pub open spec fn has_id(id: MessageId) -> spec_fn(FragmentData) -> bool {
    |f: FragmentData| f.message_id == id
}

pub open spec fn other_id(id: MessageId) -> spec_fn(FragmentData) -> bool {
    |f: FragmentData| f.message_id != id
}

/// Splits `v` into the fragments with message id `id` and the others, each in order.
fn partition(v: Vec<FragmentData>, id: MessageId) -> (r: (Vec<FragmentData>, Vec<FragmentData>))
    ensures
        r.0@ == v@.filter(has_id(id)),
        r.1@ == v@.filter(other_id(id)),
{
    let ghost orig = v@;
    let mut v = v;
    let mut with: Vec<FragmentData> = Vec::new();
    let mut without: Vec<FragmentData> = Vec::new();
    while v.len() > 0
        invariant
            orig.len() >= v@.len(),
            v@ == orig.subrange(orig.len() - v@.len(), orig.len() as int),
            with@ == orig.subrange(0, orig.len() - v@.len()).filter(has_id(id)),
            without@ == orig.subrange(0, orig.len() - v@.len()).filter(other_id(id)),
        decreases v@.len(),
    {
        let ghost done = orig.len() - v@.len();
        let x = v.remove(0);
        reveal(Seq::filter);
        assert(orig.subrange(0, done + 1).drop_last() =~= orig.subrange(0, done));
        assert(v@ =~= orig.subrange(orig.len() - v@.len(), orig.len() as int));
        if x.message_id == id {
            with.push(x);
        } else {
            without.push(x);
        }
    }
    assert(orig.subrange(0, orig.len() as int) =~= orig);
    (with, without)
}

impl FragmentReceiver {
    pub fn new() -> (r: FragmentReceiver)
        ensures
            r.pending@.len() == 0,
    {
        FragmentReceiver { pending: Vec::new() }
    }

    /// Takes in one fragment; returns the reassembled payload when this fragment completes
    /// its message, whose fragments are then dropped from the buffer.
    pub fn receive_fragment(&mut self, fragment: FragmentData) -> (r: Option<Bytes>)
        ensures
            ({
                let all = old(self).pending@.push(fragment);
                let group = all.filter(has_id(fragment.message_id));
                &&& match r {
                    Some(v) => reassemble_spec(group) == Some(bytes_view(v)),
                    None => reassemble_spec(group) is None,
                }
                &&& r is Some ==> final(self).pending@ == all.filter(other_id(fragment.message_id))
                &&& r is None ==> final(self).pending@ == all.filter(other_id(fragment.message_id))
                    + group
            }),
{
    let id = fragment.message_id;
    let mut all: Vec<FragmentData> = Vec::new();
    core::mem::swap(&mut all, &mut self.pending);
    all.push(fragment);
    let (mut group, mut rest) = partition(all, id);
    let r = reassemble(&group);
    if r.is_none() {
        rest.append(&mut group);
    }
    self.pending = rest;
    r
}
}

/// The fragments of a payload cut into chunks of size `f`, as `build_fragments` gives them.
pub open spec fn is_fragmentation(frs: Seq<FragmentData>, id: MessageId, payload: Seq<u8>, f: int) -> bool {
    &&& frs.len() == num_chunks(payload.len() as int, f)
    &&& forall|i: int| 0 <= i < frs.len() ==> fragment_spec(#[trigger] frs[i], id, payload, f, i)
}

proof fn lemma_fill_prefix(frs: Seq<FragmentData>, id: MessageId, payload: Seq<u8>, f: int, i: int)
    requires
        f > 0,
        is_fragmentation(frs, id, payload, f),
        0 <= i <= frs.len(),
    ensures
        fill_slots(frs.subrange(0, i), id, frs.len() as int) =~= Seq::new(
            frs.len(),
            |k: int| if k < i { Some(chunk(payload, f, k)) } else { None },
        ),
    decreases i,
{
    let n = frs.len() as int;
    if i > 0 {
        lemma_fill_prefix(frs, id, payload, f, i - 1);
        assert(frs.subrange(0, i).drop_last() =~= frs.subrange(0, i - 1));
        assert(fragment_spec(frs[i - 1], id, payload, f, i - 1));
    }
}

proof fn lemma_join_prefix(s: Seq<Option<Seq<u8>>>, payload: Seq<u8>, f: int, k: int)
    requires
        f > 0,
        payload.len() > 0,
        s.len() == num_chunks(payload.len() as int, f),
        forall|j: int| 0 <= j < s.len() ==> #[trigger] s[j] == Some(chunk(payload, f, j)),
        0 <= k <= s.len(),
    ensures
        join_slots(s.subrange(0, k)) =~= payload.subrange(
            0,
            if k * f < payload.len() { k * f } else { payload.len() as int },
        ),
    decreases k,
{
    let l = payload.len() as int;
    lemma_num_chunks_bounds(l, f);
    if k > 0 {
        lemma_join_prefix(s, payload, f, k - 1);
        assert(s.subrange(0, k).drop_last() =~= s.subrange(0, k - 1));
        let m = s.len() as int;
        assert((k - 1) * f <= (m - 1) * f) by (nonlinear_arith)
            requires k - 1 <= m - 1, f > 0;
        assert(k * f == (k - 1) * f + f) by (nonlinear_arith);
        let end = if k * f < l { k * f } else { l };
        assert(s[k - 1] == Some(chunk(payload, f, k - 1)));
        assert((k - 1) * f < l);
        assert(join_slots(s.subrange(0, k - 1)) == payload.subrange(0, (k - 1) * f));
        assert(chunk(payload, f, k - 1) == payload.subrange((k - 1) * f, end));
        assert(join_slots(s.subrange(0, k)) == join_slots(s.subrange(0, k - 1)) + chunk(payload, f, k - 1));
        assert(payload.subrange(0, (k - 1) * f) + payload.subrange((k - 1) * f, end)
            =~= payload.subrange(0, end));
        assert(join_slots(s.subrange(0, k)) == payload.subrange(0, end));
    } else {
        assert(join_slots(s.subrange(0, 0)) =~= payload.subrange(0, 0));
    }
}

/// Fragmentation round trip: for a payload of `L >= f` bytes, the fragments that
/// `build_fragments` produces reassemble into exactly that payload; there are
/// `ceil(L / f)` of them and the last holds `L mod f` bytes, or `f` when `f` divides `L`.
pub proof fn lemma_fragment_round_trip(frs: Seq<FragmentData>, id: MessageId, payload: Seq<u8>, f: int)
    requires
        f > 0,
        payload.len() >= f,
        is_fragmentation(frs, id, payload, f),
    ensures
        reassemble_spec(frs) == Some(payload),
        frs.len() == num_chunks(payload.len() as int, f),
        bytes_view(frs.last().bytes).len() == (if payload.len() as int % f == 0 { f } else { payload.len() as int % f }),
{
    let l = payload.len() as int;
    let n = frs.len() as int;
    lemma_num_chunks_bounds(l, f);
    lemma_num_chunks_exact(l, f);
    vstd::arithmetic::div_mod::lemma_fundamental_div_mod(l, f);
    assert(n >= 1) by (nonlinear_arith)
        requires n * f >= l, l >= f, f > 0;
    assert(fragment_spec(frs[0], id, payload, f, 0));
    assert(fragment_spec(frs[n - 1], id, payload, f, n - 1));
    lemma_fill_prefix(frs, id, payload, f, n);
    assert(frs.subrange(0, n) =~= frs);
    let s = fill_slots(frs, id, n);
    assert(all_filled(s));
    lemma_join_prefix(s, payload, f, n);
    assert(s.subrange(0, n) =~= s);
    assert(payload.subrange(0, l) =~= payload);
    if l % f == 0 {
        assert((n - 1) * f == l - f) by (nonlinear_arith)
            requires n == l / f, l == f * (l / f);
    } else {
        assert((n - 1) * f == l - l % f) by (nonlinear_arith)
            requires n == l / f + 1, l == f * (l / f) + l % f;
    }
}

} // verus!
