//! Byte buffers in network order and the byte order used for canonical sorting.
use vstd::prelude::*;
use vstd::relations::sorted_by;
use vstd::relations::total_ordering;

verus! {

/// The two octets of `x`, most significant first.
pub open spec fn be16(x: u16) -> Seq<u8> {
    seq![(x / 256) as u8, (x % 256) as u8]
}

/// The four octets of `x`, most significant first.
pub open spec fn be32(x: u32) -> Seq<u8> {
    seq![
        (x / 16777216) as u8,
        (x / 65536 % 256) as u8,
        (x / 256 % 256) as u8,
        (x % 256) as u8,
    ]
}

/// The four octets of the two's complement form of `x`, most significant first.
pub open spec fn be_i32(x: i32) -> Seq<u8> {
    be32(
        if x < 0 {
            (x + 4294967296) as u32
        } else {
            x as u32
        },
    )
}

/// The octet `b` with an ASCII capital letter made small.
pub open spec fn lower_octet(b: u8) -> u8 {
    if 65 <= b <= 90 {
        (b + 32) as u8
    } else {
        b
    }
}

/// `s` with every ASCII capital letter made small.
pub open spec fn lower_octets(s: Seq<u8>) -> Seq<u8> {
    s.map_values(|b: u8| lower_octet(b))
}

/// Makes an ASCII capital letter small and keeps every other octet.
pub fn to_lower(b: u8) -> (r: u8)
    ensures
        r == lower_octet(b),
{
    if 65 <= b && b <= 90 {
        b + 32
    } else {
        b
    }
}

/// Appends `data` to `out`.
pub fn append(out: &mut Vec<u8>, data: &[u8])
    ensures
        final(out)@ == old(out)@ + data@,
{
    out.extend_from_slice(data);
    assert(out@ =~= old(out)@ + data@);
}

/// Appends the two octets of `x` to `out`.
pub fn push_be16(out: &mut Vec<u8>, x: u16)
    ensures
        final(out)@ == old(out)@ + be16(x),
{
    out.push((x / 256) as u8);
    out.push((x % 256) as u8);
    assert(out@ =~= old(out)@ + be16(x));
}

/// Appends the four octets of `x` to `out`.
pub fn push_be32(out: &mut Vec<u8>, x: u32)
    ensures
        final(out)@ == old(out)@ + be32(x),
{
    out.push((x / 16777216) as u8);
    out.push((x / 65536 % 256) as u8);
    out.push((x / 256 % 256) as u8);
    out.push((x % 256) as u8);
    assert(out@ =~= old(out)@ + be32(x));
}

/// Appends the four octets of the two's complement form of `x` to `out`.
pub fn push_be_i32(out: &mut Vec<u8>, x: i32)
    ensures
        final(out)@ == old(out)@ + be_i32(x),
{
    let u: u32 = if x < 0 {
        (x as i64 + 4294967296i64) as u32
    } else {
        x as u32
    };
    push_be32(out, u);
}

/// `a` comes before `b`, or equals it, in the order that compares octet by octet and puts a
/// proper prefix first.
pub open spec fn octets_le(a: Seq<u8>, b: Seq<u8>) -> bool
    decreases a.len(),
{
    if a.len() == 0 {
        true
    } else if b.len() == 0 {
        false
    } else if a[0] == b[0] {
        octets_le(a.drop_first(), b.drop_first())
    } else {
        a[0] < b[0]
    }
}

pub proof fn lemma_octets_le_reflexive(a: Seq<u8>)
    ensures
        octets_le(a, a),
    decreases a.len(),
{
    if a.len() > 0 {
        lemma_octets_le_reflexive(a.drop_first());
    }
}

pub proof fn lemma_octets_le_antisymmetric(a: Seq<u8>, b: Seq<u8>)
    requires
        octets_le(a, b),
        octets_le(b, a),
    ensures
        a == b,
    decreases a.len(),
{
    if a.len() > 0 && b.len() > 0 {
        lemma_octets_le_antisymmetric(a.drop_first(), b.drop_first());
        assert(a =~= seq![a[0]] + a.drop_first());
        assert(b =~= seq![b[0]] + b.drop_first());
    } else {
        assert(a =~= b);
    }
}

pub proof fn lemma_octets_le_transitive(a: Seq<u8>, b: Seq<u8>, c: Seq<u8>)
    requires
        octets_le(a, b),
        octets_le(b, c),
    ensures
        octets_le(a, c),
    decreases a.len(),
{
    if a.len() > 0 && b.len() > 0 && c.len() > 0 && a[0] == b[0] && b[0] == c[0] {
        lemma_octets_le_transitive(a.drop_first(), b.drop_first(), c.drop_first());
    }
}

pub proof fn lemma_octets_le_total(a: Seq<u8>, b: Seq<u8>)
    ensures
        octets_le(a, b) || octets_le(b, a),
    decreases a.len(),
{
    if a.len() > 0 && b.len() > 0 && a[0] == b[0] {
        lemma_octets_le_total(a.drop_first(), b.drop_first());
    }
}

/// Compares two octet strings in the octet order.
pub fn octets_before(a: &[u8], b: &[u8]) -> (r: bool)
    ensures
        r == octets_le(a@, b@),
{
    let mut i: usize = 0;
    assert(a@.skip(0) =~= a@);
    assert(b@.skip(0) =~= b@);
    while i < a.len() && i < b.len() && a[i] == b[i]
        invariant
            i <= a@.len(),
            i <= b@.len(),
            octets_le(a@, b@) == octets_le(a@.skip(i as int), b@.skip(i as int)),
        decreases a.len() - i,
    {
        assert(a@.skip(i as int).drop_first() =~= a@.skip(i + 1));
        assert(b@.skip(i as int).drop_first() =~= b@.skip(i + 1));
        i += 1;
    }
    if i == a.len() {
        true
    } else if i == b.len() {
        false
    } else {
        a[i] < b[i]
    }
}

/// What each of the octet strings in `v` holds.
pub open spec fn contents(v: Seq<Vec<u8>>) -> Seq<Seq<u8>> {
    v.map_values(|o: Vec<u8>| o@)
}

/// The octet strings of `s` one after the other.
pub open spec fn concat(s: Seq<Seq<u8>>) -> Seq<u8>
    decreases s.len(),
{
    if s.len() == 0 {
        seq![]
    } else {
        concat(s.drop_last()) + s.last()
    }
}

/// What octet strings with their keys hold: the key first.
pub open spec fn keyed(v: Seq<(Vec<u8>, Vec<u8>)>) -> Seq<(Seq<u8>, Seq<u8>)> {
    v.map_values(|p: (Vec<u8>, Vec<u8>)| (p.0@, p.1@))
}

/// `a` comes before `b`, or equals it: by the key, and with the same key by the rest.
pub open spec fn keyed_le(a: (Seq<u8>, Seq<u8>), b: (Seq<u8>, Seq<u8>)) -> bool {
    if a.0 == b.0 {
        octets_le(a.1, b.1)
    } else {
        octets_le(a.0, b.0)
    }
}

/// The order by key as a relation value.
pub open spec fn keyed_order() -> spec_fn((Seq<u8>, Seq<u8>), (Seq<u8>, Seq<u8>)) -> bool {
    |a: (Seq<u8>, Seq<u8>), b: (Seq<u8>, Seq<u8>)| keyed_le(a, b)
}

proof fn lemma_keyed_le_transitive(
    a: (Seq<u8>, Seq<u8>),
    b: (Seq<u8>, Seq<u8>),
    c: (Seq<u8>, Seq<u8>),
)
    requires
        keyed_le(a, b),
        keyed_le(b, c),
    ensures
        keyed_le(a, c),
{
    if a.0 == b.0 && b.0 == c.0 {
        lemma_octets_le_transitive(a.1, b.1, c.1);
    } else if a.0 != b.0 && b.0 != c.0 {
        lemma_octets_le_transitive(a.0, b.0, c.0);
        if a.0 == c.0 {
            lemma_octets_le_antisymmetric(a.0, b.0);
        }
    }
}

proof fn lemma_keyed_le_total(a: (Seq<u8>, Seq<u8>), b: (Seq<u8>, Seq<u8>))
    ensures
        keyed_le(a, b) || keyed_le(b, a),
{
    lemma_octets_le_total(a.0, b.0);
    lemma_octets_le_total(a.1, b.1);
}

/// The order by key is a total order.
pub proof fn lemma_keyed_order_total()
    ensures
        total_ordering(keyed_order()),
{
    let r = keyed_order();
    assert forall|x: (Seq<u8>, Seq<u8>)| #[trigger] r(x, x) by {
        lemma_octets_le_reflexive(x.1);
    }
    assert forall|x: (Seq<u8>, Seq<u8>), y: (Seq<u8>, Seq<u8>)| #[trigger]
        r(x, y) && #[trigger] r(y, x) implies x == y by {
        if x.0 == y.0 {
            lemma_octets_le_antisymmetric(x.1, y.1);
        } else {
            lemma_octets_le_antisymmetric(x.0, y.0);
        }
    }
    assert forall|x: (Seq<u8>, Seq<u8>), y: (Seq<u8>, Seq<u8>), z: (Seq<u8>, Seq<u8>)| #[trigger]
        r(x, y) && #[trigger] r(y, z) implies r(x, z) by {
        lemma_keyed_le_transitive(x, y, z);
    }
    assert forall|x: (Seq<u8>, Seq<u8>), y: (Seq<u8>, Seq<u8>)| #[trigger] r(x, y) || #[trigger] r(
        y,
        x,
    ) by {
        lemma_keyed_le_total(x, y);
    }
}

fn keyed_before(a: &(Vec<u8>, Vec<u8>), b: &(Vec<u8>, Vec<u8>)) -> (r: bool)
    ensures
        r == keyed_le((a.0@, a.1@), (b.0@, b.1@)),
{
    let forth: bool = octets_before(a.0.as_slice(), b.0.as_slice());
    let back: bool = octets_before(b.0.as_slice(), a.0.as_slice());
    proof {
        if forth && back {
            lemma_octets_le_antisymmetric(a.0@, b.0@);
        }
        if a.0@ == b.0@ {
            lemma_octets_le_reflexive(a.0@);
        }
    }
    if forth && back {
        octets_before(a.1.as_slice(), b.1.as_slice())
    } else {
        forth
    }
}

/// Sorts octet strings by their keys, and those with the same key by themselves.
pub fn sort_keyed(items: Vec<(Vec<u8>, Vec<u8>)>) -> (r: Vec<(Vec<u8>, Vec<u8>)>)
    ensures
        keyed(r@) == keyed(items@).sort_by(keyed_order()),
{
    let mut items = items;
    let ghost all = keyed(items@);
    let ghost none = Seq::<(Seq<u8>, Seq<u8>)>::empty();
    let mut sorted: Vec<(Vec<u8>, Vec<u8>)> = Vec::new();
    assert(keyed(sorted@) =~= none);
    proof {
        all.to_multiset_ensures();
        none.to_multiset_ensures();
        assert(keyed(items@).to_multiset().add(keyed(sorted@).to_multiset())
            =~= all.to_multiset());
    }
    while items.len() > 0
        invariant
            sorted_by(keyed(sorted@), keyed_order()),
            keyed(items@).to_multiset().add(keyed(sorted@).to_multiset()) == all.to_multiset(),
        decreases items@.len(),
    {
        let ghost full = keyed(items@);
        let item = items.pop().unwrap();
        let ghost it = (item.0@, item.1@);
        let ghost rest = keyed(items@);
        assert(full =~= rest.push(it));
        let ghost before = keyed(sorted@);
        let mut at: usize = 0;
        while at < sorted.len() && keyed_before(&sorted[at], &item)
            invariant
                at <= sorted@.len(),
                before == keyed(sorted@),
                it == (item.0@, item.1@),
                forall|k: int| 0 <= k < at ==> keyed_le(#[trigger] before[k], it),
            decreases sorted.len() - at,
        {
            assert(before[at as int] == (sorted@[at as int].0@, sorted@[at as int].1@));
            at += 1;
        }
        proof {
            assert forall|k: int| at <= k < before.len() implies keyed_le(
                it,
                #[trigger] before[k],
            ) by {
                assert(before[at as int] == (sorted@[at as int].0@, sorted@[at as int].1@));
                lemma_keyed_le_total(it, before[at as int]);
                if k > at {
                    assert(keyed_order()(before[at as int], before[k]));
                    lemma_keyed_le_transitive(it, before[at as int], before[k]);
                }
            }
        }
        sorted.insert(at, item);
        proof {
            let after = keyed(sorted@);
            assert(after =~= before.insert(at as int, it));
            vstd::seq_lib::to_multiset_insert(before, at as int, it);
            rest.to_multiset_ensures();
            assert(rest.push(it).to_multiset() == rest.to_multiset().insert(it));
            assert(rest.to_multiset().insert(it).add(before.to_multiset())
                =~= rest.to_multiset().add(before.to_multiset().insert(it)));
        }
    }
    proof {
        assert(keyed(items@) =~= none);
        none.to_multiset_ensures();
        assert(keyed(sorted@).to_multiset() =~= all.to_multiset());
        lemma_keyed_order_total();
        all.lemma_sort_by_ensures(keyed_order());
        vstd::seq_lib::lemma_sorted_unique(
            keyed(sorted@),
            all.sort_by(keyed_order()),
            keyed_order(),
        );
    }
    sorted
}

} // verus!
