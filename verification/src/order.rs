//! The order in which names are listed: zones, services and interfaces are
//! shown sorted as `String`'s `Ord` sorts them (by code point, which is the
//! order of their UTF-8 bytes).
use vstd::prelude::*;
use vstd::relations::{sorted_by, total_ordering};
use crate::text::chars_of;

verus! {

broadcast use vstd::seq_lib::group_to_multiset_ensures;

/// `a` comes no later than `b` in lexicographic order by code point.
pub open spec fn chars_le(a: Seq<char>, b: Seq<char>) -> bool
    decreases a.len(),
{
    if a.len() == 0 {
        true
    } else if b.len() == 0 {
        false
    } else if a[0] != b[0] {
        (a[0] as int) < (b[0] as int)
    } else {
        chars_le(a.drop_first(), b.drop_first())
    }
}

/// The listing order as a relation.
pub open spec fn name_order() -> spec_fn(Seq<char>, Seq<char>) -> bool {
    |a: Seq<char>, b: Seq<char>| chars_le(a, b)
}

/// `r` lists the names of `names`, each as often, in listing order.
pub open spec fn is_sorted_listing(r: Seq<Seq<char>>, names: Seq<Seq<char>>) -> bool {
    &&& r.to_multiset() == names.to_multiset()
    &&& sorted_by(r, name_order())
}

/// The name of the loopback interface, which the interface list leaves out.
pub open spec fn loopback() -> Seq<char> {
    seq!['l', 'o']
}

proof fn lemma_chars_le_total(a: Seq<char>, b: Seq<char>)
    ensures
        chars_le(a, b) || chars_le(b, a),
    decreases a.len(),
{
    if a.len() > 0 && b.len() > 0 && a[0] == b[0] {
        lemma_chars_le_total(a.drop_first(), b.drop_first());
    }
}

proof fn lemma_chars_le_antisym(a: Seq<char>, b: Seq<char>)
    requires
        chars_le(a, b),
        chars_le(b, a),
    ensures
        a == b,
    decreases a.len(),
{
    if a.len() > 0 {
        assert(b.len() > 0);
        if a[0] == b[0] {
            lemma_chars_le_antisym(a.drop_first(), b.drop_first());
            assert(a == seq![a[0]] + a.drop_first());
            assert(b == seq![b[0]] + b.drop_first());
        } else {
            assert((a[0] as int) != (b[0] as int));
        }
    } else {
        assert(b.len() == 0);
    }
}

proof fn lemma_chars_le_trans(a: Seq<char>, b: Seq<char>, c: Seq<char>)
    requires
        chars_le(a, b),
        chars_le(b, c),
    ensures
        chars_le(a, c),
    decreases a.len(),
{
    if a.len() > 0 && b.len() > 0 && c.len() > 0 && a[0] == b[0] && b[0] == c[0] {
        lemma_chars_le_trans(a.drop_first(), b.drop_first(), c.drop_first());
    }
}

/// Lexicographic order by code point is a total order.
pub proof fn lemma_name_order_total()
    ensures
        total_ordering(name_order()),
{
    let r = name_order();
    assert forall|x: Seq<char>| #[trigger] r(x, x) by {
        lemma_chars_le_total(x, x);
    }
    assert forall|x: Seq<char>, y: Seq<char>| #[trigger] r(x, y) && #[trigger] r(y, x) implies x == y by {
        lemma_chars_le_antisym(x, y);
    }
    assert forall|x: Seq<char>, y: Seq<char>, z: Seq<char>| #[trigger] r(x, y) && #[trigger] r(y, z) implies r(x, z) by {
        lemma_chars_le_trans(x, y, z);
    }
    assert forall|x: Seq<char>, y: Seq<char>| #[trigger] r(x, y) || #[trigger] r(y, x) by {
        lemma_chars_le_total(x, y);
    }
}

/// Compares two character sequences in listing order.
fn chars_le_exec(a: &Vec<char>, b: &Vec<char>) -> (r: bool)
    ensures
        r == chars_le(a@, b@),
{
    let mut i: usize = 0;
    assert(a@.skip(0) == a@);
    assert(b@.skip(0) == b@);
    while i < a.len() && i < b.len() && a[i] == b[i]
        invariant
            i <= a@.len(),
            i <= b@.len(),
            chars_le(a@, b@) == chars_le(a@.skip(i as int), b@.skip(i as int)),
        decreases a@.len() - i,
    {
        proof {
            assert(a@.skip(i as int).drop_first() == a@.skip(i + 1));
            assert(b@.skip(i as int).drop_first() == b@.skip(i + 1));
        }
        i = i + 1;
    }
    if i == a.len() {
        true
    } else if i == b.len() {
        false
    } else {
        assert(a@.skip(i as int)[0] == a@[i as int]);
        assert(b@.skip(i as int)[0] == b@[i as int]);
        a[i] < b[i]
    }
}

/// Sorts names into listing order, as `Vec::sort` does for `String`s.
pub fn sort_names(names: &mut Vec<String>)
    ensures
        is_sorted_listing(final(names).deep_view(), old(names).deep_view()),
{
    proof {
        lemma_name_order_total();
    }
    let ghost input = names.deep_view();
    let n = names.len();
    let mut out: Vec<String> = Vec::new();
    let mut keys: Vec<Vec<char>> = Vec::new();
    let mut i: usize = 0;
    while i < n
        invariant
            n == names@.len(),
            input == names.deep_view(),
            total_ordering(name_order()),
            i <= n,
            out@.len() == keys@.len(),
            forall|k: int| 0 <= k < out@.len() ==> #[trigger] keys@[k]@ == out@[k]@,
            out.deep_view().to_multiset() == input.take(i as int).to_multiset(),
            sorted_by(out.deep_view(), name_order()),
        decreases n - i,
    {
        let s = names[i].clone();
        let key = chars_of(s.as_str());
        let mut p: usize = 0;
        while p < keys.len() && chars_le_exec(&keys[p], &key)
            invariant
                out@.len() == keys@.len(),
                forall|k: int| 0 <= k < out@.len() ==> #[trigger] keys@[k]@ == out@[k]@,
                p <= keys@.len(),
                forall|k: int| 0 <= k < p ==> chars_le(#[trigger] out.deep_view()[k], key@),
            decreases keys@.len() - p,
        {
            assert(out.deep_view()[p as int] == keys@[p as int]@);
            p = p + 1;
        }
        let ghost old_out = out.deep_view();
        let ghost old_vec = out@;
        let ghost old_keys = keys@;
        proof {
            if p < keys@.len() {
                assert(old_out[p as int] == keys@[p as int]@);
                lemma_chars_le_total(old_out[p as int], key@);
            }
        }
        out.insert(p, s);
        keys.insert(p, key);
        proof {
            let nv = out.deep_view();
            let r = name_order();
            assert forall|k: int| 0 <= k < out@.len() implies #[trigger] keys@[k]@ == out@[k]@ by {
                if k < p {
                    assert(keys@[k] == old_keys[k]);
                    assert(out@[k] == old_vec[k]);
                } else if k > p {
                    assert(keys@[k] == old_keys[k - 1]);
                    assert(out@[k] == old_vec[k - 1]);
                }
            }
            assert(nv =~= old_out.insert(p as int, key@)) by {
                assert forall|k: int| 0 <= k < nv.len() implies nv[k] == old_out.insert(p as int, key@)[k] by {
                    if k < p {
                        assert(out@[k] == old_vec[k]);
                    } else if k > p {
                        assert(out@[k] == old_vec[k - 1]);
                    }
                }
            }
            assert forall|a: int, b: int| 0 <= a < b < nv.len() implies #[trigger] r(nv[a], nv[b]) by {
                if b < p {
                    assert(r(old_out[a], old_out[b]));
                } else if b == p {
                    assert(chars_le(old_out[a], key@));
                } else if a < p {
                    assert(chars_le(old_out[a], key@));
                    assert(chars_le(key@, old_out[p as int]));
                    assert(r(old_out[a], key@));
                    assert(r(key@, old_out[p as int]));
                    if b - 1 > p {
                        assert(r(old_out[p as int], old_out[b - 1]));
                    }
                    assert(r(key@, old_out[b - 1]));
                    assert(r(old_out[a], old_out[b - 1]));
                } else if a == p {
                    assert(chars_le(key@, old_out[p as int]));
                    assert(r(key@, old_out[p as int]));
                    if b - 1 > p {
                        assert(r(old_out[p as int], old_out[b - 1]));
                    }
                } else {
                    assert(r(old_out[a - 1], old_out[b - 1]));
                }
            }
            assert(input.take(i + 1) == input.take(i as int).push(input[i as int]));
            assert(input[i as int] == key@);
        }
        i = i + 1;
    }
    proof {
        assert(input.take(n as int) == input);
    }
    *names = out;
}


/// Two sorted listings of the same names, each as often, are equal.
proof fn lemma_sorted_listing_unique(a: Seq<Seq<char>>, b: Seq<Seq<char>>)
    requires
        a.to_multiset() == b.to_multiset(),
        sorted_by(a, name_order()),
        sorted_by(b, name_order()),
    ensures
        a == b,
    decreases a.len(),
{
    lemma_name_order_total();
    let r = name_order();
    vstd::seq_lib::to_multiset_len(a);
    vstd::seq_lib::to_multiset_len(b);
    assert(a.len() == b.len());
    if a.len() > 0 {
        assert(a.contains(a[0]));
        assert(b.to_multiset().count(a[0]) > 0);
        assert(b.contains(a[0]));
        let j = choose|j: int| 0 <= j < b.len() && b[j] == a[0];
        assert(b.contains(b[0]));
        assert(a.to_multiset().count(b[0]) > 0);
        assert(a.contains(b[0]));
        let k = choose|k: int| 0 <= k < a.len() && a[k] == b[0];
        if j > 0 {
            assert(r(b[0], b[j]));
        } else {
            assert(r(b[0], b[0]));
        }
        if k > 0 {
            assert(r(a[0], a[k]));
        } else {
            assert(r(a[0], a[0]));
        }
        assert(r(a[0], b[0]) && r(b[0], a[0]));
        assert(a[0] == b[0]);
        let a1 = a.drop_first();
        let b1 = b.drop_first();
        assert(a.remove(0) == a1);
        assert(b.remove(0) == b1);
        assert(a1.to_multiset() == a.to_multiset().remove(a[0]));
        assert(b1.to_multiset() == b.to_multiset().remove(b[0]));
        assert(sorted_by(a1, r)) by {
            assert forall|x: int, y: int| 0 <= x < y < a1.len() implies #[trigger] r(a1[x], a1[y]) by {
                assert(r(a[x + 1], a[y + 1]));
            }
        }
        assert(sorted_by(b1, r)) by {
            assert forall|x: int, y: int| 0 <= x < y < b1.len() implies #[trigger] r(b1[x], b1[y]) by {
                assert(r(b[x + 1], b[y + 1]));
            }
        }
        lemma_sorted_listing_unique(a1, b1);
        assert(a == seq![a[0]] + a1);
        assert(b == seq![b[0]] + b1);
    } else {
        assert(a == Seq::<Seq<char>>::empty());
        assert(b == Seq::<Seq<char>>::empty());
    }
}

/// The listing does not depend on the order in which the names arrive: two
/// replies that hold the same names, each as often, are listed alike.
pub proof fn law_listing_independent_of_reply_order(
    a: Seq<Seq<char>>,
    b: Seq<Seq<char>>,
    ra: Seq<Seq<char>>,
    rb: Seq<Seq<char>>,
)
    requires
        a.to_multiset() == b.to_multiset(),
        is_sorted_listing(ra, a),
        is_sorted_listing(rb, b),
    ensures
        ra == rb,
{
    lemma_sorted_listing_unique(ra, rb);
}

/// Whether a name is that of the loopback interface.
fn is_loopback(name: &String) -> (b: bool)
    ensures
        b == (name@ == loopback()),
{
    let cs = chars_of(name.as_str());
    let b = cs.len() == 2 && cs[0] == 'l' && cs[1] == 'o';
    proof {
        if cs@.len() == 2 && cs@[0] == 'l' && cs@[1] == 'o' {
            assert(cs@ == loopback());
        }
    }
    b
}

/// The network interfaces that the dashboard lists, from the names found in
/// the system: all but the loopback interface, sorted.
pub fn interface_list(names: Vec<String>) -> (r: Vec<String>)
    ensures
        is_sorted_listing(
            r.deep_view(),
            names.deep_view().filter(|n: Seq<char>| n != loopback()),
        ),
{
    let ghost pred = |n: Seq<char>| n != loopback();
    let ghost input = names.deep_view();
    let mut kept: Vec<String> = Vec::new();
    let n = names.len();
    let mut i: usize = 0;
    proof {
        reveal_with_fuel(Seq::<_>::filter, 1);
        assert(input.take(0) == Seq::<Seq<char>>::empty());
    }
    while i < n
        invariant
            n == names@.len(),
            input == names.deep_view(),
            pred == (|n: Seq<char>| n != loopback()),
            i <= n,
            kept.deep_view() == input.take(i as int).filter(pred),
        decreases n - i,
    {
        proof {
            reveal_with_fuel(Seq::<_>::filter, 1);
            assert(input.take(i + 1).drop_last() == input.take(i as int));
            assert(input.take(i + 1).last() == input[i as int]);
        }
        if !is_loopback(&names[i]) {
            kept.push(names[i].clone());
        }
        i = i + 1;
    }
    proof {
        assert(input.take(n as int) == input);
    }
    sort_names(&mut kept);
    kept
}

} // verus!
