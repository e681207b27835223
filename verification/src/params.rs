//! Ordered signature parameters.
//!
//! The signing scheme demands that the full parameter set be sorted by key
//! (ties broken by value) in byte order before it is joined into the
//! parameter string.  This module holds the order, a verified sort, and the
//! `key=value`-with-`&` joining that both the signature base string and the
//! parameter string use.
use vstd::prelude::*;
use vstd::multiset::Multiset;
use vstd::relations::{sorted_by, total_ordering};
use vstd::seq_lib::lemma_sorted_unique;
use vstd::seq_lib::to_multiset_insert;

verus! {

/// Lexicographic byte order; a prefix comes before every extension of it.
pub open spec fn lex_leq(a: Seq<u8>, b: Seq<u8>) -> bool
    decreases a.len(),
{
    if a.len() == 0 {
        true
    } else if b.len() == 0 {
        false
    } else if a[0] < b[0] {
        true
    } else if a[0] > b[0] {
        false
    } else {
        lex_leq(a.skip(1), b.skip(1))
    }
}

/// Parameter order: by key, ties broken by value.
pub open spec fn pair_leq(x: (Seq<u8>, Seq<u8>), y: (Seq<u8>, Seq<u8>)) -> bool {
    if x.0 == y.0 {
        lex_leq(x.1, y.1)
    } else {
        lex_leq(x.0, y.0)
    }
}

/// The parameter order as a relation value, for `sorted_by` and `sort_by`.
pub open spec fn param_order() -> spec_fn((Seq<u8>, Seq<u8>), (Seq<u8>, Seq<u8>)) -> bool {
    |x: (Seq<u8>, Seq<u8>), y: (Seq<u8>, Seq<u8>)| pair_leq(x, y)
}

proof fn lemma_lex_refl(a: Seq<u8>)
    ensures
        lex_leq(a, a),
    decreases a.len(),
{
    if a.len() > 0 {
        lemma_lex_refl(a.skip(1));
    }
}

proof fn lemma_lex_connected(a: Seq<u8>, b: Seq<u8>)
    ensures
        lex_leq(a, b) || lex_leq(b, a),
    decreases a.len(),
{
    if a.len() > 0 && b.len() > 0 && a[0] == b[0] {
        lemma_lex_connected(a.skip(1), b.skip(1));
    }
}

proof fn lemma_lex_antisym(a: Seq<u8>, b: Seq<u8>)
    requires
        lex_leq(a, b),
        lex_leq(b, a),
    ensures
        a == b,
    decreases a.len(),
{
    if a.len() == 0 {
        assert(b.len() == 0);
        assert(a =~= b);
    } else {
        assert(b.len() > 0);
        assert(a[0] == b[0]);
        lemma_lex_antisym(a.skip(1), b.skip(1));
        assert(a =~= seq![a[0]] + a.skip(1));
        assert(b =~= seq![b[0]] + b.skip(1));
    }
}

proof fn lemma_lex_trans(a: Seq<u8>, b: Seq<u8>, c: Seq<u8>)
    requires
        lex_leq(a, b),
        lex_leq(b, c),
    ensures
        lex_leq(a, c),
    decreases a.len(),
{
    if a.len() > 0 && b.len() > 0 && c.len() > 0 {
        if a[0] == b[0] && b[0] == c[0] {
            lemma_lex_trans(a.skip(1), b.skip(1), c.skip(1));
        }
    }
}

/// The parameter order is a total order, as `sort_by` requires.
pub proof fn lemma_param_total_ordering()
    ensures
        total_ordering(param_order()),
{
    let leq = param_order();
    assert forall|x: (Seq<u8>, Seq<u8>)| #[trigger] leq(x, x) by {
        lemma_lex_refl(x.1);
    }
    assert forall|x: (Seq<u8>, Seq<u8>), y: (Seq<u8>, Seq<u8>)| #[trigger]
        leq(x, y) && #[trigger] leq(y, x) implies x == y by {
        if x.0 == y.0 {
            lemma_lex_antisym(x.1, y.1);
        } else {
            lemma_lex_antisym(x.0, y.0);
        }
    }
    assert forall|x: (Seq<u8>, Seq<u8>), y: (Seq<u8>, Seq<u8>), z: (Seq<u8>, Seq<u8>)| #[trigger]
        leq(x, y) && #[trigger] leq(y, z) implies leq(x, z) by {
        if x.0 == y.0 && y.0 == z.0 {
            lemma_lex_trans(x.1, y.1, z.1);
        } else if x.0 == y.0 {
            // keys of x and y agree, so the key comparison of x to z is that of y to z
        } else if y.0 == z.0 {
        } else {
            lemma_lex_trans(x.0, y.0, z.0);
            if x.0 == z.0 {
                lemma_lex_antisym(x.0, y.0);
            }
        }
    }
    assert forall|x: (Seq<u8>, Seq<u8>), y: (Seq<u8>, Seq<u8>)| #[trigger]
        leq(x, y) || #[trigger] leq(y, x) by {
        if x.0 == y.0 {
            lemma_lex_connected(x.1, y.1);
        } else {
            lemma_lex_connected(x.0, y.0);
        }
    }
}

/// One signature parameter: a key and an already-encoded value, both as bytes.
pub struct Param {
    pub key: Vec<u8>,
    pub value: Vec<u8>,
}

impl View for Param {
    type V = (Seq<u8>, Seq<u8>);

    open spec fn view(&self) -> (Seq<u8>, Seq<u8>) {
        (self.key@, self.value@)
    }
}

/// The abstract pairs that a parameter list stands for.
pub open spec fn params_view(ps: Seq<Param>) -> Seq<(Seq<u8>, Seq<u8>)> {
    ps.map_values(|p: Param| p@)
}

/// Whether `a` comes no later than `b` in lexicographic byte order.
fn lex_leq_exec(a: &Vec<u8>, b: &Vec<u8>) -> (r: bool)
    ensures
        r == lex_leq(a@, b@),
{
    let mut i: usize = 0;
    proof {
        assert(a@.skip(0) =~= a@);
        assert(b@.skip(0) =~= b@);
    }
    while i < a.len() && i < b.len()
        invariant
            i <= a@.len(),
            i <= b@.len(),
            lex_leq(a@, b@) == lex_leq(a@.skip(i as int), b@.skip(i as int)),
        decreases a@.len() - i,
    {
        if a[i] < b[i] {
            return true;
        }
        if a[i] > b[i] {
            return false;
        }
        proof {
            assert(a@.skip(i as int)[0] == a@[i as int]);
            assert(b@.skip(i as int)[0] == b@[i as int]);
            assert(a@.skip(i as int).skip(1) =~= a@.skip(i as int + 1));
            assert(b@.skip(i as int).skip(1) =~= b@.skip(i as int + 1));
        }
        i = i + 1;
    }
    proof {
        if i == a@.len() {
            assert(a@.skip(i as int).len() == 0);
        } else {
            assert(b@.skip(i as int).len() == 0);
            assert(a@.skip(i as int).len() > 0);
        }
    }
    i == a.len()
}

/// Whether parameter `a` comes no later than parameter `b`.
fn param_leq_exec(a: &Param, b: &Param) -> (r: bool)
    ensures
        r == pair_leq(a@, b@),
{
    let key_ab = lex_leq_exec(&a.key, &b.key);
    let key_ba = lex_leq_exec(&b.key, &a.key);
    if key_ab && key_ba {
        proof {
            lemma_lex_antisym(a.key@, b.key@);
        }
        lex_leq_exec(&a.value, &b.value)
    } else {
        proof {
            if a.key@ == b.key@ {
                lemma_lex_refl(a.key@);
            }
        }
        key_ab
    }
}

/// Inserting into a sorted sequence at the first position whose element does
/// not precede the new one keeps the sequence sorted.
proof fn lemma_sorted_insert(s: Seq<(Seq<u8>, Seq<u8>)>, x: (Seq<u8>, Seq<u8>), j: int)
    requires
        sorted_by(s, param_order()),
        0 <= j <= s.len(),
        forall|k: int| 0 <= k < j ==> #[trigger] param_order()(s[k], x),
        j < s.len() ==> !param_order()(s[j], x),
    ensures
        sorted_by(s.insert(j, x), param_order()),
{
    lemma_param_total_ordering();
    let leq = param_order();
    let t = s.insert(j, x);
    s.insert_ensures(j, x);
    assert forall|p: int, q: int| 0 <= p < q < t.len() implies #[trigger] leq(t[p], t[q]) by {
        if p < j && q < j {
            assert(t[p] == s[p] && t[q] == s[q]);
        } else if p < j && q == j {
            assert(t[p] == s[p] && t[q] == x);
        } else if p < j && q > j {
            assert(t[p] == s[p] && t[q] == s[q - 1]);
            if q - 1 == p {
            } else {
                assert(leq(s[p], s[q - 1]));
            }
        } else if p == j && q > j {
            assert(t[p] == x && t[q] == s[q - 1]);
            // x precedes s[j], which precedes every later element
            if j < s.len() {
                assert(leq(x, s[j]));
                if q - 1 == j {
                } else {
                    assert(leq(s[j], s[q - 1]));
                }
            }
        } else {
            assert(t[p] == s[p - 1] && t[q] == s[q - 1]);
            assert(leq(s[p - 1], s[q - 1]));
        }
    }
}

/// Sort parameters by key, ties broken by value.  The result holds the same
/// parameters, in sorted order.
pub fn sort_params(v: Vec<Param>) -> (r: Vec<Param>)
    ensures
        params_view(r@).to_multiset() == params_view(v@).to_multiset(),
        sorted_by(params_view(r@), param_order()),
{
    let ghost orig = v@;
    let mut v = v;
    let mut out: Vec<Param> = Vec::new();
    proof {
        broadcast use vstd::multiset::group_multiset_axioms;
        broadcast use vstd::multiset::group_multiset_properties;
        broadcast use vstd::seq_lib::group_to_multiset_ensures;

        assert(params_view(out@) =~= Seq::<(Seq<u8>, Seq<u8>)>::empty());
        assert(params_view(out@).to_multiset().len() == 0);
        assert(params_view(out@).to_multiset() =~= Multiset::<(Seq<u8>, Seq<u8>)>::empty());
        assert(params_view(out@).to_multiset().add(params_view(v@).to_multiset()) =~= params_view(
            orig,
        ).to_multiset());
    }
    while v.len() > 0
        invariant
            sorted_by(params_view(out@), param_order()),
            params_view(out@).to_multiset().add(params_view(v@).to_multiset()) == params_view(
                orig,
            ).to_multiset(),
        decreases v@.len(),
    {
        let ghost v_pre = v@;
        let ghost out_pre = out@;
        let p = v.remove(0);
        proof {
            assert(params_view(v_pre) =~= params_view(v@).insert(0, p@));
            to_multiset_insert(params_view(v@), 0, p@);
        }
        // find the insertion point
        let mut j: usize = 0;
        while j < out.len() && param_leq_exec(&out[j], &p)
            invariant
                j <= out@.len(),
                out@ == out_pre,
                forall|k: int| 0 <= k < j ==> #[trigger] param_order()(params_view(out@)[k], p@),
            decreases out@.len() - j,
        {
            j = j + 1;
        }
        proof {
            lemma_sorted_insert(params_view(out@), p@, j as int);
            assert(params_view(out_pre.insert(j as int, p)) =~= params_view(out_pre).insert(
                j as int,
                p@,
            ));
            to_multiset_insert(params_view(out_pre), j as int, p@);
        }
        out.insert(j, p);
        proof {
            broadcast use vstd::multiset::group_multiset_axioms;

            assert(params_view(out@).to_multiset().add(params_view(v@).to_multiset())
                =~= params_view(orig).to_multiset());
        }
    }
    proof {
        broadcast use vstd::multiset::group_multiset_axioms;
        broadcast use vstd::multiset::group_multiset_properties;
        broadcast use vstd::seq_lib::group_to_multiset_ensures;

        assert(params_view(v@) =~= Seq::<(Seq<u8>, Seq<u8>)>::empty());
        assert(params_view(v@).to_multiset().len() == 0);
        assert(params_view(v@).to_multiset() =~= Multiset::<(Seq<u8>, Seq<u8>)>::empty());
        assert(params_view(out@).to_multiset() =~= params_view(orig).to_multiset());
    }
    out
}

/// The exec sort agrees with the specification-level `sort_by`.
pub proof fn lemma_sort_params_is_sort_by(sorted: Seq<(Seq<u8>, Seq<u8>)>, ps: Seq<(Seq<u8>, Seq<u8>)>)
    requires
        sorted.to_multiset() == ps.to_multiset(),
        sorted_by(sorted, param_order()),
    ensures
        sorted == ps.sort_by(param_order()),
{
    lemma_param_total_ordering();
    ps.lemma_sort_by_ensures(param_order());
    lemma_sorted_unique(sorted, ps.sort_by(param_order()), param_order());
}

/// Mapping a function over two sequences that hold the same elements (in any
/// order) yields sequences that hold the same images.
pub proof fn lemma_map_values_multiset<A, B>(s1: Seq<A>, s2: Seq<A>, f: spec_fn(A) -> B)
    requires
        s1.to_multiset() == s2.to_multiset(),
    ensures
        s1.map_values(f).to_multiset() == s2.map_values(f).to_multiset(),
    decreases s1.len(),
{
    broadcast use vstd::multiset::group_multiset_axioms;
    broadcast use vstd::multiset::group_multiset_properties;
    broadcast use vstd::seq_lib::group_to_multiset_ensures;

    if s1.len() == 0 {
        assert(s1.to_multiset().len() == 0);
        assert(s2.len() == 0);
        assert(s1.map_values(f) =~= Seq::<B>::empty());
        assert(s2.map_values(f) =~= Seq::<B>::empty());
    } else {
        let x = s1[0];
        assert(s1.contains(x));
        assert(s1.to_multiset().count(x) > 0);
        assert(s2.to_multiset().count(x) > 0);
        assert(s2.contains(x));
        let j = choose|j: int| 0 <= j < s2.len() && s2[j] == x;
        vstd::seq_lib::to_multiset_remove(s1, 0);
        vstd::seq_lib::to_multiset_remove(s2, j);
        assert(s1.remove(0).to_multiset() =~= s2.remove(j).to_multiset());
        lemma_map_values_multiset(s1.remove(0), s2.remove(j), f);
        assert(s1.map_values(f).remove(0) =~= s1.remove(0).map_values(f));
        assert(s2.map_values(f).remove(j) =~= s2.remove(j).map_values(f));
        vstd::seq_lib::to_multiset_remove(s1.map_values(f), 0);
        vstd::seq_lib::to_multiset_remove(s2.map_values(f), j);
        let m1 = s1.map_values(f).to_multiset();
        let m2 = s2.map_values(f).to_multiset();
        assert(s1.map_values(f)[0] == f(x));
        assert(s2.map_values(f)[j] == f(x));
        assert(s1.map_values(f).contains(f(x)));
        assert(s2.map_values(f).contains(f(x)));
        assert(m1.count(f(x)) > 0);
        assert(m2.count(f(x)) > 0);
        assert(m1.remove(f(x)) == m2.remove(f(x)));
        assert forall|y: B| #[trigger] m1.count(y) == m2.count(y) by {
            if y == f(x) {
                assert(m1.remove(f(x)).count(y) == m1.count(y) - 1);
                assert(m2.remove(f(x)).count(y) == m2.count(y) - 1);
            } else {
                assert(m1.remove(f(x)).count(y) == m1.count(y));
                assert(m2.remove(f(x)).count(y) == m2.count(y));
            }
        }
        assert(m1 =~= m2);
    }
}

/// The bytes `key=value` of one parameter.
pub open spec fn pair_bytes(p: (Seq<u8>, Seq<u8>)) -> Seq<u8> {
    p.0 + seq![61u8] + p.1
}

/// The parameters joined as `key=value` pairs separated by `&`.
pub open spec fn join_params(ps: Seq<(Seq<u8>, Seq<u8>)>) -> Seq<u8>
    decreases ps.len(),
{
    if ps.len() == 0 {
        Seq::empty()
    } else if ps.len() == 1 {
        pair_bytes(ps[0])
    } else {
        pair_bytes(ps[0]) + seq![38u8] + join_params(ps.skip(1))
    }
}

/// Appending one more parameter extends the joined string by `&key=value`
/// (without the `&` when it is the first).
proof fn lemma_join_params_step(ps: Seq<(Seq<u8>, Seq<u8>)>, i: int)
    requires
        0 <= i < ps.len(),
    ensures
        join_params(ps.take(i + 1)) == if i == 0 {
            pair_bytes(ps[0])
        } else {
            join_params(ps.take(i)) + seq![38u8] + pair_bytes(ps[i])
        },
    decreases i,
{
    if i == 0 {
        assert(ps.take(1) =~= seq![ps[0]]);
    } else {
        let a = ps.take(i + 1);
        let b = ps.take(i);
        assert(a.len() >= 2);
        assert(a[0] == ps[0] && b[0] == ps[0]);
        assert(a.skip(1) =~= ps.skip(1).take(i));
        assert(b.skip(1) =~= ps.skip(1).take(i - 1));
        lemma_join_params_step(ps.skip(1), i - 1);
        assert(ps.skip(1)[i - 1] == ps[i]);
        if i == 1 {
            assert(join_params(a) == pair_bytes(ps[0]) + seq![38u8] + pair_bytes(ps[1]));
            assert(join_params(b) == pair_bytes(ps[0]));
        } else {
            assert(join_params(a) == pair_bytes(ps[0]) + seq![38u8] + (join_params(
                ps.skip(1).take(i - 1),
            ) + seq![38u8] + pair_bytes(ps[i])));
            assert(pair_bytes(ps[0]) + seq![38u8] + (join_params(ps.skip(1).take(i - 1))
                + seq![38u8] + pair_bytes(ps[i])) =~= (pair_bytes(ps[0]) + seq![38u8]
                + join_params(ps.skip(1).take(i - 1))) + seq![38u8] + pair_bytes(ps[i]));
        }
    }
}

/// Join sorted parameters into the parameter string.
pub fn join_params_exec(ps: &Vec<Param>) -> (r: Vec<u8>)
    ensures
        r@ == join_params(params_view(ps@)),
{
    let mut out: Vec<u8> = Vec::new();
    let mut i: usize = 0;
    proof {
        assert(params_view(ps@).take(0) =~= Seq::<(Seq<u8>, Seq<u8>)>::empty());
    }
    while i < ps.len()
        invariant
            i <= ps@.len(),
            out@ == join_params(params_view(ps@).take(i as int)),
        decreases ps@.len() - i,
    {
        let ghost pre = out@;
        if i > 0 {
            out.push(38);
        }
        proof {
            assert(out@ =~= (if i == 0 {
                pre
            } else {
                pre + seq![38u8]
            }) + ps@[i as int].key@.take(0));
        }
        let mut k: usize = 0;
        while k < ps[i].key.len()
            invariant
                i < ps@.len(),
                k <= ps@[i as int].key@.len(),
                out@ == (if i == 0 {
                    pre
                } else {
                    pre + seq![38u8]
                }) + ps@[i as int].key@.take(k as int),
            decreases ps@[i as int].key@.len() - k,
        {
            let b = ps[i].key[k];
            out.push(b);
            proof {
                assert(ps@[i as int].key@.take(k as int + 1) =~= ps@[i as int].key@.take(k as int)
                    + seq![b]);
                assert(out@ =~= (if i == 0 {
                    pre
                } else {
                    pre + seq![38u8]
                }) + ps@[i as int].key@.take(k as int + 1));
            }
            k = k + 1;
        }
        out.push(61);
        proof {
            assert(ps@[i as int].key@.take(ps@[i as int].key@.len() as int) =~= ps@[i as int].key@);
            assert(out@ =~= (if i == 0 {
                pre
            } else {
                pre + seq![38u8]
            }) + ps@[i as int].key@ + seq![61u8] + ps@[i as int].value@.take(0));
        }
        let mut m: usize = 0;
        while m < ps[i].value.len()
            invariant
                i < ps@.len(),
                m <= ps@[i as int].value@.len(),
                out@ == (if i == 0 {
                    pre
                } else {
                    pre + seq![38u8]
                }) + ps@[i as int].key@ + seq![61u8] + ps@[i as int].value@.take(m as int),
            decreases ps@[i as int].value@.len() - m,
        {
            let b = ps[i].value[m];
            out.push(b);
            proof {
                assert(ps@[i as int].value@.take(m as int + 1) =~= ps@[i as int].value@.take(
                    m as int,
                ) + seq![b]);
                assert(out@ =~= (if i == 0 {
                    pre
                } else {
                    pre + seq![38u8]
                }) + ps@[i as int].key@ + seq![61u8] + ps@[i as int].value@.take(m as int + 1));
            }
            m = m + 1;
        }
        proof {
            let pv = params_view(ps@);
            lemma_join_params_step(pv, i as int);
            assert(ps@[i as int].key@.take(ps@[i as int].key@.len() as int) =~= ps@[i as int].key@);
            assert(ps@[i as int].value@.take(ps@[i as int].value@.len() as int) =~= ps@[i as int].value@);
            assert(pv[i as int] == ps@[i as int]@);
            if i == 0 {
                assert(pre =~= Seq::<u8>::empty());
                assert(out@ =~= pair_bytes(pv[0]));
            } else {
                assert(out@ =~= (pre + seq![38u8]) + ps@[i as int].key@ + seq![61u8]
                    + ps@[i as int].value@);
                assert(pair_bytes(pv[i as int]) =~= ps@[i as int].key@ + seq![61u8]
                    + ps@[i as int].value@);
                assert(out@ =~= join_params(pv.take(i as int)) + seq![38u8] + pair_bytes(
                    pv[i as int],
                ));
            }
        }
        i = i + 1;
    }
    proof {
        assert(params_view(ps@).take(ps@.len() as int) =~= params_view(ps@));
    }
    out
}

} // verus!
