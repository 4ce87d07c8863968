//! Stable ordering of records by a text key, as `slice::sort_by` does with
//! `String::cmp` on that key.
use vstd::prelude::*;
use crate::text::{
    chars_of, lemma_lex_le_reflexive, lemma_lex_le_total, lemma_lex_le_transitive, lex_le,
};

verus! {

/// A record that is ordered by a text key.
pub trait TextKeyed: Sized {
    spec fn sort_key(&self) -> Seq<char>;

    fn key_chars(&self) -> (k: Vec<char>)
        ensures
            k@ == self.sort_key(),
    ;
}

impl TextKeyed for String {
    open spec fn sort_key(&self) -> Seq<char> {
        self@
    }

    fn key_chars(&self) -> (k: Vec<char>) {
        chars_of(self.as_str())
    }
}

/// The key function of a `TextKeyed` type.
pub open spec fn key_of<T: TextKeyed>() -> spec_fn(T) -> Seq<char> {
    |t: T| t.sort_key()
}

/// The elements whose key is `k`.
pub open spec fn has_key_by<A>(key: spec_fn(A) -> Seq<char>, k: Seq<char>) -> spec_fn(A) -> bool {
    |a: A| key(a) == k
}

/// `s` is ordered by `key`.
pub open spec fn sorted_by<A>(s: Seq<A>, key: spec_fn(A) -> Seq<char>) -> bool {
    forall|i: int, j: int|
        0 <= i < j < s.len() ==> lex_le(key(#[trigger] s[i]), key(#[trigger] s[j]))
}

/// `out` is the stable sort of `input` by `key`: ordered by key, and for
/// every key the elements holding it appear in `out` exactly as in `input`.
pub open spec fn is_stable_sort_by<A>(
    input: Seq<A>,
    out: Seq<A>,
    key: spec_fn(A) -> Seq<char>,
) -> bool {
    &&& sorted_by(out, key)
    &&& forall|k: Seq<char>| #[trigger]
        out.filter(has_key_by(key, k)) == input.filter(has_key_by(key, k))
}

proof fn lemma_filter_map_values<A, B>(s: Seq<A>, f: spec_fn(A) -> B, p: spec_fn(B) -> bool)
    ensures
        s.map_values(f).filter(p) == s.filter(|a: A| p(f(a))).map_values(f),
    decreases s.len(),
{
    reveal(Seq::filter);
    if s.len() > 0 {
        lemma_filter_map_values(s.drop_last(), f, p);
        assert(s.map_values(f).drop_last() =~= s.drop_last().map_values(f));
        let q = |a: A| p(f(a));
        if q(s.last()) {
            assert(s.filter(q).map_values(f) =~= s.drop_last().filter(q).map_values(f).push(
                f(s.last()),
            ));
        }
    } else {
        assert(s.map_values(f).filter(p) =~= Seq::<B>::empty());
        assert(s.filter(|a: A| p(f(a))) =~= Seq::<A>::empty());
    }
}

/// A stable sort stays a stable sort when every element is mapped to a value
/// that carries the same key.
pub proof fn lemma_stable_sort_map_values<A, B>(
    input: Seq<A>,
    out: Seq<A>,
    ka: spec_fn(A) -> Seq<char>,
    f: spec_fn(A) -> B,
    kb: spec_fn(B) -> Seq<char>,
)
    requires
        is_stable_sort_by(input, out, ka),
        forall|a: A| #[trigger] kb(f(a)) == ka(a),
    ensures
        is_stable_sort_by(input.map_values(f), out.map_values(f), kb),
{
    let mo = out.map_values(f);
    assert forall|i: int, j: int| 0 <= i < j < mo.len() implies lex_le(
        kb(#[trigger] mo[i]),
        kb(#[trigger] mo[j]),
    ) by {
        assert(kb(f(out[i])) == ka(out[i]));
        assert(kb(f(out[j])) == ka(out[j]));
    }
    assert forall|k: Seq<char>| #[trigger]
        mo.filter(has_key_by(kb, k)) == input.map_values(f).filter(has_key_by(kb, k)) by {
        lemma_filter_map_values(out, f, has_key_by(kb, k));
        lemma_filter_map_values(input, f, has_key_by(kb, k));
        let q = |a: A| has_key_by(kb, k)(f(a));
        assert(q =~= has_key_by(ka, k));
        assert(out.filter(has_key_by(ka, k)) == input.filter(has_key_by(ka, k)));
    }
}

/// Lexicographic comparison of two character vectors.
pub fn lex_le_chars(a: &Vec<char>, b: &Vec<char>) -> (r: bool)
    ensures
        r == lex_le(a@, b@),
{
    let mut i: usize = 0;
    assert(a@.skip(0) =~= a@);
    assert(b@.skip(0) =~= b@);
    while i < a.len() && i < b.len()
        invariant
            i <= a@.len(),
            i <= b@.len(),
            lex_le(a@, b@) == lex_le(a@.skip(i as int), b@.skip(i as int)),
        decreases a@.len() - i,
    {
        if a[i] < b[i] {
            return true;
        } else if a[i] > b[i] {
            return false;
        }
        assert(a@.skip(i as int).drop_first() =~= a@.skip(i + 1));
        assert(b@.skip(i as int).drop_first() =~= b@.skip(i + 1));
        i = i + 1;
    }
    i == a.len()
}

proof fn lemma_filter_insert<T>(s: Seq<T>, p: int, x: T, f: spec_fn(T) -> bool)
    requires
        0 <= p <= s.len(),
    ensures
        s.filter(f) == s.take(p).filter(f) + s.skip(p).filter(f),
        s.insert(p, x).filter(f) == s.take(p).filter(f) + seq![x].filter(f) + s.skip(p).filter(
            f,
        ),
{
    broadcast use Seq::filter_distributes_over_add;

    assert(s =~= s.take(p) + s.skip(p));
    assert(s.insert(p, x) =~= (s.take(p) + seq![x]) + s.skip(p));
    assert((s.take(p) + seq![x]).filter(f) == s.take(p).filter(f) + seq![x].filter(f));
}

proof fn lemma_filter_none<T>(s: Seq<T>, f: spec_fn(T) -> bool)
    requires
        forall|i: int| 0 <= i < s.len() ==> !f(#[trigger] s[i]),
    ensures
        s.filter(f) == Seq::<T>::empty(),
    decreases s.len(),
{
    reveal(Seq::filter);
    if s.len() > 0 {
        lemma_filter_none(s.drop_last(), f);
        assert(!f(s[s.len() - 1]));
    }
}

proof fn lemma_filter_single<T>(x: T, f: spec_fn(T) -> bool)
    ensures
        seq![x].filter(f) == (if f(x) { seq![x] } else { Seq::<T>::empty() }),
{
    reveal_with_fuel(Seq::filter, 2);
    assert(seq![x].drop_last() =~= Seq::<T>::empty());
    assert(Seq::<T>::empty().filter(f) =~= Seq::<T>::empty());
}

/// Sorts `items` by key, keeping records with equal keys in their original
/// order.
pub fn stable_sort_by_key<T: TextKeyed>(items: Vec<T>) -> (out: Vec<T>)
    ensures
        is_stable_sort_by(items@, out@, key_of::<T>()),
        out@.len() == items@.len(),
{
    let ghost input = items@;
    let mut rest = items;
    let mut out: Vec<T> = Vec::new();
    let ghost mut done: int = 0;
    assert forall|k: Seq<char>| #[trigger] out@.filter(has_key_by(key_of::<T>(), k)) == input.take(0).filter(
        has_key_by(key_of::<T>(), k),
    ) by {
        assert(out@ =~= Seq::<T>::empty());
        assert(input.take(0) =~= Seq::<T>::empty());
    }
    while rest.len() > 0
        invariant
            0 <= done <= input.len(),
            rest@ == input.skip(done),
            out@.len() == done,
            sorted_by(out@, key_of::<T>()),
            forall|k: Seq<char>| #[trigger]
                out@.filter(has_key_by(key_of::<T>(), k)) == input.take(done).filter(has_key_by(key_of::<T>(), k)),
        decreases rest@.len(),
    {
        let x = rest.remove(0);
        let ghost xk = x.sort_key();
        let xkey = x.key_chars();
        let mut p: usize = 0;
        while p < out.len() && lex_le_chars(&out[p].key_chars(), &xkey)
            invariant
                p <= out@.len(),
                xkey@ == xk,
                forall|j: int| 0 <= j < p ==> lex_le(#[trigger] out@[j].sort_key(), xk),
            decreases out@.len() - p,
        {
            p = p + 1;
        }
        proof {
            assert forall|j: int| p <= j < out@.len() implies !lex_le(
                #[trigger] out@[j].sort_key(),
                xk,
            ) by {
                if lex_le(out@[j].sort_key(), xk) {
                    if j > p {
                        lemma_lex_le_transitive(out@[p as int].sort_key(), out@[j].sort_key(), xk);
                    }
                }
            }
        }
        let ghost old_out = out@;
        out.insert(p, x);
        proof {
            let pi = p as int;
            assert(input.skip(done)[0] == x);
            assert(input.take(done + 1) =~= input.take(done).push(x));
            assert(input.skip(done + 1) =~= input.skip(done).drop_first());
            assert forall|i: int, j: int| 0 <= i < j < out@.len() implies lex_le(
                #[trigger] out@[i].sort_key(),
                #[trigger] out@[j].sort_key(),
            ) by {
                if i < pi && j == pi {
                } else if i < pi && j > pi {
                    lemma_lex_le_total(old_out[j - 1].sort_key(), xk);
                    lemma_lex_le_transitive(old_out[i].sort_key(), xk, old_out[j - 1].sort_key());
                } else if i == pi {
                    lemma_lex_le_total(old_out[j - 1].sort_key(), xk);
                } else if i > pi {
                    assert(out@[i] == old_out[i - 1]);
                    assert(out@[j] == old_out[j - 1]);
                } else {
                    assert(out@[i] == old_out[i]);
                    assert(out@[j] == old_out[j]);
                }
            }
            assert forall|k: Seq<char>| #[trigger]
                out@.filter(has_key_by(key_of::<T>(), k)) == input.take(done + 1).filter(has_key_by(key_of::<T>(), k)) by {
                let f = has_key_by(key_of::<T>(), k);
                reveal(Seq::filter);
                lemma_filter_insert(old_out, pi, x, f);
                lemma_filter_single(x, f);
                assert(input.take(done + 1).drop_last() =~= input.take(done));
                if xk == k {
                    assert forall|i: int| 0 <= i < old_out.skip(pi).len() implies !f(
                        #[trigger] old_out.skip(pi)[i],
                    ) by {
                        assert(old_out.skip(pi)[i] == old_out[pi + i]);
                        if old_out[pi + i].sort_key() == xk {
                            lemma_lex_le_reflexive(xk);
                        }
                    }
                    lemma_filter_none(old_out.skip(pi), f);
                    assert(old_out.take(pi).filter(f) + seq![x] + Seq::<T>::empty() =~= (
                    old_out.take(pi).filter(f) + Seq::<T>::empty()).push(x));
                } else {
                    assert(old_out.take(pi).filter(f) + Seq::<T>::empty() + old_out.skip(
                        pi,
                    ).filter(f) =~= old_out.take(pi).filter(f) + old_out.skip(pi).filter(f));
                }
            }
            done = done + 1;
        }
    }
    assert(input.take(done) =~= input);
    out
}

} // verus!
