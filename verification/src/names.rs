//! Ordering and listing names, for messages that say which states exist.

use vstd::prelude::*;

verus! {

/// Lexicographic order on character sequences: the order `str` sorts in,
/// since UTF-8 keeps the order of code points.
pub open spec fn seq_lt(a: Seq<char>, b: Seq<char>) -> bool
    decreases a.len(),
{
    if a.len() == 0 {
        b.len() > 0
    } else if b.len() == 0 {
        false
    } else if a[0] != b[0] {
        (a[0] as int) < (b[0] as int)
    } else {
        seq_lt(a.drop_first(), b.drop_first())
    }
}

/// No name sorts before itself, and of two names at most one sorts first.
pub proof fn lemma_seq_lt_asymmetric(a: Seq<char>, b: Seq<char>)
    ensures
        seq_lt(a, b) ==> !seq_lt(b, a),
    decreases a.len(),
{
    if a.len() > 0 && b.len() > 0 && a[0] == b[0] {
        lemma_seq_lt_asymmetric(a.drop_first(), b.drop_first());
    }
}

/// Sorting before is transitive.
pub proof fn lemma_seq_lt_transitive(a: Seq<char>, b: Seq<char>, c: Seq<char>)
    requires
        seq_lt(a, b),
        seq_lt(b, c),
    ensures
        seq_lt(a, c),
    decreases a.len(),
{
    if a.len() > 0 && b.len() > 0 && c.len() > 0 && a[0] == b[0] && b[0] == c[0] {
        lemma_seq_lt_transitive(a.drop_first(), b.drop_first(), c.drop_first());
    }
}

/// Of two different names, one sorts before the other.
pub proof fn lemma_seq_lt_total(a: Seq<char>, b: Seq<char>)
    requires
        a != b,
    ensures
        seq_lt(a, b) || seq_lt(b, a),
    decreases a.len(),
{
    if a.len() == 0 {
        if b.len() == 0 {
            assert(a =~= b);
        }
    } else if b.len() > 0 && a[0] == b[0] {
        if a.drop_first() == b.drop_first() {
            assert(a =~= seq![a[0]] + a.drop_first());
            assert(b =~= seq![b[0]] + b.drop_first());
        }
        lemma_seq_lt_total(a.drop_first(), b.drop_first());
    } else if b.len() == 0 {
    }
}

proof fn lemma_seq_lt_skip(a: Seq<char>, b: Seq<char>, i: int)
    requires
        0 <= i <= a.len(),
        i <= b.len(),
        a.take(i) == b.take(i),
    ensures
        seq_lt(a, b) == seq_lt(a.skip(i), b.skip(i)),
    decreases i,
{
    if i > 0 {
        assert(a[0] == a.take(i)[0]);
        assert(b[0] == b.take(i)[0]);
        assert(a.drop_first().take(i - 1) =~= a.take(i).drop_first());
        assert(b.drop_first().take(i - 1) =~= b.take(i).drop_first());
        lemma_seq_lt_skip(a.drop_first(), b.drop_first(), i - 1);
        assert(a.drop_first().skip(i - 1) =~= a.skip(i));
        assert(b.drop_first().skip(i - 1) =~= b.skip(i));
    } else {
        assert(a.skip(0) =~= a);
        assert(b.skip(0) =~= b);
    }
}

/// The characters of `s`, one by one.
fn chars_of(s: &str) -> (v: Vec<char>)
    ensures
        v@ == s@,
{
    let mut v: Vec<char> = Vec::new();
    for c in it: s.chars()
        invariant
            v@ == it.seq().take(it.index() as int),
    {
        v.push(c);
    }
    v
}

/// Whether `a` sorts before `b`.
pub fn str_lt(a: &str, b: &str) -> (r: bool)
    ensures
        r == seq_lt(a@, b@),
{
    let x = chars_of(a);
    let y = chars_of(b);
    let mut i: usize = 0;
    loop
        invariant
            0 <= i <= x@.len(),
            i <= y@.len(),
            x@ == a@,
            y@ == b@,
            x@.take(i as int) == y@.take(i as int),
        decreases x@.len() - i,
    {
        proof {
            lemma_seq_lt_skip(x@, y@, i as int);
        }
        if i == x.len() {
            return i < y.len();
        }
        if i == y.len() {
            return false;
        }
        if x[i] != y[i] {
            return x[i] < y[i];
        }
        assert(x@.skip(i as int).drop_first() =~= x@.skip(i + 1));
        assert(y@.skip(i as int).drop_first() =~= y@.skip(i + 1));
        assert(x@.take(i + 1) =~= x@.take(i as int).push(x@[i as int]));
        assert(y@.take(i + 1) =~= y@.take(i as int).push(y@[i as int]));
        i += 1;
    }
}

/// The separator between listed names.
pub open spec fn separator() -> Seq<char> {
    seq![',', ' ']
}

/// `names` in order, with the separator between each two.
pub open spec fn join(names: Seq<Seq<char>>, sep: Seq<char>) -> Seq<char>
    decreases names.len(),
{
    if names.len() == 0 {
        seq![]
    } else if names.len() == 1 {
        names[0]
    } else {
        join(names.drop_last(), sep) + sep + names.last()
    }
}

/// Whether `names` is in sorted order.
pub open spec fn is_sorted(names: Seq<String>) -> bool {
    forall|i: int, j: int| 0 <= i < j < names.len() ==> !seq_lt(names[j]@, names[i]@)
}

/// The views of `names`.
pub open spec fn views(names: Seq<String>) -> Seq<Seq<char>> {
    names.map_values(|s: String| s@)
}

/// `names`, sorted.
pub fn sort_names(names: &Vec<String>) -> (sorted: Vec<String>)
    ensures
        sorted@.to_multiset() == names@.to_multiset(),
        is_sorted(sorted@),
{
    let mut sorted: Vec<String> = Vec::new();
    assert(sorted@ =~= names@.take(0));
    let mut k: usize = 0;
    while k < names.len()
        invariant
            0 <= k <= names@.len(),
            sorted@.to_multiset() == names@.take(k as int).to_multiset(),
            is_sorted(sorted@),
        decreases names@.len() - k,
    {
        let name = names[k].clone();
        let mut p: usize = 0;
        loop
            invariant
                0 <= p <= sorted@.len(),
                forall|j: int| 0 <= j < p ==> !seq_lt(name@, #[trigger] sorted@[j]@),
            ensures
                0 <= p <= sorted@.len(),
                forall|j: int| 0 <= j < p ==> !seq_lt(name@, #[trigger] sorted@[j]@),
                p < sorted@.len() ==> seq_lt(name@, sorted@[p as int]@),
            decreases sorted@.len() - p,
        {
            if p == sorted.len() {
                break;
            }
            if str_lt(name.as_str(), sorted[p].as_str()) {
                break;
            }
            p += 1;
        }
        let ghost before = sorted@;
        sorted.insert(p, name);
        proof {
            assert forall|i: int, j: int| 0 <= i < j < sorted@.len() implies !seq_lt(
                sorted@[j]@,
                sorted@[i]@,
            ) by {
                if j == p {
                } else if i == p {
                    let y = before[j - 1]@;
                    if seq_lt(y, name@) {
                        if j - 1 == p {
                            lemma_seq_lt_asymmetric(y, name@);
                        } else {
                            lemma_seq_lt_transitive(y, name@, before[p as int]@);
                        }
                    }
                } else {
                    let ii = if i < p {
                        i
                    } else {
                        i - 1
                    };
                    let jj = if j < p {
                        j
                    } else {
                        j - 1
                    };
                    assert(sorted@[i] == before[ii]);
                    assert(sorted@[j] == before[jj]);
                }
            }
            assert(names@.take(k + 1) =~= names@.take(k as int).push(names@[k as int]));
            vstd::seq_lib::to_multiset_build(names@.take(k as int), names@[k as int]);
            vstd::seq_lib::to_multiset_insert(before, p as int, names@[k as int]);
        }
        k += 1;
    }
    assert(names@.take(names@.len() as int) =~= names@);
    sorted
}

/// `names` in order, separated by `", "`.
pub fn join_names(names: &Vec<String>) -> (r: String)
    ensures
        r@ == join(views(names@), separator()),
{
    let mut r = String::new();
    proof {
        reveal_strlit(", ");
    }
    let mut i: usize = 0;
    while i < names.len()
        invariant
            0 <= i <= names@.len(),
            ", "@ == separator(),
            r@ == join(views(names@).take(i as int), separator()),
        decreases names@.len() - i,
    {
        let ghost old_r = r@;
        if i > 0 {
            r.append(", ");
        }
        r.append(names[i].as_str());
        proof {
            let v = views(names@).take(i + 1);
            assert(v.drop_last() =~= views(names@).take(i as int));
            assert(v.last() == names@[i as int]@);
            if i == 0 {
                assert(views(names@).take(0) =~= Seq::<Seq<char>>::empty());
                assert(r@ =~= v[0]);
            }
        }
        i += 1;
    }
    assert(views(names@).take(names@.len() as int) =~= views(names@));
    r
}

} // verus!
