//! Normalising a list of serial-port paths: lexicographically sorted,
//! no duplicates, nothing added and nothing lost.
//!
//! Which paths exist on the machine is the platform's business; this
//! module only puts a gathered list into its reported order.

use vstd::prelude::*;
use vstd::string::StrSliceExecFns;

verus! {

/// Strict lexicographic order on character sequences: a proper prefix
/// comes first, otherwise the first differing character decides.
pub open spec fn lex_lt(a: Seq<char>, b: Seq<char>) -> bool
    decreases a.len(),
{
    if b.len() == 0 {
        false
    } else if a.len() == 0 {
        true
    } else if a[0] != b[0] {
        a[0] < b[0]
    } else {
        lex_lt(a.drop_first(), b.drop_first())
    }
}

/// Nothing is lexicographically below itself.
pub proof fn lemma_lex_lt_irreflexive(a: Seq<char>)
    ensures
        !lex_lt(a, a),
    decreases a.len(),
{
    if a.len() > 0 {
        lemma_lex_lt_irreflexive(a.drop_first());
    }
}

/// Two sequences neither of which is below the other are equal.
pub proof fn lemma_lex_lt_connected(a: Seq<char>, b: Seq<char>)
    requires
        !lex_lt(a, b),
        !lex_lt(b, a),
    ensures
        a == b,
    decreases a.len(),
{
    if a.len() == 0 || b.len() == 0 {
        assert(a =~= b);
    } else {
        assert(a[0] == b[0]);
        lemma_lex_lt_connected(a.drop_first(), b.drop_first());
        assert(a.len() == b.len());
        assert forall|i: int| 0 <= i < a.len() implies a[i] == b[i] by {
            if i >= 1 {
                assert(a[i] == a.drop_first()[i - 1]);
                assert(b[i] == b.drop_first()[i - 1]);
            }
        };
        assert(a =~= b);
    }
}

/// The lexicographic order is transitive.
pub proof fn lemma_lex_lt_transitive(a: Seq<char>, b: Seq<char>, c: Seq<char>)
    requires
        lex_lt(a, b),
        lex_lt(b, c),
    ensures
        lex_lt(a, c),
    decreases a.len(),
{
    if a.len() > 0 && b.len() > 0 && c.len() > 0 && a[0] == b[0] && b[0] == c[0] {
        lemma_lex_lt_transitive(a.drop_first(), b.drop_first(), c.drop_first());
    }
}

/// Whether `a` reads lexicographically strictly below `b`.
pub fn str_lt(a: &str, b: &str) -> (r: bool)
    ensures
        r == lex_lt(a@, b@),
{
    let a_len = a.unicode_len();
    let b_len = b.unicode_len();
    let mut i: usize = 0;
    proof {
        assert(a@.skip(0) =~= a@);
        assert(b@.skip(0) =~= b@);
    }
    loop
        invariant
            i <= a_len,
            i <= b_len,
            a_len == a@.len(),
            b_len == b@.len(),
            lex_lt(a@, b@) == lex_lt(a@.skip(i as int), b@.skip(i as int)),
        decreases a_len - i,
    {
        if i == b_len {
            proof {
                assert(b@.skip(i as int).len() == 0);
            }
            return false;
        }
        if i == a_len {
            proof {
                assert(a@.skip(i as int).len() == 0);
                assert(b@.skip(i as int).len() > 0);
            }
            return true;
        }
        let ca = a.get_char(i);
        let cb = b.get_char(i);
        proof {
            assert(a@.skip(i as int)[0] == a@[i as int]);
            assert(b@.skip(i as int)[0] == b@[i as int]);
            assert(a@.skip(i as int).drop_first() =~= a@.skip(i as int + 1));
            assert(b@.skip(i as int).drop_first() =~= b@.skip(i as int + 1));
        }
        if ca != cb {
            return ca < cb;
        }
        i = i + 1;
    }
}

/// The views of a list of strings.
pub open spec fn views(v: Seq<String>) -> Seq<Seq<char>> {
    v.map_values(|s: String| s@)
}

/// Every earlier entry reads strictly below every later one: sorted with
/// no duplicates.
pub open spec fn strictly_sorted(v: Seq<Seq<char>>) -> bool {
    forall|i: int, j: int| 0 <= i < j < v.len() ==> lex_lt(#[trigger] v[i], #[trigger] v[j])
}

/// Whether some entry of `v` reads as `s`.
pub open spec fn contains_view(v: Seq<Seq<char>>, s: Seq<char>) -> bool {
    exists|i: int| 0 <= i < v.len() && v[i] == s
}

/// Appending one entry extends what a list contains by that entry.
proof fn lemma_contains_push(v: Seq<Seq<char>>, x: Seq<char>, t: Seq<char>)
    ensures
        contains_view(v.push(x), t) <==> (contains_view(v, t) || t == x),
{
    if contains_view(v.push(x), t) {
        let k = choose|k: int| 0 <= k < v.push(x).len() && v.push(x)[k] == t;
        if k < v.len() {
            assert(v[k] == t);
        }
    }
    if contains_view(v, t) {
        let k = choose|k: int| 0 <= k < v.len() && v[k] == t;
        assert(v.push(x)[k] == t);
    }
    if t == x {
        assert(v.push(x)[v.len() as int] == t);
    }
}

/// The first position whose entry does not read strictly below `s`.
fn lower_bound(r: &Vec<String>, s: &str) -> (j: usize)
    ensures
        j <= r@.len(),
        forall|k: int| 0 <= k < j ==> lex_lt(#[trigger] views(r@)[k], s@),
        j < r@.len() ==> !lex_lt(views(r@)[j as int], s@),
{
    let mut j: usize = 0;
    while j < r.len()
        invariant
            j <= r@.len(),
            forall|k: int| 0 <= k < j ==> lex_lt(#[trigger] views(r@)[k], s@),
        decreases r@.len() - j,
    {
        if !str_lt(r[j].as_str(), s) {
            return j;
        }
        j = j + 1;
    }
    j
}

/// Inserts `s` into a sorted, duplicate-free list, keeping it so; a
/// path already present is left alone.
fn insert_unique(r: &mut Vec<String>, s: String)
    requires
        strictly_sorted(views(old(r)@)),
    ensures
        strictly_sorted(views(final(r)@)),
        forall|t: Seq<char>|
            #[trigger] contains_view(views(final(r)@), t) <==> (contains_view(
                views(old(r)@),
                t,
            ) || t == s@),
{
    let j = lower_bound(r, s.as_str());
    if j < r.len() {
        if !str_lt(s.as_str(), r[j].as_str()) {
            proof {
                lemma_lex_lt_connected(s@, r@[j as int]@);
                assert(views(r@)[j as int] == s@);
                assert forall|t: Seq<char>|
                    #[trigger] contains_view(views(r@), t) <==> (contains_view(views(r@), t) || t
                        == s@) by {
                    if t == s@ {
                        assert(views(r@)[j as int] == t);
                    }
                }
            }
            return ;
        }
    }
    let ghost before = r@;
    proof {
        assert(j < before.len() ==> lex_lt(s@, views(before)[j as int]));
    }
    r.insert(j, s);
    proof {
        before.insert_ensures(j as int, s);
        assert(r@ == before.insert(j as int, s));
        assert(views(r@).len() == before.len() + 1);
        assert(forall|k: int| 0 <= k < j ==> r@[k] == before[k]);
        assert(forall|k: int| 0 <= k < j ==> views(r@)[k] == #[trigger] views(before)[k]);
        assert(views(r@)[j as int] == s@);
        assert(forall|k: int| j <= k < before.len() ==> r@[k + 1] == before[k]);
        assert(forall|k: int|
            j < k < views(r@).len() ==> views(r@)[k] == #[trigger] views(before)[k - 1]);
        assert forall|x: int, y: int| 0 <= x < y < views(r@).len() implies lex_lt(
            #[trigger] views(r@)[x],
            #[trigger] views(r@)[y],
        ) by {
            let vb = views(before);
            if x == j {
                if y == j + 1 {
                    assert(lex_lt(s@, vb[j as int]));
                } else {
                    assert(lex_lt(vb[j as int], vb[y - 1]));
                    lemma_lex_lt_transitive(s@, vb[j as int], vb[y - 1]);
                }
            } else if y == j {
                assert(lex_lt(vb[x], s@));
            } else if x < j && y > j {
                if y == j + 1 {
                    assert(lex_lt(vb[x], s@));
                    assert(lex_lt(s@, vb[j as int]));
                    lemma_lex_lt_transitive(vb[x], s@, vb[j as int]);
                } else {
                    assert(lex_lt(vb[x], vb[y - 1]));
                }
            } else if x > j {
                assert(lex_lt(vb[x - 1], vb[y - 1]));
            } else {
                assert(lex_lt(vb[x], vb[y]));
            }
        };
        assert forall|t: Seq<char>|
            #[trigger] contains_view(views(r@), t) implies (contains_view(views(before), t) || t
            == s@) by {
            let k = choose|k: int| 0 <= k < views(r@).len() && views(r@)[k] == t;
            if k < j {
                assert(views(before)[k] == t);
            } else if k > j {
                assert(views(before)[k - 1] == t);
            }
        };
        assert forall|t: Seq<char>|
            (contains_view(views(before), t) || t == s@) implies #[trigger] contains_view(
            views(r@),
            t,
        ) by {
            if t == s@ {
                assert(views(r@)[j as int] == t);
            } else {
                let k = choose|k: int| 0 <= k < views(before).len() && views(before)[k] == t;
                if k < j {
                    assert(views(r@)[k] == t);
                } else {
                    assert(views(r@)[k + 1] == t);
                }
            }
        };
    }
}

/// Puts a gathered list of port paths into reported form: sorted
/// lexicographically, duplicates dropped, and exactly the gathered paths
/// kept — nothing added, nothing lost.
pub fn normalize_ports(ports: Vec<String>) -> (r: Vec<String>)
    ensures
        strictly_sorted(views(r@)),
        forall|i: int, j: int| 0 <= i < j < r@.len() ==> views(r@)[i] != views(r@)[j],
        forall|t: Seq<char>|
            #[trigger] contains_view(views(r@), t) <==> contains_view(views(ports@), t),
{
    let mut r: Vec<String> = Vec::new();
    let mut i: usize = 0;
    proof {
        assert(views(r@) =~= Seq::<Seq<char>>::empty());
        assert(views(ports@.take(0)) =~= Seq::<Seq<char>>::empty());
    }
    while i < ports.len()
        invariant
            i <= ports@.len(),
            strictly_sorted(views(r@)),
            forall|t: Seq<char>|
                #[trigger] contains_view(views(r@), t) <==> contains_view(
                    views(ports@.take(i as int)),
                    t,
                ),
        decreases ports@.len() - i,
    {
        let s = ports[i].clone();
        proof {
            assert(s@ == ports@[i as int]@);
        }
        insert_unique(&mut r, s);
        proof {
            assert(views(ports@.take(i as int + 1)) =~= views(ports@.take(i as int)).push(
                ports@[i as int]@,
            ));
            assert forall|t: Seq<char>| #[trigger]
                contains_view(views(r@), t) <==> contains_view(
                views(ports@.take(i as int + 1)),
                t,
            ) by {
                lemma_contains_push(views(ports@.take(i as int)), ports@[i as int]@, t);
            };
        }
        i = i + 1;
    }
    proof {
        assert(ports@.take(ports@.len() as int) =~= ports@);
        assert forall|x: int, y: int| 0 <= x < y < r@.len() implies views(r@)[x] != views(
            r@,
        )[y] by {
            if views(r@)[x] == views(r@)[y] {
                lemma_lex_lt_irreflexive(views(r@)[x]);
            }
        };
    }
    r
}

} // verus!
