use vstd::prelude::*;

verus! {

/// Whether `a` comes strictly before `b` in lexicographic order of characters, the
/// order in which `String`'s `Ord` compares (byte order of UTF-8 is code point order).
pub open spec fn text_lt(a: Seq<char>, b: Seq<char>) -> bool
    decreases a.len(),
{
    if b.len() == 0 {
        false
    } else if a.len() == 0 {
        true
    } else if a[0] != b[0] {
        a[0] < b[0]
    } else {
        text_lt(a.drop_first(), b.drop_first())
    }
}

pub proof fn lemma_text_lt_irreflexive(a: Seq<char>)
    ensures
        !text_lt(a, a),
    decreases a.len(),
{
    if a.len() > 0 {
        lemma_text_lt_irreflexive(a.drop_first());
    }
}

pub proof fn lemma_text_lt_transitive(a: Seq<char>, b: Seq<char>, c: Seq<char>)
    requires
        text_lt(a, b),
        text_lt(b, c),
    ensures
        text_lt(a, c),
    decreases a.len(),
{
    if a.len() > 0 && b.len() > 0 && c.len() > 0 && a[0] == b[0] && b[0] == c[0] {
        lemma_text_lt_transitive(a.drop_first(), b.drop_first(), c.drop_first());
    }
}

pub proof fn lemma_text_lt_total(a: Seq<char>, b: Seq<char>)
    ensures
        text_lt(a, b) || text_lt(b, a) || a == b,
    decreases a.len(),
{
    if a.len() > 0 && b.len() > 0 {
        if a[0] == b[0] {
            lemma_text_lt_total(a.drop_first(), b.drop_first());
            if a.drop_first() == b.drop_first() {
                assert(a =~= seq![a[0]] + a.drop_first());
                assert(b =~= seq![b[0]] + b.drop_first());
            }
        }
    } else if a.len() == 0 && b.len() == 0 {
        assert(a =~= b);
    }
}

/// Whether `a` comes strictly before `b`, comparing character by character.
pub fn str_lt(a: &str, b: &str) -> (r: bool)
    ensures
        r == text_lt(a@, b@),
{
    let n = a.unicode_len();
    let m = b.unicode_len();
    let mut i: usize = 0;
    assert(a@.skip(0) =~= a@);
    assert(b@.skip(0) =~= b@);
    while i < n && i < m
        invariant
            n == a@.len(),
            m == b@.len(),
            i <= n,
            i <= m,
            text_lt(a@, b@) == text_lt(a@.skip(i as int), b@.skip(i as int)),
        decreases n - i,
    {
        let x = a.get_char(i);
        let y = b.get_char(i);
        assert(a@.skip(i as int)[0] == x);
        assert(b@.skip(i as int)[0] == y);
        if x != y {
            return x < y;
        }
        assert(a@.skip(i as int).drop_first() =~= a@.skip(i + 1));
        assert(b@.skip(i as int).drop_first() =~= b@.skip(i + 1));
        i = i + 1;
    }
    i < m
}

/// Things that lists order by name.
pub trait Named {
    spec fn name_spec(&self) -> Seq<char>;

    fn name_str(&self) -> (r: &str)
        ensures
            r@ == self.name_spec(),
    ;
}

/// Where an item named `name` goes into a list ordered by name: after every item whose
/// name is not greater, so that items of equal name keep their order.
pub open spec fn name_position<T: Named>(s: Seq<T>, name: Seq<char>) -> int
    decreases s.len(),
{
    if s.len() == 0 {
        0
    } else if text_lt(name, s[0].name_spec()) {
        0
    } else {
        1 + name_position(s.drop_first(), name)
    }
}

/// `s` sorted by ascending name, stably (as `sort_by_key` on the name does).
pub open spec fn sort_by_name<T: Named>(s: Seq<T>) -> Seq<T>
    decreases s.len(),
{
    if s.len() == 0 {
        s
    } else {
        let r = sort_by_name(s.drop_last());
        r.insert(name_position(r, s.last().name_spec()), s.last())
    }
}

/// Whether no name along `s` comes before the one preceding it.
pub open spec fn is_sorted_by_name<T: Named>(s: Seq<T>) -> bool {
    forall|i: int, j: int| 0 <= i < j < s.len() ==> !text_lt(s[j].name_spec(), s[i].name_spec())
}

proof fn lemma_name_position_bounds<T: Named>(s: Seq<T>, name: Seq<char>)
    ensures
        0 <= name_position(s, name) <= s.len(),
        forall|k: int| 0 <= k < name_position(s, name) ==> !text_lt(name, #[trigger] s[k].name_spec()),
        name_position(s, name) < s.len() ==> text_lt(name, s[name_position(s, name)].name_spec()),
    decreases s.len(),
{
    if s.len() > 0 && !text_lt(name, s[0].name_spec()) {
        lemma_name_position_bounds(s.drop_first(), name);
        assert forall|k: int| 0 <= k < name_position(s, name) implies !text_lt(name, #[trigger] s[k].name_spec()) by {
            if k > 0 {
                assert(s[k] == s.drop_first()[k - 1]);
            }
        }
    }
}

proof fn lemma_name_position_at<T: Named>(s: Seq<T>, name: Seq<char>, j: int)
    requires
        0 <= j <= s.len(),
        forall|k: int| 0 <= k < j ==> !text_lt(name, #[trigger] s[k].name_spec()),
        j < s.len() ==> text_lt(name, s[j].name_spec()),
    ensures
        name_position(s, name) == j,
    decreases j,
{
    if j > 0 {
        assert forall|k: int| 0 <= k < j - 1 implies !text_lt(name, #[trigger] s.drop_first()[k].name_spec()) by {
            assert(s.drop_first()[k] == s[k + 1]);
        }
        lemma_name_position_at(s.drop_first(), name, j - 1);
    }
}

/// Sorting by name orders the names.
pub proof fn lemma_sort_by_name_is_sorted<T: Named>(s: Seq<T>)
    ensures
        is_sorted_by_name(sort_by_name(s)),
        sort_by_name(s).len() == s.len(),
    decreases s.len(),
{
    if s.len() > 0 {
        lemma_sort_by_name_is_sorted(s.drop_last());
        let r = sort_by_name(s.drop_last());
        let x = s.last();
        let p = name_position(r, x.name_spec());
        lemma_name_position_bounds(r, x.name_spec());
        let out = r.insert(p, x);
        assert forall|i: int, j: int| 0 <= i < j < out.len() implies !text_lt(
            out[j].name_spec(),
            out[i].name_spec(),
        ) by {
            if j < p {
            } else if j == p {
                assert(out[i] == r[i]);
                assert(!text_lt(x.name_spec(), r[i].name_spec()));
            } else if i < p {
                assert(out[j] == r[j - 1]);
                assert(out[i] == r[i]);
            } else if i == p {
                assert(out[j] == r[j - 1]);
                assert(text_lt(x.name_spec(), r[p].name_spec()));
                if j - 1 > p {
                    assert(!text_lt(r[j - 1].name_spec(), r[p].name_spec()));
                    lemma_text_lt_total(r[j - 1].name_spec(), r[p].name_spec());
                    if text_lt(r[j - 1].name_spec(), x.name_spec()) {
                        if r[j - 1].name_spec() == r[p].name_spec() {
                            lemma_text_lt_transitive(x.name_spec(), r[p].name_spec(), x.name_spec());
                            lemma_text_lt_irreflexive(x.name_spec());
                        } else {
                            lemma_text_lt_transitive(r[p].name_spec(), r[j - 1].name_spec(), x.name_spec());
                            lemma_text_lt_transitive(x.name_spec(), r[p].name_spec(), x.name_spec());
                            lemma_text_lt_irreflexive(x.name_spec());
                        }
                    }
                } else {
                    if text_lt(r[p].name_spec(), x.name_spec()) {
                        lemma_text_lt_transitive(x.name_spec(), r[p].name_spec(), x.name_spec());
                        lemma_text_lt_irreflexive(x.name_spec());
                    }
                }
            } else {
                assert(out[i] == r[i - 1]);
                assert(out[j] == r[j - 1]);
            }
        }
    }
}

/// Sorts `v` by ascending name; items of equal name keep their order.
pub fn sort_by_name_exec<T: Named>(v: Vec<T>) -> (r: Vec<T>)
    ensures
        r@ == sort_by_name(v@),
{
    let ghost all = v@;
    let mut rest = v;
    let mut out: Vec<T> = Vec::new();
    let ghost mut i: int = 0;
    assert(all.take(0) =~= Seq::<T>::empty());
    assert(all.skip(0) =~= all);
    while rest.len() > 0
        invariant
            all == v@,
            0 <= i <= all.len(),
            rest@ == all.skip(i),
            out@ == sort_by_name(all.take(i)),
        decreases rest.len(),
    {
        let x = rest.remove(0);
        assert(all.skip(i)[0] == x);
        assert(rest@ =~= all.skip(i + 1));
        assert(all.take(i + 1).drop_last() =~= all.take(i));
        assert(all.take(i + 1).last() == x);
        let ghost sorted = out@;
        proof {
            lemma_name_position_bounds(sorted, x.name_spec());
        }
        let mut j: usize = 0;
        while j < out.len() && !str_lt(x.name_str(), out[j].name_str())
            invariant
                j <= out@.len(),
                out@ == sorted,
                forall|k: int| 0 <= k < j ==> !text_lt(x.name_spec(), #[trigger] sorted[k].name_spec()),
            decreases out.len() - j,
        {
            j = j + 1;
        }
        proof {
            lemma_name_position_at(sorted, x.name_spec(), j as int);
        }
        out.insert(j, x);
        proof {
            i = i + 1;
        }
    }
    assert(all.take(i) =~= all);
    out
}

} // verus!
