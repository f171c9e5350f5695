//! Directory listings: filter out hidden names and sort the rest.
//!
//! A pane shows the names inside its working directory, sorted
//! case-insensitively and with hidden names (those starting with `.`)
//! excluded unless the user asked for them.  The sort is stable: names whose
//! sort keys tie keep the order in which the backend enumerated them.

use vstd::prelude::*;
use vstd::string::StrSliceExecFns;

use crate::strutil::{
    chars_le, chars_of, lemma_lex_total, lemma_lex_trans, lex_le, lower_of, lowercase,
};

verus! {

/// The key a name is sorted by: its lowercase form for the display sort,
/// or the name itself for the plain byte-order sort.
pub open spec fn sort_key(name: Seq<char>, case_insensitive: bool) -> Seq<char> {
    if case_insensitive {
        lower_of(name)
    } else {
        name
    }
}

/// `a` sorts at or before `b`.
pub open spec fn name_le(a: Seq<char>, b: Seq<char>, case_insensitive: bool) -> bool {
    lex_le(sort_key(a, case_insensitive), sort_key(b, case_insensitive))
}

/// A name survives the listing filter: it is non-empty, and it is not hidden
/// unless hidden names were asked for.
pub open spec fn keeps(name: Seq<char>, show_hidden: bool) -> bool {
    name.len() > 0 && (show_hidden || name[0] != '.')
}

/// The names that survive the listing filter, in enumeration order.
pub open spec fn filter_kept(names: Seq<Seq<char>>, show_hidden: bool) -> Seq<Seq<char>> {
    names.filter(|n: Seq<char>| keeps(n, show_hidden))
}

/// `x` placed into the already sorted `t`, after every element whose key is
/// at or below the key of `x` — so a run of equal keys keeps its order.
pub open spec fn insert_name(t: Seq<Seq<char>>, x: Seq<char>, case_insensitive: bool) -> Seq<
    Seq<char>,
>
    decreases t.len(),
{
    if t.len() == 0 {
        seq![x]
    } else if name_le(t.last(), x, case_insensitive) {
        t.push(x)
    } else {
        insert_name(t.drop_last(), x, case_insensitive).push(t.last())
    }
}

/// The stable sort of `names` by key: each name in turn inserted after its
/// equals.
pub open spec fn sort_names_spec(names: Seq<Seq<char>>, case_insensitive: bool) -> Seq<Seq<char>>
    decreases names.len(),
{
    if names.len() == 0 {
        Seq::empty()
    } else {
        insert_name(
            sort_names_spec(names.drop_last(), case_insensitive),
            names.last(),
            case_insensitive,
        )
    }
}

/// Every pair of listed names is in key order.
pub open spec fn sorted_by_key(s: Seq<Seq<char>>, case_insensitive: bool) -> bool {
    forall|i: int, j: int| 0 <= i < j < s.len() ==> name_le(#[trigger] s[i], #[trigger] s[j], case_insensitive)
}

/// Decide the sort order of two names.
pub fn name_le_exec(a: &String, b: &String, case_insensitive: bool) -> (r: bool)
    ensures
        r == name_le(a@, b@, case_insensitive),
{
    if case_insensitive {
        let la = lowercase(a.as_str());
        let lb = lowercase(b.as_str());
        let ca = chars_of(la.as_str());
        let cb = chars_of(lb.as_str());
        chars_le(&ca, &cb)
    } else {
        let ca = chars_of(a.as_str());
        let cb = chars_of(b.as_str());
        chars_le(&ca, &cb)
    }
}

/// Decide the listing filter for one name.
pub fn keeps_exec(name: &String, show_hidden: bool) -> (r: bool)
    ensures
        r == keeps(name@, show_hidden),
{
    if name.as_str().is_empty() {
        false
    } else if show_hidden {
        true
    } else {
        name.as_str().get_char(0) != '.'
    }
}

proof fn lemma_insert_at(t: Seq<Seq<char>>, x: Seq<char>, ci: bool, j: int)
    requires
        0 <= j <= t.len(),
        forall|k: int| j <= k < t.len() ==> !name_le(#[trigger] t[k], x, ci),
        j > 0 ==> name_le(t[j - 1], x, ci),
    ensures
        insert_name(t, x, ci) == t.take(j) + seq![x] + t.skip(j),
    decreases t.len(),
{
    if t.len() == 0 {
        assert(insert_name(t, x, ci) =~= t.take(j) + seq![x] + t.skip(j));
    } else if j == t.len() {
        assert(name_le(t.last(), x, ci));
        assert(t.take(j) + seq![x] + t.skip(j) =~= t.push(x));
    } else {
        assert(!name_le(t[t.len() - 1], x, ci));
        let t2 = t.drop_last();
        lemma_insert_at(t2, x, ci, j);
        assert((t2.take(j) + seq![x] + t2.skip(j)).push(t[t.len() - 1]) =~= t.take(j) + seq![x]
            + t.skip(j));
    }
}

/// Insert one kept name into an already sorted vector, keeping it sorted and
/// placing ties after their equals.
fn insert_sorted(v: Vec<String>, x: String, case_insensitive: bool) -> (r: Vec<String>)
    ensures
        r.deep_view() == insert_name(v.deep_view(), x@, case_insensitive),
{
    let ghost t = v.deep_view();
    let ghost xv = x@;
    let mut j: usize = v.len();
    loop
        invariant
            0 <= j <= v.len(),
            v.deep_view() == t,
            xv == x@,
            forall|k: int| j <= k < t.len() ==> !name_le(#[trigger] t[k], xv, case_insensitive),
        ensures
            0 <= j <= v.len(),
            v.deep_view() == t,
            forall|k: int| j <= k < t.len() ==> !name_le(#[trigger] t[k], xv, case_insensitive),
            j > 0 ==> name_le(t[j - 1], xv, case_insensitive),
        decreases j,
    {
        if j == 0 {
            break ;
        }
        proof {
            assert(t[j - 1] == v@[j - 1]@);
        }
        let le = name_le_exec(&v[j - 1], &x, case_insensitive);
        if le {
            break ;
        }
        j = j - 1;
    }
    proof {
        lemma_insert_at(t, xv, case_insensitive, j as int);
    }
    let mut v = v;
    v.insert(j, x);
    proof {
        assert(v.deep_view() =~= t.take(j as int) + seq![xv] + t.skip(j as int));
    }
    v
}

/// Filter and stable-sort a raw listing: hidden names are dropped unless
/// asked for, empty names are dropped, and the rest are sorted by key.
pub fn sort_names(names: &Vec<String>, show_hidden: bool, case_insensitive: bool) -> (r: Vec<
    String,
>)
    ensures
        r.deep_view() == sort_names_spec(
            filter_kept(names.deep_view(), show_hidden),
            case_insensitive,
        ),
{
    let ghost all = names.deep_view();
    let mut acc: Vec<String> = Vec::new();
    let mut i: usize = 0;
    proof {
        assert(all.take(0) =~= Seq::<Seq<char>>::empty());
        reveal(Seq::filter);
        assert(acc.deep_view() =~= Seq::<Seq<char>>::empty());
    }
    while i < names.len()
        invariant
            0 <= i <= names.len(),
            all == names.deep_view(),
            acc.deep_view() == sort_names_spec(
                filter_kept(all.take(i as int), show_hidden),
                case_insensitive,
            ),
        decreases names.len() - i,
    {
        let name = names[i].clone();
        proof {
            assert(name@ == all[i as int]);
        }
        let ghost q = filter_kept(all.take(i as int), show_hidden);
        if keeps_exec(&name, show_hidden) {
            acc = insert_sorted(acc, name, case_insensitive);
        }
        proof {
            reveal(Seq::filter);
            let p = all.take(i as int + 1);
            assert(p.drop_last() =~= all.take(i as int));
            assert(p.last() == all[i as int]);
            if keeps(all[i as int], show_hidden) {
                assert(filter_kept(p, show_hidden) == q.push(all[i as int]));
                assert(filter_kept(p, show_hidden).drop_last() =~= q);
                assert(filter_kept(p, show_hidden).len() > 0);
                assert(sort_names_spec(filter_kept(p, show_hidden), case_insensitive)
                    == insert_name(
                    sort_names_spec(q, case_insensitive),
                    all[i as int],
                    case_insensitive,
                ));
            } else {
                assert(filter_kept(p, show_hidden) == q);
            }
        }
        i = i + 1;
    }
    proof {
        assert(all.take(all.len() as int) =~= all);
    }
    acc
}

/// Stable-sort a raw listing without filtering anything out.
pub fn sort_plain(names: Vec<String>) -> (r: Vec<String>)
    ensures
        r.deep_view() == sort_names_spec(names.deep_view(), false),
{
    let ghost all = names.deep_view();
    let mut acc: Vec<String> = Vec::new();
    let mut i: usize = 0;
    proof {
        assert(all.take(0) =~= Seq::<Seq<char>>::empty());
        assert(acc.deep_view() =~= Seq::<Seq<char>>::empty());
    }
    while i < names.len()
        invariant
            0 <= i <= names.len(),
            all == names.deep_view(),
            acc.deep_view() == sort_names_spec(all.take(i as int), false),
        decreases names.len() - i,
    {
        let name = names[i].clone();
        proof {
            assert(name@ == all[i as int]);
        }
        acc = insert_sorted(acc, name, false);
        proof {
            let p = all.take(i as int + 1);
            assert(p.drop_last() =~= all.take(i as int));
            assert(p.last() == all[i as int]);
        }
        i = i + 1;
    }
    proof {
        assert(all.take(all.len() as int) =~= all);
    }
    acc
}

proof fn lemma_insert_multiset(t: Seq<Seq<char>>, x: Seq<char>, ci: bool)
    ensures
        insert_name(t, x, ci).to_multiset() == t.to_multiset().insert(x),
    decreases t.len(),
{
    broadcast use vstd::seq_lib::group_to_multiset_ensures;

    if t.len() == 0 {
        assert(insert_name(t, x, ci) =~= Seq::<Seq<char>>::empty().push(x));
        assert(t =~= Seq::<Seq<char>>::empty());
    } else if name_le(t.last(), x, ci) {
    } else {
        lemma_insert_multiset(t.drop_last(), x, ci);
        assert(t.drop_last().push(t.last()) =~= t);
        assert(t.drop_last().push(t.last()).to_multiset() == t.to_multiset());
        assert(insert_name(t, x, ci).to_multiset() == insert_name(t.drop_last(), x, ci)
            .to_multiset()
            .insert(t.last()));
        assert(t.to_multiset() == t.drop_last().to_multiset().insert(t.last()));
        assert(t.drop_last().to_multiset().insert(x).insert(t.last()) == t.drop_last()
            .to_multiset()
            .insert(t.last())
            .insert(x));
    }
}

/// Sorting rearranges the kept names and invents or loses none: the sorted
/// listing holds exactly the names that survive the filter.
pub proof fn lemma_sort_names_perm(names: Seq<Seq<char>>, ci: bool)
    ensures
        sort_names_spec(names, ci).to_multiset() == names.to_multiset(),
    decreases names.len(),
{
    broadcast use vstd::seq_lib::group_to_multiset_ensures;

    if names.len() == 0 {
        assert(sort_names_spec(names, ci) =~= names);
    } else {
        lemma_sort_names_perm(names.drop_last(), ci);
        lemma_insert_multiset(sort_names_spec(names.drop_last(), ci), names.last(), ci);
        assert(names.drop_last().push(names.last()) =~= names);
        assert(names.drop_last().push(names.last()).to_multiset() == names.to_multiset());
    }
}

proof fn lemma_insert_sorted_pres(t: Seq<Seq<char>>, x: Seq<char>, ci: bool)
    requires
        sorted_by_key(t, ci),
    ensures
        sorted_by_key(insert_name(t, x, ci), ci),
    decreases t.len(),
{
    broadcast use vstd::seq_lib::group_to_multiset_ensures;

    if t.len() == 0 {
    } else if name_le(t.last(), x, ci) {
        let u = t.push(x);
        assert forall|i: int, j: int| 0 <= i < j < u.len() implies name_le(u[i], u[j], ci) by {
            if j == u.len() - 1 {
                if i < t.len() - 1 {
                    lemma_lex_trans(
                        sort_key(t[i], ci),
                        sort_key(t[t.len() - 1], ci),
                        sort_key(x, ci),
                    );
                }
            }
        }
    } else {
        let t2 = t.drop_last();
        let last = t[t.len() - 1];
        lemma_insert_sorted_pres(t2, x, ci);
        let u2 = insert_name(t2, x, ci);
        let u = u2.push(last);
        assert(insert_name(t, x, ci) == u);
        lemma_insert_multiset(t2, x, ci);
        assert forall|i: int, j: int| 0 <= i < j < u.len() implies name_le(u[i], u[j], ci) by {
            if j == u.len() - 1 {
                assert(u[i] == u2[i]);
                assert(u2.to_multiset().contains(u2[i]));
                assert(u2.to_multiset() == t2.to_multiset().insert(x));
                if u2[i] == x {
                    lemma_lex_total(sort_key(last, ci), sort_key(x, ci));
                } else {
                    assert(t2.to_multiset().contains(u2[i]));
                    assert(t2.contains(u2[i]));
                    let k = choose|k: int| 0 <= k < t2.len() && t2[k] == u2[i];
                    assert(name_le(t[k], t[t.len() - 1], ci));
                }
            }
        }
    }
}

/// The listing order: every sorted listing is in key order from first to
/// last.
pub proof fn lemma_sort_names_sorted(names: Seq<Seq<char>>, ci: bool)
    ensures
        sorted_by_key(sort_names_spec(names, ci), ci),
    decreases names.len(),
{
    if names.len() == 0 {
    } else {
        lemma_sort_names_sorted(names.drop_last(), ci);
        lemma_insert_sorted_pres(sort_names_spec(names.drop_last(), ci), names.last(), ci);
    }
}

/// Everything a filtered, sorted listing shows survives the filter: no
/// hidden name appears unasked, and no empty name appears at all.
pub proof fn lemma_sort_names_kept(names: Seq<Seq<char>>, show_hidden: bool, ci: bool)
    ensures
        forall|i: int|
            0 <= i < sort_names_spec(filter_kept(names, show_hidden), ci).len() ==> keeps(
                #[trigger] sort_names_spec(filter_kept(names, show_hidden), ci)[i],
                show_hidden,
            ),
{
    broadcast use vstd::seq_lib::group_to_multiset_ensures;

    let f = filter_kept(names, show_hidden);
    let s = sort_names_spec(f, ci);
    lemma_sort_names_perm(f, ci);
    assert forall|i: int| 0 <= i < s.len() implies keeps(s[i], show_hidden) by {
        assert(s.to_multiset().contains(s[i]));
        assert(f.to_multiset().contains(s[i]));
        assert(f.contains(s[i]));
        let k = choose|k: int| 0 <= k < f.len() && f[k] == s[i];
        names.lemma_filter_pred(|n: Seq<char>| keeps(n, show_hidden), k);
    }
}

/// The filter keeps names, never reorders counts: the kept names of a raw
/// enumeration are, as a multiset, exactly the raw names that pass the
/// filter.
pub proof fn lemma_filter_kept_multiset(s: Seq<Seq<char>>, show_hidden: bool)
    ensures
        filter_kept(s, show_hidden).to_multiset() == s.to_multiset().filter(
            |n: Seq<char>| keeps(n, show_hidden),
        ),
    decreases s.len(),
{
    broadcast use vstd::seq_lib::group_to_multiset_ensures;
    broadcast use vstd::multiset::group_multiset_axioms;

    reveal(Seq::filter);
    let pred = |n: Seq<char>| keeps(n, show_hidden);
    if s.len() == 0 {
        assert(filter_kept(s, show_hidden) =~= Seq::<Seq<char>>::empty());
        assert(filter_kept(s, show_hidden).to_multiset() =~= s.to_multiset().filter(pred));
    } else {
        let dl = s.drop_last();
        let last = s.last();
        lemma_filter_kept_multiset(dl, show_hidden);
        assert(dl.push(last) =~= s);
        assert(dl.push(last).to_multiset() == s.to_multiset());
        assert(s.to_multiset() == dl.to_multiset().insert(last));
        if pred(last) {
            assert(filter_kept(s, show_hidden) == filter_kept(dl, show_hidden).push(last));
            assert(filter_kept(s, show_hidden).to_multiset() == filter_kept(dl, show_hidden)
                .to_multiset()
                .insert(last));
            assert forall|v: Seq<char>| true implies filter_kept(s, show_hidden)
                .to_multiset()
                .count(v) == s.to_multiset().filter(pred).count(v) by {
                assert(filter_kept(s, show_hidden).to_multiset().count(v) == filter_kept(
                    dl,
                    show_hidden,
                ).to_multiset().count(v) + if v == last {
                    1int
                } else {
                    0int
                });
                assert(s.to_multiset().count(v) == dl.to_multiset().count(v) + if v == last {
                    1int
                } else {
                    0int
                });
            }
            assert(filter_kept(s, show_hidden).to_multiset() =~= s.to_multiset().filter(pred));
        } else {
            assert(filter_kept(s, show_hidden) == filter_kept(dl, show_hidden));
            assert forall|v: Seq<char>| true implies filter_kept(s, show_hidden)
                .to_multiset()
                .count(v) == s.to_multiset().filter(pred).count(v) by {
                assert(s.to_multiset().count(v) == dl.to_multiset().count(v) + if v == last {
                    1int
                } else {
                    0int
                });
            }
            assert(filter_kept(s, show_hidden).to_multiset() =~= s.to_multiset().filter(pred));
        }
    }
}

} // verus!
