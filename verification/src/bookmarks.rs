//! Bookmark-menu preparation: the bookmarks file is a list of lines, of
//! which the empty ones, the `#`-comments and the `/`-prefixed ones are
//! dropped; the rest are sorted ascending and joined into the menu body.

use vstd::prelude::*;

verus! {

use crate::text::{lex_le, lemma_lex_total, lemma_lex_trans, str_le};
use vstd::multiset::Multiset;
use vstd::string::{StrSliceExecFns, StringExecFns};

/// A bookmarks-file line that is kept: non-empty, no `#` comment, no
/// `/`-prefixed line.
pub open spec fn keeps_line(l: Seq<char>) -> bool {
    l.len() > 0 && l[0] != '#' && l[0] != '/'
}

/// Every pair of a sorted sequence is in lexicographic order.
pub open spec fn sorted_lex(s: Seq<Seq<char>>) -> bool {
    forall|i: int, j: int| 0 <= i < j < s.len() ==> lex_le(s[i], s[j])
}

/// The kept lines of a list, in their original order.
pub open spec fn spec_kept(lines: Seq<Seq<char>>) -> Seq<Seq<char>> {
    lines.filter(|l: Seq<char>| keeps_line(l))
}

/// Nothing is kept of an empty list.
pub proof fn lemma_kept_empty()
    ensures
        spec_kept(Seq::<Seq<char>>::empty()) == Seq::<Seq<char>>::empty(),
{
    reveal(Seq::filter);
}

/// Appending a line keeps it exactly when the exclusion rule admits it.
pub proof fn lemma_kept_push(s: Seq<Seq<char>>, l: Seq<char>)
    ensures
        spec_kept(s.push(l)) == if keeps_line(l) {
            spec_kept(s).push(l)
        } else {
            spec_kept(s)
        },
{
    broadcast use Seq::lemma_filter_push;

}

/// The kept lines of a bookmarks file, in their original order.
pub fn filter_bookmark_lines(lines: &Vec<String>) -> (r: Vec<String>)
    ensures
        r.deep_view() == spec_kept(lines.deep_view()),
{
    broadcast use Seq::lemma_take_succ_push, Seq::lemma_take_len;

    let mut r: Vec<String> = Vec::new();
    let mut i: usize = 0;
    proof {
        assert(lines.deep_view().take(0) =~= Seq::<Seq<char>>::empty());
        lemma_kept_empty();
        assert(r.deep_view() =~= Seq::<Seq<char>>::empty());
    }
    while i < lines.len()
        invariant
            0 <= i <= lines.len(),
            lines.deep_view().len() == lines.len(),
            forall|k: int|
                0 <= k < lines.len() ==> lines.deep_view()[k] == #[trigger] lines@[k]@,
            r.deep_view() == spec_kept(lines.deep_view().take(i as int)),
        decreases lines.len() - i,
    {
        broadcast use Seq::lemma_take_succ_push;

        let line = &lines[i];
        let keep = if line.as_str().unicode_len() == 0 {
            false
        } else {
            let c = line.as_str().get_char(0);
            c != '#' && c != '/'
        };
        let ghost prev = r.deep_view();
        if keep {
            r.push(line.clone());
            proof {
                assert(r.deep_view() =~= prev.push(line@));
            }
        }
        proof {
            assert(line@ == lines@[i as int]@);
            assert(line@ == lines.deep_view()[i as int]);
            assert(keep == keeps_line(line@));
            assert(lines.deep_view().take(i + 1) == lines.deep_view().take(i as int).push(
                lines.deep_view()[i as int],
            ));
            lemma_kept_push(lines.deep_view().take(i as int), line@);
        }
        i += 1;
    }
    proof {
        assert(lines.deep_view().take(lines.len() as int) == lines.deep_view());
    }
    r
}

/// The exclusion rule is idempotent: filtering an already-filtered list
/// changes nothing.
pub proof fn lemma_kept_idempotent(lines: Seq<Seq<char>>)
    ensures
        spec_kept(spec_kept(lines)) == spec_kept(lines),
{
    broadcast use Seq::lemma_filter_pred, Seq::lemma_filter_len;

    lemma_kept_all(spec_kept(lines));
}

/// A list every line of which the rule admits filters to itself.
proof fn lemma_kept_all(s: Seq<Seq<char>>)
    requires
        forall|i: int| 0 <= i < s.len() ==> keeps_line(#[trigger] s[i]),
    ensures
        spec_kept(s) == s,
    decreases s.len(),
{
    reveal(Seq::filter);
    if s.len() > 0 {
        lemma_kept_all(s.drop_last());
    }
}

/// The exclusion rule applied to a multiset of lines.
pub open spec fn spec_kept_multiset(m: Multiset<Seq<char>>) -> Multiset<Seq<char>> {
    m.filter(|l: Seq<char>| keeps_line(l))
}

/// Which lines are kept depends only on the lines themselves, not on their
/// order: the kept lines of a list are the rule applied to its multiset.
pub proof fn lemma_kept_to_multiset(s: Seq<Seq<char>>)
    ensures
        spec_kept(s).to_multiset() == spec_kept_multiset(s.to_multiset()),
    decreases s.len(),
{
    broadcast use vstd::multiset::group_multiset_axioms;

    s.to_multiset_ensures();
    if s.len() == 0 {
        lemma_kept_empty();
        spec_kept(s).to_multiset_ensures();
        assert(spec_kept(s).to_multiset() =~= spec_kept_multiset(s.to_multiset()));
    } else {
        let d = s.drop_last();
        let l = s.last();
        lemma_kept_to_multiset(d);
        assert(s =~= d.push(l));
        lemma_kept_push(d, l);
        d.to_multiset_ensures();
        spec_kept(d).to_multiset_ensures();
        assert(spec_kept_multiset(d.to_multiset().insert(l)) =~= if keeps_line(l) {
            spec_kept_multiset(d.to_multiset()).insert(l)
        } else {
            spec_kept_multiset(d.to_multiset())
        });
    }
}

/// The exclusion rule is order-independent: lists holding the same lines
/// keep the same lines, whatever their order.
pub proof fn lemma_kept_order_independent(a: Seq<Seq<char>>, b: Seq<Seq<char>>)
    requires
        a.to_multiset() == b.to_multiset(),
    ensures
        spec_kept(a).to_multiset() == spec_kept(b).to_multiset(),
{
    lemma_kept_to_multiset(a);
    lemma_kept_to_multiset(b);
}

/// Only one sorted arrangement of any multiset of lines exists, so the
/// contracts of the sort, and of the whole bookmark preparation, pin
/// their results completely.
pub proof fn lemma_sorted_unique(a: Seq<Seq<char>>, b: Seq<Seq<char>>)
    requires
        sorted_lex(a),
        sorted_lex(b),
        a.to_multiset() == b.to_multiset(),
    ensures
        a == b,
    decreases a.len(),
{
    a.to_multiset_ensures();
    b.to_multiset_ensures();
    assert(a.len() == b.len());
    if a.len() == 0 {
        assert(a =~= b);
    } else {
        assert(a.contains(a[0]));
        assert(b.to_multiset().count(a[0]) > 0);
        assert(b.contains(a[0]));
        let j = choose|j: int| 0 <= j < b.len() && b[j] == a[0];
        assert(lex_le(b[0], a[0])) by {
            if j == 0 {
                lemma_lex_total(b[0], b[0]);
            } else {
                assert(lex_le(b[0], b[j]));
            }
        }
        assert(b.contains(b[0]));
        assert(a.to_multiset().count(b[0]) > 0);
        assert(a.contains(b[0]));
        let k = choose|k: int| 0 <= k < a.len() && a[k] == b[0];
        assert(lex_le(a[0], b[0])) by {
            if k == 0 {
                lemma_lex_total(a[0], a[0]);
            } else {
                assert(lex_le(a[0], a[k]));
            }
        }
        crate::text::lemma_lex_antisym(a[0], b[0]);
        assert(a.remove(0) =~= a.drop_first());
        assert(b.remove(0) =~= b.drop_first());
        assert(a.remove(0).to_multiset() =~= a.to_multiset().remove(a[0]));
        assert(b.remove(0).to_multiset() =~= b.to_multiset().remove(b[0]));
        assert(a.drop_first().to_multiset() =~= b.drop_first().to_multiset());
        assert(sorted_lex(a.drop_first())) by {
            assert forall|x: int, y: int|
                0 <= x < y < a.drop_first().len() implies lex_le(
                a.drop_first()[x],
                a.drop_first()[y],
            ) by {
                assert(a.drop_first()[x] == a[x + 1] && a.drop_first()[y] == a[y + 1]);
            }
        }
        assert(sorted_lex(b.drop_first())) by {
            assert forall|x: int, y: int|
                0 <= x < y < b.drop_first().len() implies lex_le(
                b.drop_first()[x],
                b.drop_first()[y],
            ) by {
                assert(b.drop_first()[x] == b[x + 1] && b.drop_first()[y] == b[y + 1]);
            }
        }
        lemma_sorted_unique(a.drop_first(), b.drop_first());
        assert forall|i: int| 0 <= i < a.len() implies a[i] == b[i] by {
            if i > 0 {
                assert(a[i] == a.drop_first()[i - 1]);
                assert(b[i] == b.drop_first()[i - 1]);
            }
        }
        assert(a =~= b);
    }
}

/// The full bookmark-menu preparation: drop the excluded lines, then sort
/// ascending. The result is sorted and holds exactly the kept lines.
pub fn prepare_bookmarks(lines: &Vec<String>) -> (r: Vec<String>)
    ensures
        sorted_lex(r.deep_view()),
        r.deep_view().to_multiset() == spec_kept(lines.deep_view()).to_multiset(),
{
    let kept = filter_bookmark_lines(lines);
    sort_lines(kept)
}

/// The path of the bookmarks file under the home directory.
pub fn bookmarks_path(home: &str) -> (r: String)
    ensures
        r@ == home@ + "/.config/surfraw/bookmarks"@,
{
    let mut r = home.to_owned();
    r.append("/.config/surfraw/bookmarks");
    r
}

/// Inserting an element anywhere in a sequence inserts it once into the
/// sequence's multiset.
proof fn lemma_insert_to_multiset<A>(s: Seq<A>, p: int, v: A)
    requires
        0 <= p <= s.len(),
    ensures
        s.insert(p, v).to_multiset() == s.to_multiset().insert(v),
{
    broadcast use Seq::to_multiset_ensures;
    broadcast use vstd::multiset::group_multiset_axioms;

    let t = s.insert(p, v);
    s.insert_ensures(p, v);
    t.to_multiset_ensures();
    s.to_multiset_ensures();
    assert(t.len() == s.len() + 1);
    assert(t[p] == v);
    assert(t.remove(p) =~= s);
    assert(t.remove(p).to_multiset() =~= t.to_multiset().remove(t[p]));
    assert(t.contains(v));
    assert(t.to_multiset().count(v) > 0);
    assert(t.to_multiset() =~= s.to_multiset().insert(v));
}

/// The first position in sorted `r` at which `x` may be inserted while
/// keeping the order.
fn find_insert_pos(r: &Vec<String>, x: &str) -> (p: usize)
    requires
        sorted_lex(r.deep_view()),
    ensures
        p <= r.len(),
        forall|j: int| 0 <= j < p ==> lex_le(r.deep_view()[j], x@),
        forall|j: int| p <= j < r.deep_view().len() ==> lex_le(x@, r.deep_view()[j]),
{
    let mut p: usize = 0;
    while p < r.len()
        invariant
            0 <= p <= r.len(),
            r.deep_view().len() == r.len(),
            sorted_lex(r.deep_view()),
            forall|k: int| 0 <= k < r.len() ==> r.deep_view()[k] == #[trigger] r@[k]@,
            forall|j: int| 0 <= j < p ==> lex_le(r.deep_view()[j], x@),
        decreases r.len() - p,
    {
        if !str_le(r[p].as_str(), x) {
            proof {
                lemma_lex_total(r.deep_view()[p as int], x@);
                assert forall|j: int| p <= j < r.deep_view().len() implies lex_le(
                    x@,
                    r.deep_view()[j],
                ) by {
                    if j > p {
                        lemma_lex_trans(x@, r.deep_view()[p as int], r.deep_view()[j]);
                    }
                }
            }
            return p;
        }
        p += 1;
    }
    p
}

/// The lines sorted ascending in lexicographic order; a permutation of the
/// input.
pub fn sort_lines(lines: Vec<String>) -> (r: Vec<String>)
    ensures
        sorted_lex(r.deep_view()),
        r.deep_view().to_multiset() == lines.deep_view().to_multiset(),
{
    broadcast use Seq::to_multiset_ensures, Seq::lemma_take_succ_push, Seq::lemma_take_len;

    let mut r: Vec<String> = Vec::new();
    let mut i: usize = 0;
    proof {
        assert(lines.deep_view().take(0) =~= Seq::<Seq<char>>::empty());
        assert(r.deep_view() =~= Seq::<Seq<char>>::empty());
        assert(r.deep_view().to_multiset() =~= lines.deep_view().take(0).to_multiset());
    }
    while i < lines.len()
        invariant
            0 <= i <= lines.len(),
            lines.deep_view().len() == lines.len(),
            forall|k: int|
                0 <= k < lines.len() ==> lines.deep_view()[k] == #[trigger] lines@[k]@,
            sorted_lex(r.deep_view()),
            r.deep_view().to_multiset() == lines.deep_view().take(i as int).to_multiset(),
        decreases lines.len() - i,
    {
        broadcast use Seq::to_multiset_ensures, Seq::lemma_take_succ_push;

        let x = lines[i].clone();
        let p = find_insert_pos(&r, x.as_str());
        let ghost prev = r.deep_view();
        r.insert(p, x);
        proof {
            assert(r.deep_view() =~= prev.insert(p as int, x@));
            lemma_insert_to_multiset(prev, p as int, x@);
            assert forall|a: int, b: int|
                0 <= a < b < r.deep_view().len() implies lex_le(
                r.deep_view()[a],
                r.deep_view()[b],
            ) by {
                let dv = r.deep_view();
                if b < p {
                    assert(dv[a] == prev[a] && dv[b] == prev[b]);
                } else if a > p {
                    assert(dv[a] == prev[a - 1] && dv[b] == prev[b - 1]);
                } else if a == p {
                    assert(dv[a] == x@ && dv[b] == prev[b - 1]);
                } else if b == p {
                    assert(dv[a] == prev[a] && dv[b] == x@);
                } else {
                    assert(a < p && b > p);
                    assert(dv[a] == prev[a] && dv[b] == prev[b - 1]);
                    lemma_lex_trans(prev[a], x@, prev[b - 1]);
                }
            }
            assert(x@ == lines@[i as int]@);
            assert(x@ == lines.deep_view()[i as int]);
            lines.deep_view().take(i as int).to_multiset_ensures();
            assert(lines.deep_view().take(i + 1) == lines.deep_view().take(i as int).push(
                lines.deep_view()[i as int],
            ));
            assert(lines.deep_view().take(i + 1).to_multiset() =~= lines.deep_view().take(
                i as int,
            ).to_multiset().insert(x@));
        }
        i += 1;
    }
    proof {
        assert(lines.deep_view().take(lines.len() as int) == lines.deep_view());
    }
    r
}

} // verus!
