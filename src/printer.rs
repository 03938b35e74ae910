use crate::discord::InviteInfo;
use vstd::multiset::Multiset;
use vstd::prelude::*;
use vstd::seq_lib::{to_multiset_insert, to_multiset_remove};

verus! {

/// Whether records are ordered by member count, largest first.
pub open spec fn by_members_desc(s: Seq<InviteInfo>) -> bool {
    forall|i: int, j: int|
        0 <= i < j < s.len() ==> (#[trigger] s[i]).approximate_member_count
            >= (#[trigger] s[j]).approximate_member_count
}

/// Whether a record has `c` members.
pub open spec fn has_count(c: usize) -> spec_fn(InviteInfo) -> bool {
    |x: InviteInfo| x.approximate_member_count == c
}

proof fn lemma_singleton_filter(x: InviteInfo, c: usize)
    ensures
        seq![x].filter(has_count(c)) == if x.approximate_member_count == c {
            seq![x]
        } else {
            Seq::<InviteInfo>::empty()
        },
{
    let e = Seq::<InviteInfo>::empty();
    e.lemma_filter_prepend(x, has_count(c));
    assert(seq![x] + e =~= seq![x]);
    e.lemma_all_neg_filter_empty(has_count(c));
    assert(e.filter(has_count(c)) =~= e);
    assert(seq![x] + e.filter(has_count(c)) =~= seq![x]);
}

/// Inserting `x` after every record with at least as many members, in a
/// list ordered largest first, appends it to the records of its own count
/// and leaves the records of every other count as they were.
proof fn lemma_insert_keeps_groups(s: Seq<InviteInfo>, p: int, x: InviteInfo, c: usize)
    requires
        by_members_desc(s),
        0 <= p <= s.len(),
        forall|k: int| 0 <= k < p ==> (#[trigger] s[k]).approximate_member_count >= x.approximate_member_count,
        p < s.len() ==> s[p].approximate_member_count < x.approximate_member_count,
    ensures
        s.insert(p, x).filter(has_count(c)) == if x.approximate_member_count == c {
            s.filter(has_count(c)).push(x)
        } else {
            s.filter(has_count(c))
        },
{
    let pc = has_count(c);
    let a = s.subrange(0, p);
    let b = s.subrange(p, s.len() as int);
    assert(s =~= a + b);
    assert(s.insert(p, x) =~= a + (seq![x] + b));
    Seq::filter_distributes_over_add(a, seq![x] + b, pc);
    Seq::filter_distributes_over_add(seq![x], b, pc);
    Seq::filter_distributes_over_add(a, b, pc);
    lemma_singleton_filter(x, c);
    if x.approximate_member_count == c {
        assert(b.all(|y: InviteInfo| !pc(y))) by {
            assert forall|k: int| 0 <= k < b.len() implies !pc(#[trigger] b[k]) by {
                assert(b[k] == s[p + k]);
                if k > 0 {
                    assert(s[p].approximate_member_count >= s[p + k].approximate_member_count);
                }
            }
        }
        b.lemma_all_neg_filter_empty(pc);
        assert(b.filter(pc) =~= Seq::<InviteInfo>::empty());
        assert(s.insert(p, x).filter(pc) =~= s.filter(pc).push(x));
    } else {
        assert(s.insert(p, x).filter(pc) =~= s.filter(pc));
    }
}

/// Orders records for display by member count, largest first. Records with
/// equal counts keep their relative order.
pub fn sort_by_member_count(results: Vec<InviteInfo>) -> (r: Vec<InviteInfo>)
    ensures
        by_members_desc(r@),
        r@.to_multiset() == results@.to_multiset(),
        forall|c: usize| #[trigger] r@.filter(has_count(c)) == results@.filter(has_count(c)),
{
    broadcast use vstd::multiset::group_multiset_axioms;

    let mut rest = results;
    let mut sorted: Vec<InviteInfo> = Vec::new();
    proof {
        sorted@.to_multiset_ensures();
        vstd::multiset::lemma_multiset_empty_len(sorted@.to_multiset());
    }
    assert(sorted@.to_multiset().add(rest@.to_multiset()) =~= results@.to_multiset());
    assert forall|c: usize| #[trigger] sorted@.filter(has_count(c)) + rest@.filter(has_count(c))
        == results@.filter(has_count(c)) by {
        sorted@.lemma_all_neg_filter_empty(has_count(c));
        assert(sorted@.filter(has_count(c)) + rest@.filter(has_count(c)) =~= rest@.filter(has_count(c)));
    }
    while rest.len() > 0
        invariant
            by_members_desc(sorted@),
            sorted@.to_multiset().add(rest@.to_multiset()) == results@.to_multiset(),
            forall|c: usize| #[trigger] sorted@.filter(has_count(c)) + rest@.filter(has_count(c))
                == results@.filter(has_count(c)),
        decreases rest@.len(),
    {
        let ghost old_sorted = sorted@;
        let ghost old_rest = rest@;
        proof {
            to_multiset_remove(rest@, 0);
        }
        let x = rest.remove(0);
        assert(old_rest.to_multiset().count(x) > 0) by {
            assert(old_rest[0] == x);
            old_rest.to_multiset_ensures();
        }
        let count = x.approximate_member_count;
        let mut p: usize = 0;
        while p < sorted.len() && sorted[p].approximate_member_count >= count
            invariant
                p <= sorted@.len(),
                by_members_desc(sorted@),
                forall|k: int| 0 <= k < p ==> (#[trigger] sorted@[k]).approximate_member_count >= count,
            decreases sorted@.len() - p,
        {
            p = p + 1;
        }
        proof {
            to_multiset_insert(sorted@, p as int, x);
        }
        let ghost before = sorted@;
        sorted.insert(p, x);
        assert(by_members_desc(sorted@)) by {
            assert forall|i: int, j: int| 0 <= i < j < sorted@.len() implies (
            #[trigger] sorted@[i]).approximate_member_count >= (
            #[trigger] sorted@[j]).approximate_member_count by {
                if p < before.len() {
                    assert(before[p as int].approximate_member_count < count);
                }
                if i < p && j > p {
                    assert(before[j - 1].approximate_member_count <= before[i].approximate_member_count);
                }
                if i == p && j > p {
                    assert(before[j - 1].approximate_member_count <= before[p as int].approximate_member_count);
                }
            }
        }
        assert(sorted@.to_multiset().add(rest@.to_multiset()) =~= old_sorted.to_multiset().add(
            old_rest.to_multiset(),
        ));
        assert forall|c: usize| #[trigger] sorted@.filter(has_count(c)) + rest@.filter(has_count(c))
            == results@.filter(has_count(c)) by {
            lemma_insert_keeps_groups(before, p as int, x, c);
            assert(old_rest =~= seq![x] + rest@);
            rest@.lemma_filter_prepend(x, has_count(c));
            lemma_singleton_filter(x, c);
            assert(old_sorted.filter(has_count(c)) + old_rest.filter(has_count(c)) == results@.filter(has_count(c)));
            assert(sorted@.filter(has_count(c)) + rest@.filter(has_count(c)) =~= old_sorted.filter(has_count(c)) + old_rest.filter(has_count(c)));
        }
    }
    proof {
        rest@.to_multiset_ensures();
        vstd::multiset::lemma_multiset_empty_len(rest@.to_multiset());
    }
    assert(rest@.to_multiset() =~= Multiset::empty());
    assert(sorted@.to_multiset().add(rest@.to_multiset()) =~= sorted@.to_multiset());
    assert forall|c: usize| #[trigger] sorted@.filter(has_count(c)) == results@.filter(has_count(c)) by {
        rest@.lemma_all_neg_filter_empty(has_count(c));
        assert(sorted@.filter(has_count(c)) + rest@.filter(has_count(c)) =~= sorted@.filter(has_count(c)));
    }
    sorted
}

} // verus!
