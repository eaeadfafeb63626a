use vstd::prelude::*;
use vstd::multiset::Multiset;
use crate::conversations::MessageExport;

verus! {

/// Strict lexicographic order on character sequences, by code point. On the
/// platform's fixed-width decimal timestamps it is chronological order.
pub open spec fn seq_lt(a: Seq<char>, b: Seq<char>) -> bool
    decreases a.len(),
{
    if a.len() == 0 {
        b.len() > 0
    } else if b.len() == 0 {
        false
    } else if a[0] != b[0] {
        (a[0] as int) < (b[0] as int)
    } else {
        seq_lt(a.drop_first(), b.drop_first())
    }
}

/// The root timestamp of `e`.
pub open spec fn root_ts(e: MessageExport) -> Seq<char> {
    e.message.ts@
}

/// Records ordered by root timestamp, oldest first (equal ones in any order).
pub open spec fn sorted_by_ts(s: Seq<MessageExport>) -> bool {
    forall|i: int, j: int| #![trigger s[i], s[j]] 0 <= i < j < s.len() ==> !seq_lt(root_ts(s[j]), root_ts(s[i]))
}

/// Records whose root timestamps strictly increase from each to the next.
pub open spec fn strictly_ascending(s: Seq<MessageExport>) -> bool {
    forall|i: int| #![trigger s[i]] 0 <= i < s.len() - 1 ==> seq_lt(root_ts(s[i]), root_ts(s[i + 1]))
}

/// No two records share a root timestamp.
pub open spec fn unique_roots(s: Seq<MessageExport>) -> bool {
    forall|i: int, j: int| #![trigger s[i], s[j]] 0 <= i < s.len() && 0 <= j < s.len() && i != j ==> root_ts(s[i]) != root_ts(s[j])
}

/// The order is transitive.
pub proof fn lemma_lt_transitive(a: Seq<char>, b: Seq<char>, c: Seq<char>)
    requires
        seq_lt(a, b),
        seq_lt(b, c),
    ensures
        seq_lt(a, c),
    decreases a.len(),
{
    if a.len() > 0 && b.len() > 0 && c.len() > 0 && a[0] == b[0] && b[0] == c[0] {
        lemma_lt_transitive(a.drop_first(), b.drop_first(), c.drop_first());
    }
}

/// No sequence sorts before itself.
pub proof fn lemma_lt_irreflexive(a: Seq<char>)
    ensures
        !seq_lt(a, a),
    decreases a.len(),
{
    if a.len() > 0 {
        lemma_lt_irreflexive(a.drop_first());
    }
}

/// Of two sequences, one sorts before the other or they are equal.
pub proof fn lemma_lt_total(a: Seq<char>, b: Seq<char>)
    ensures
        seq_lt(a, b) || a == b || seq_lt(b, a),
    decreases a.len(),
{
    if a.len() == 0 && b.len() == 0 {
        assert(a =~= b);
    } else if a.len() > 0 && b.len() > 0 && a[0] == b[0] {
        lemma_lt_total(a.drop_first(), b.drop_first());
        if a.drop_first() == b.drop_first() {
            assert(a =~= seq![a[0]] + a.drop_first());
            assert(b =~= seq![b[0]] + b.drop_first());
        }
    }
}

/// Whether `a` sorts strictly before `b`.
pub fn str_lt(a: &str, b: &str) -> (r: bool)
    ensures
        r == seq_lt(a@, b@),
{
    let la = a.unicode_len();
    let lb = b.unicode_len();
    let mut i: usize = 0;
    assert(a@.skip(0) =~= a@);
    assert(b@.skip(0) =~= b@);
    while i < la && i < lb
        invariant
            la == a@.len(),
            lb == b@.len(),
            i <= la,
            i <= lb,
            seq_lt(a@, b@) == seq_lt(a@.skip(i as int), b@.skip(i as int)),
        decreases la - i,
    {
        let ca = a.get_char(i);
        let cb = b.get_char(i);
        if ca != cb {
            return (ca as u32) < (cb as u32);
        }
        assert(a@.skip(i as int).drop_first() =~= a@.skip(i + 1));
        assert(b@.skip(i as int).drop_first() =~= b@.skip(i + 1));
        i = i + 1;
    }
    i < lb
}

/// Orders export records oldest first by root timestamp. The result holds
/// the same records as `exports`, each as often.
pub fn sort_by_timestamp(exports: Vec<MessageExport>) -> (r: Vec<MessageExport>)
    ensures
        sorted_by_ts(r@),
        r@.to_multiset() == exports@.to_multiset(),
{
    let ghost all = exports@;
    let mut input = exports;
    let mut out: Vec<MessageExport> = Vec::new();
    proof {
        vstd::seq_lib::to_multiset_len(out@);
        assert(out@.to_multiset() =~= Multiset::empty());
    }
    while input.len() > 0
        invariant
            sorted_by_ts(out@),
            out@.to_multiset().add(input@.to_multiset()) == all.to_multiset(),
        decreases input.len(),
    {
        let ghost before = input@;
        let x = input.pop().unwrap();
        proof {
            assert(before =~= input@.push(x));
            vstd::seq_lib::to_multiset_build(input@, x);
        }
        let mut p: usize = 0;
        while p < out.len()
            invariant
                p <= out.len(),
                forall|k: int| 0 <= k < p ==> !seq_lt(root_ts(x), #[trigger] root_ts(out@[k])),
            ensures
                p <= out.len(),
                forall|k: int| 0 <= k < p ==> !seq_lt(root_ts(x), #[trigger] root_ts(out@[k])),
                p < out.len() ==> seq_lt(root_ts(x), root_ts(out@[p as int])),
            decreases out.len() - p,
        {
            if str_lt(x.message.ts.as_str(), out[p].message.ts.as_str()) {
                break;
            }
            p = p + 1;
        }
        let ghost old_out = out@;
        proof {
            vstd::seq_lib::to_multiset_insert(old_out, p as int, x);
        }
        out.insert(p, x);
        proof {
            assert(out@ =~= old_out.insert(p as int, x));
            assert forall|i: int, j: int| #![trigger out@[i], out@[j]] 0 <= i < j < out@.len() implies !seq_lt(root_ts(out@[j]), root_ts(out@[i])) by {
                if i < p && j == p {
                } else if i < p && j > p {
                    assert(out@[j] == old_out[j - 1]);
                    assert(out@[i] == old_out[i]);
                } else if i < p {
                    assert(out@[j] == old_out[j]);
                    assert(out@[i] == old_out[i]);
                } else if i == p {
                    let y = old_out[j - 1];
                    assert(out@[j] == y);
                    assert(seq_lt(root_ts(x), root_ts(old_out[p as int])));
                    if seq_lt(root_ts(y), root_ts(x)) {
                        if j - 1 == p {
                            lemma_lt_transitive(root_ts(y), root_ts(x), root_ts(y));
                            lemma_lt_irreflexive(root_ts(y));
                        } else {
                            assert(!seq_lt(root_ts(old_out[j - 1]), root_ts(old_out[p as int])));
                            lemma_lt_transitive(root_ts(y), root_ts(x), root_ts(old_out[p as int]));
                        }
                    }
                } else {
                    assert(out@[j] == old_out[j - 1]);
                    assert(out@[i] == old_out[i - 1]);
                }
            }
            assert(out@.to_multiset().add(input@.to_multiset()) =~= all.to_multiset());
        }
    }
    proof {
        vstd::seq_lib::to_multiset_len(input@);
        assert(input@.to_multiset() =~= Multiset::empty());
        assert(out@.to_multiset().add(input@.to_multiset()) =~= out@.to_multiset());
    }
    out
}

/// After sorting, records whose root timestamps are unique come in strictly
/// ascending timestamp order.
pub proof fn lemma_sorted_unique_strictly_ascending(s: Seq<MessageExport>)
    requires
        sorted_by_ts(s),
        unique_roots(s),
    ensures
        strictly_ascending(s),
{
    assert forall|i: int| #![trigger s[i]] 0 <= i < s.len() - 1 implies seq_lt(root_ts(s[i]), root_ts(s[i + 1])) by {
        lemma_lt_total(root_ts(s[i]), root_ts(s[i + 1]));
        assert(!seq_lt(root_ts(s[i + 1]), root_ts(s[i])));
        assert(root_ts(s[i]) != root_ts(s[i + 1]));
    }
}

} // verus!
