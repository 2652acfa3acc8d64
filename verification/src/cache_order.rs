//! The order in which cached skills are tried for eviction: least
//! recently used first.
use vstd::prelude::*;
use crate::cache_manager::CacheSkillRecord;
use crate::text::{
    lemma_seq_lt_asymmetric, lemma_seq_lt_irreflexive, lemma_seq_lt_total, lemma_seq_lt_transitive,
    seq_lt, str_eq, str_lt,
};

verus! {

broadcast use vstd::seq_lib::group_to_multiset_ensures, vstd::multiset::group_multiset_axioms;

/// `a` is tried for eviction before `b`: it was used less recently, or at
/// the same time and its id sorts first.
pub open spec fn used_before(a: CacheSkillRecord, b: CacheSkillRecord) -> bool {
    seq_lt(a.last_accessed_at@, b.last_accessed_at@) || (a.last_accessed_at@ == b.last_accessed_at@
        && seq_lt(a.skill_id@, b.skill_id@))
}

/// The candidates are in least-recently-used order.
pub open spec fn in_eviction_order(s: Seq<CacheSkillRecord>) -> bool {
    forall|a: int, b: int| 0 <= a < b < s.len() ==> !used_before(s[b], s[a])
}

proof fn lemma_used_before_facts(x: CacheSkillRecord, y: CacheSkillRecord, z: CacheSkillRecord)
    ensures
        !used_before(x, x),
        used_before(x, y) ==> !used_before(y, x),
        used_before(x, y) && !used_before(z, y) ==> used_before(x, z),
{
    lemma_seq_lt_irreflexive(x.last_accessed_at@);
    lemma_seq_lt_irreflexive(x.skill_id@);
    lemma_seq_lt_asymmetric(x.last_accessed_at@, y.last_accessed_at@);
    lemma_seq_lt_asymmetric(x.skill_id@, y.skill_id@);
    lemma_seq_lt_total(y.last_accessed_at@, z.last_accessed_at@);
    lemma_seq_lt_total(y.skill_id@, z.skill_id@);
    lemma_seq_lt_transitive(x.last_accessed_at@, y.last_accessed_at@, z.last_accessed_at@);
    lemma_seq_lt_transitive(x.skill_id@, y.skill_id@, z.skill_id@);
}

proof fn lemma_insert_in_order(out: Seq<CacheSkillRecord>, p: int, x: CacheSkillRecord)
    requires
        in_eviction_order(out),
        0 <= p <= out.len(),
        forall|q: int| 0 <= q < p ==> !used_before(x, #[trigger] out[q]),
        p < out.len() ==> used_before(x, out[p]),
    ensures
        in_eviction_order(out.insert(p, x)),
{
    let n = out.insert(p, x);
    assert forall|a: int, b: int| 0 <= a < b < n.len() implies !used_before(n[b], n[a]) by {
        if b < p {
        } else if a < p && b == p {
        } else if a < p && b > p {
            assert(n[b] == out[b - 1]);
        } else if a == p {
            assert(n[b] == out[b - 1]);
            let m = out[b - 1];
            if b - 1 > p {
                assert(!used_before(m, out[p]));
                lemma_used_before_facts(x, out[p], m);
            }
            lemma_used_before_facts(x, m, m);
        } else {
            assert(n[a] == out[a - 1]);
            assert(n[b] == out[b - 1]);
        }
    }
}

fn is_used_before(a: &CacheSkillRecord, b: &CacheSkillRecord) -> (r: bool)
    ensures
        r == used_before(*a, *b),
{
    str_lt(a.last_accessed_at.as_str(), b.last_accessed_at.as_str()) || (str_eq(
        a.last_accessed_at.as_str(),
        b.last_accessed_at.as_str(),
    ) && str_lt(a.skill_id.as_str(), b.skill_id.as_str()))
}

/// The candidates in the order the cache tries them: least recently used
/// first, ties by skill id.
pub fn eviction_order(skills: Vec<CacheSkillRecord>) -> (out: Vec<CacheSkillRecord>)
    ensures
        in_eviction_order(out@),
        out@.to_multiset() == skills@.to_multiset(),
{
    let mut rest = skills;
    let mut out: Vec<CacheSkillRecord> = Vec::new();
    let ghost all = rest@.to_multiset();
    while rest.len() > 0
        invariant
            in_eviction_order(out@),
            out@.to_multiset().add(rest@.to_multiset()) == all,
        decreases rest@.len(),
    {
        let ghost before = rest@;
        let x = rest.pop().unwrap();
        assert(before =~= rest@.push(x));
        let mut p: usize = 0;
        while p < out.len() && !is_used_before(&x, &out[p])
            invariant
                p <= out@.len(),
                forall|q: int| 0 <= q < p ==> !used_before(x, #[trigger] out@[q]),
            decreases out@.len() - p,
        {
            p = p + 1;
        }
        proof {
            lemma_insert_in_order(out@, p as int, x);
        }
        let ghost prev = out@;
        out.insert(p, x);
        assert(out@.to_multiset() == prev.to_multiset().insert(x));
        assert(before.to_multiset() == rest@.to_multiset().insert(x));
    }
    assert(rest@.to_multiset() =~= vstd::multiset::Multiset::empty());
    out
}

} // verus!
