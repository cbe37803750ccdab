use vstd::prelude::*;

use crate::table::{aliases_of, default_arch_rows, default_os_rows, lemma_find_from_hit, AliasTable};

verus! {

/// Mathematical model of a candidate pair: an OS alias and an architecture alias.
pub type PairModel = (Seq<char>, Seq<char>);

/// Every architecture alias in turn (outer) combined with every OS alias in
/// turn (inner), in table order.
pub open spec fn pairs(oss: Seq<Seq<char>>, archs: Seq<Seq<char>>) -> Seq<PairModel>
    decreases archs.len(),
{
    if archs.len() == 0 {
        seq![]
    } else {
        pairs(oss, archs.drop_last()) + with_arch(oss, archs.last())
    }
}

/// Each OS alias paired with the architecture alias `arch`.
pub open spec fn with_arch(oss: Seq<Seq<char>>, arch: Seq<char>) -> Seq<PairModel> {
    oss.map_values(|o: Seq<char>| (o, arch))
}

/// Why no candidate could be formed for the running platform.
pub enum LookupError {
    /// The table has no row for this operating system.
    UnknownOs(String),
    /// The table has no row for this architecture.
    UnknownArch(String),
}

/// All alias pairs, architecture aliases outer and OS aliases inner.
pub fn alias_pairs(oss: &Vec<String>, archs: &Vec<String>) -> (r: Vec<(String, String)>)
    ensures
        r.deep_view() == pairs(oss.deep_view(), archs.deep_view()),
{
    let ghost om = oss.deep_view();
    let ghost am = archs.deep_view();
    let mut r: Vec<(String, String)> = Vec::new();
    let mut a: usize = 0;
    while a < archs.len()
        invariant
            a <= archs.len(),
            om == oss.deep_view(),
            am == archs.deep_view(),
            r.deep_view() == pairs(om, am.take(a as int)),
        decreases archs.len() - a,
    {
        let ghost base = r.deep_view();
        let mut o: usize = 0;
        while o < oss.len()
            invariant
                a < archs.len(),
                o <= oss.len(),
                om == oss.deep_view(),
                am == archs.deep_view(),
                r.deep_view() == base + with_arch(om.take(o as int), am[a as int]),
            decreases oss.len() - o,
        {
            let ghost prev = r.deep_view();
            r.push((oss[o].clone(), archs[a].clone()));
            assert(with_arch(om.take(o + 1), am[a as int]) =~= with_arch(om.take(o as int), am[a as int]).push((om[o as int], am[a as int])));
            assert(r.deep_view() =~= prev.push((om[o as int], am[a as int])));
            o = o + 1;
        }
        assert(om.take(oss.len() as int) =~= om);
        assert(am.take(a + 1).drop_last() =~= am.take(a as int));
        a = a + 1;
    }
    assert(am.take(archs.len() as int) =~= am);
    r
}

/// The ordered alias pairs to probe on the platform `os`/`arch`.
pub fn candidate_pairs(table: &AliasTable, os: &String, arch: &String) -> (r: Result<Vec<(String, String)>, LookupError>)
    ensures
        match (aliases_of(table.os_rows(), os@), aliases_of(table.arch_rows(), arch@)) {
            (Some(o), Some(a)) => r matches Ok(v) && v.deep_view() == pairs(o, a),
            (None, _) => r matches Err(LookupError::UnknownOs(n)) && n@ == os@,
            (Some(_), None) => r matches Err(LookupError::UnknownArch(n)) && n@ == arch@,
        },
{
    let oss = match table.os_aliases(os) {
        Some(v) => v,
        None => return Err(LookupError::UnknownOs(os.clone())),
    };
    let archs = match table.arch_aliases(arch) {
        Some(v) => v,
        None => return Err(LookupError::UnknownArch(arch.clone())),
    };
    Ok(alias_pairs(oss, archs))
}

/// There is one pair for each OS alias and architecture alias together.
pub proof fn lemma_pairs_len(oss: Seq<Seq<char>>, archs: Seq<Seq<char>>)
    ensures
        pairs(oss, archs).len() == oss.len() * archs.len(),
    decreases archs.len(),
{
    if archs.len() > 0 {
        lemma_pairs_len(oss, archs.drop_last());
        assert(oss.len() * archs.len() == oss.len() * (archs.len() - 1) + oss.len()) by (nonlinear_arith);
    }
}

/// Pair `k` combines OS alias `k % |oss|` with architecture alias `k / |oss|`:
/// the architecture alias changes slowest.
pub proof fn lemma_pairs_index(oss: Seq<Seq<char>>, archs: Seq<Seq<char>>, k: int)
    requires
        0 <= k < oss.len() * archs.len(),
    ensures
        pairs(oss, archs)[k] == (oss[k % oss.len() as int], archs[k / oss.len() as int]),
    decreases archs.len(),
{
    let m = oss.len() as int;
    let n = archs.len() as int;
    lemma_pairs_len(oss, archs.drop_last());
    assert(m > 0 && n > 0) by (nonlinear_arith)
        requires 0 <= k < m * n, m >= 0, n >= 0;
    let prefix = m * (n - 1);
    assert(m * n == m * (n - 1) + m) by (nonlinear_arith);
    if k < prefix {
        lemma_pairs_index(oss, archs.drop_last(), k);
        assert(k / m < n - 1) by (nonlinear_arith)
            requires 0 <= k < m * (n - 1), m > 0;
    } else {
        let j = k - prefix;
        assert(k % m == j && k / m == n - 1) by (nonlinear_arith)
            requires k == m * (n - 1) + j, 0 <= j < m, m > 0;
    }
}

/// The first pair combines the first OS alias with the first architecture alias.
pub proof fn lemma_first_pair(oss: Seq<Seq<char>>, archs: Seq<Seq<char>>)
    requires
        oss.len() > 0,
        archs.len() > 0,
    ensures
        pairs(oss, archs).len() > 0,
        pairs(oss, archs)[0] == (oss[0], archs[0]),
{
    lemma_pairs_len(oss, archs);
    assert(oss.len() * archs.len() > 0) by (nonlinear_arith)
        requires oss.len() > 0, archs.len() > 0;
    lemma_pairs_index(oss, archs, 0);
}

/// With one alias on each side there is exactly one candidate pair.
pub proof fn lemma_single_aliases(oss: Seq<Seq<char>>, archs: Seq<Seq<char>>)
    requires
        oss.len() == 1,
        archs.len() == 1,
    ensures
        pairs(oss, archs) == seq![(oss[0], archs[0])],
{
    lemma_first_pair(oss, archs);
    lemma_pairs_len(oss, archs);
    assert(pairs(oss, archs) =~= seq![(oss[0], archs[0])]);
}

/// Every platform that the built-in table names yields a non-empty candidate
/// list that starts with the first alias of each side, in table order.
pub proof fn lemma_default_candidates(os: Seq<char>, arch: Seq<char>)
    requires
        aliases_of(default_os_rows(), os) is Some,
        aliases_of(default_arch_rows(), arch) is Some,
    ensures
        ({
            let o = aliases_of(default_os_rows(), os)->Some_0;
            let a = aliases_of(default_arch_rows(), arch)->Some_0;
            o.len() > 0 && a.len() > 0 && pairs(o, a).len() > 0 && pairs(o, a)[0] == (o[0], a[0])
        }),
{
    lemma_find_from_hit(default_os_rows(), os, 0);
    lemma_find_from_hit(default_arch_rows(), arch, 0);
    let o = aliases_of(default_os_rows(), os)->Some_0;
    let a = aliases_of(default_arch_rows(), arch)->Some_0;
    lemma_first_pair(o, a);
}

} // verus!
