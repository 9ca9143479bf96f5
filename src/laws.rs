use vstd::prelude::*;

use crate::decimal::{value_eq, value_gt, value_lt};
use crate::monitor::{group_changed, has_site, in_any_group, in_ids, standalone};
use crate::plan::Multiple;
use crate::plan::{finalized, Site};
use crate::rule::{comparison_holds, Observation, RuleKind};

verus! {

/// A group waits for every site it names: while one named site is not
/// finalized, the group has not changed, whatever another site becomes.
pub proof fn lemma_group_waits_for_every_member(
    ids: Seq<String>,
    sites: Seq<Site>,
    k: int,
    updated: Site,
    m: int,
)
    requires
        0 <= k < sites.len(),
        0 <= m < sites.len(),
        m != k,
        updated.id == sites[k].id,
        in_ids(ids, sites[m].id@),
        !finalized(sites[m]),
    ensures
        !group_changed(ids, sites),
        !group_changed(ids, sites.update(k, updated)),
{
    let after = sites.update(k, updated);
    assert(after[m] == sites[m]);
}

/// The id `id` names at least one site, and every site it names is finalized.
pub open spec fn id_finalized(sites: Seq<Site>, id: Seq<char>) -> bool {
    &&& has_site(sites, id)
    &&& forall|k: int| 0 <= k < sites.len() && sites[k].id@ == id ==> finalized(#[trigger] sites[k])
}

/// A group has changed exactly when it names at least one id, and each id
/// it names has sites, all of them finalized.
pub proof fn lemma_group_changed_iff_every_member_finalized(ids: Seq<String>, sites: Seq<Site>)
    ensures
        group_changed(ids, sites) <==> (ids.len() > 0 && forall|j: int|
            0 <= j < ids.len() ==> id_finalized(sites, (#[trigger] ids[j])@)),
{
    if group_changed(ids, sites) {
        assert forall|j: int| 0 <= j < ids.len() implies id_finalized(
            sites,
            (#[trigger] ids[j])@,
        ) by {
            assert forall|k: int|
                0 <= k < sites.len() && sites[k].id@ == ids[j]@ implies finalized(
                #[trigger] sites[k],
            ) by {
                assert(in_ids(ids, sites[k].id@));
            }
        }
    }
    if ids.len() > 0 && forall|j: int|
        0 <= j < ids.len() ==> id_finalized(sites, (#[trigger] ids[j])@) {
        assert forall|k: int|
            0 <= k < sites.len() && in_ids(ids, (#[trigger] sites[k]).id@) implies finalized(
            sites[k],
        ) by {
            let j = choose|j: int| 0 <= j < ids.len() && (#[trigger] ids[j])@ == sites[k].id@;
            assert(id_finalized(sites, ids[j]@));
        }
        assert forall|j: int| 0 <= j < ids.len() implies has_site(sites, (#[trigger] ids[j])@) by {
            assert(id_finalized(sites, ids[j]@));
        }
    }
}

/// No two sites share an id, as a plan requires.
pub open spec fn unique_ids(sites: Seq<Site>) -> bool {
    forall|a: int, b: int|
        0 <= a < sites.len() && 0 <= b < sites.len() && (#[trigger] sites[a]).id@ == (
        #[trigger] sites[b]).id@ ==> a == b
}

/// Some site with the id `id` is finalized.
pub open spec fn finalized_site_with(sites: Seq<Site>, id: Seq<char>) -> bool {
    exists|k: int| 0 <= k < sites.len() && (#[trigger] sites[k]).id@ == id && finalized(sites[k])
}

/// With unique site ids, a group has changed exactly when it names at least
/// one id and each id it names is that of a finalized site.
pub proof fn lemma_group_changed_with_unique_ids(ids: Seq<String>, sites: Seq<Site>)
    requires
        unique_ids(sites),
    ensures
        group_changed(ids, sites) <==> (ids.len() > 0 && forall|j: int|
            0 <= j < ids.len() ==> finalized_site_with(sites, (#[trigger] ids[j])@)),
{
    lemma_group_changed_iff_every_member_finalized(ids, sites);
    if group_changed(ids, sites) {
        assert forall|j: int| 0 <= j < ids.len() implies finalized_site_with(
            sites,
            (#[trigger] ids[j])@,
        ) by {
            assert(id_finalized(sites, ids[j]@));
            let k = choose|k: int| 0 <= k < sites.len() && (#[trigger] sites[k]).id@ == ids[j]@;
            assert(finalized(sites[k]));
        }
    }
    if ids.len() > 0 && forall|j: int|
        0 <= j < ids.len() ==> finalized_site_with(sites, (#[trigger] ids[j])@) {
        assert forall|j: int| 0 <= j < ids.len() implies id_finalized(sites, (#[trigger] ids[j])@) by {
            assert(finalized_site_with(sites, ids[j]@));
            let k = choose|k: int|
                0 <= k < sites.len() && (#[trigger] sites[k]).id@ == ids[j]@ && finalized(sites[k]);
            assert(has_site(sites, ids[j]@));
            assert forall|k2: int|
                0 <= k2 < sites.len() && sites[k2].id@ == ids[j]@ implies finalized(
                #[trigger] sites[k2],
            ) by {
                assert(sites[k2].id@ == sites[k].id@);
            }
        }
    }
}

/// Every site that no group names and whose rule kind is known has its
/// place among the sites notified on their own; so (by `finish_pass`) a
/// finalized such site gets a notice that reports the change and carries its
/// happy note on every pass, with no inspection needed.
pub proof fn lemma_standalone_site_is_listed(sites: Seq<Site>, groups: Seq<Multiple>, k: int)
    requires
        0 <= k < sites.len(),
        !in_any_group(groups, sites[k].id@),
        RuleKind::from_text(sites[k].rule_kind@) is Some,
    ensures
        exists|i: int|
            0 <= i < standalone(sites, groups).len() && #[trigger] standalone(sites, groups)[i]
                == sites[k],
    decreases sites.len(),
{
    let rest = standalone(sites.drop_last(), groups);
    if k == sites.len() - 1 {
        assert(standalone(sites, groups) == rest.push(sites[k]));
        assert(standalone(sites, groups)[rest.len() as int] == sites[k]);
    } else {
        assert(sites.drop_last()[k] == sites[k]);
        lemma_standalone_site_is_listed(sites.drop_last(), groups, k);
        let i = choose|i: int| 0 <= i < rest.len() && #[trigger] rest[i] == sites[k];
        assert(standalone(sites, groups)[i] == sites[k]);
    }
}

/// For one and the same observation, presence and absence of an element
/// never agree, nor do presence and absence of a text.
pub proof fn lemma_presence_absence_disagree(site: Site, seen: Observation)
    ensures
        RuleKind::PresenceOfElement.outcome(site, seen) is Ok,
        RuleKind::AbsenceOfElement.outcome(site, seen) is Ok,
        RuleKind::PresenceOfText.outcome(site, seen) is Ok,
        RuleKind::AbsenceOfText.outcome(site, seen) is Ok,
        RuleKind::PresenceOfElement.outcome(site, seen)->Ok_0 != RuleKind::AbsenceOfElement.outcome(
            site,
            seen,
        )->Ok_0,
        RuleKind::PresenceOfText.outcome(site, seen)->Ok_0 != RuleKind::AbsenceOfText.outcome(
            site,
            seen,
        )->Ok_0,
{
}

/// The numeric comparators follow the order of numbers: exactly one of
/// less, equal and greater holds; `>=` is greater or equal, `<=` is less or
/// equal, and on equal numbers `==`, `>=` and `<=` hold while `>` and `<` do not.
pub proof fn lemma_comparisons_follow_order(a: (int, nat), b: (int, nat))
    ensures
        value_lt(a, b) || value_eq(a, b) || value_gt(a, b),
        !(value_lt(a, b) && value_eq(a, b)),
        !(value_lt(a, b) && value_gt(a, b)),
        !(value_eq(a, b) && value_gt(a, b)),
        comparison_holds(">"@, a, b) == value_gt(a, b),
        comparison_holds("<"@, a, b) == value_lt(a, b),
        comparison_holds("=="@, a, b) == value_eq(a, b),
        comparison_holds(">="@, a, b) == (value_gt(a, b) || value_eq(a, b)),
        comparison_holds("<="@, a, b) == (value_lt(a, b) || value_eq(a, b)),
        value_eq(a, b) ==> comparison_holds("=="@, a, b) && comparison_holds(">="@, a, b)
            && comparison_holds("<="@, a, b) && !comparison_holds(">"@, a, b)
            && !comparison_holds("<"@, a, b),
{
    reveal_strlit(">");
    reveal_strlit("<");
    reveal_strlit("==");
    reveal_strlit(">=");
    reveal_strlit("<=");
    assert(">"@[0] != "<"@[0]);
    assert(">="@[0] != "=="@[0]);
    assert("<="@[0] != "=="@[0]);
    assert(">"@ != "<"@);
    assert(">="@ != ">"@) by {
        assert(">="@.len() != ">"@.len());
    }
    assert(">="@ != "<"@);
    assert("<="@ != ">"@);
    assert("<="@ != "<"@) by {
        assert("<="@.len() != "<"@.len());
    }
    assert("<="@ != ">="@) by {
        assert("<="@[0] != ">="@[0]);
    }
    assert(">="@ != "=="@);
    assert("<="@ != "=="@);
}

} // verus!
