use vstd::prelude::*;

use crate::notify::NotifyData;
use crate::plan::{current_time, finalized, same_but_status, site_dated, Multiple, Plan, Site, Timestamp};
use crate::rule::{Observation, RuleError, RuleKind};

verus! {

/// `after` is `before` finalized just now.
pub open spec fn changed_now(before: Site, after: Site) -> bool {
    &&& after.status_changed == Some(true)
    &&& after.status_changed_date is Some
    &&& same_but_status(before, after)
}

/// Runs the site's rule on what the inspector saw and records a change.
/// Returns whether the rule held. A finalized site is left as it is.
pub fn check_site(site: &mut Site, seen: &Observation) -> (r: Result<bool, RuleError>)
    ensures
        finalized(*old(site)) ==> *final(site) == *old(site) && r == Ok::<bool, RuleError>(false),
        !finalized(*old(site)) ==> match RuleKind::from_text(old(site).rule_kind@) {
            None => r == Err::<bool, RuleError>(RuleError::UnknownRule) && *final(site) == *old(
                site,
            ),
            Some(k) => match k.outcome(*old(site), *seen) {
                Err(e) => r == Err::<bool, RuleError>(e) && *final(site) == *old(site),
                Ok(h) => r == Ok::<bool, RuleError>(h) && (h ==> changed_now(*old(site), *final(site)))
                    && (!h ==> *final(site) == *old(site)),
            },
        },
        site_dated(*old(site)) ==> site_dated(*final(site)),
{
    if !site.needs_inspection() {
        return Ok(false);
    }
    let kind = match RuleKind::from_str(site.rule_kind.as_str()) {
        Some(k) => k,
        None => {
            return Err(RuleError::UnknownRule);
        },
    };
    match kind.evaluate(site, seen) {
        Err(e) => Err(e),
        Ok(h) => {
            if h {
                let now = current_time();
                site.advance(true, now);
            }
            Ok(h)
        },
    }
}

/// `id` is one of `ids`.
pub open spec fn in_ids(ids: Seq<String>, id: Seq<char>) -> bool {
    exists|j: int| 0 <= j < ids.len() && (#[trigger] ids[j])@ == id
}

/// Some site has the id `id`.
pub open spec fn has_site(sites: Seq<Site>, id: Seq<char>) -> bool {
    exists|k: int| 0 <= k < sites.len() && (#[trigger] sites[k]).id@ == id
}

/// A group has changed when it names at least one site, every id it names
/// is a site's, and every site it names is finalized.
pub open spec fn group_changed(ids: Seq<String>, sites: Seq<Site>) -> bool {
    &&& ids.len() > 0
    &&& forall|j: int| 0 <= j < ids.len() ==> has_site(sites, (#[trigger] ids[j])@)
    &&& forall|k: int|
        0 <= k < sites.len() && in_ids(ids, (#[trigger] sites[k]).id@) ==> finalized(sites[k])
}

/// Which text of a site goes into a group's notification.
#[derive(Clone, Copy, Debug, PartialEq, Eq, Structural)]
pub enum NotePart {
    Description,
    HappyNote,
    /// The happy note of a finalized site, else its disappointing note.
    CurrentNote,
}

pub open spec fn part_of(site: Site, part: NotePart) -> Seq<char> {
    match part {
        NotePart::Description => site.description@,
        NotePart::HappyNote => site.happy_note@,
        NotePart::CurrentNote => if finalized(site) {
            site.happy_note@
        } else {
            site.disappointing_note@
        },
    }
}

/// The `part` of each site named by `ids`, in the order of `sites`.
pub open spec fn member_parts(ids: Seq<String>, sites: Seq<Site>, part: NotePart) -> Seq<Seq<char>>
    decreases sites.len(),
{
    if sites.len() == 0 {
        Seq::empty()
    } else {
        let rest = member_parts(ids, sites.drop_last(), part);
        if in_ids(ids, sites.last().id@) {
            rest.push(part_of(sites.last(), part))
        } else {
            rest
        }
    }
}

pub open spec fn views(v: Seq<String>) -> Seq<Seq<char>> {
    Seq::new(v.len(), |i: int| v[i]@)
}

/// `parts` joined with `sep` between each two.
pub open spec fn join(parts: Seq<Seq<char>>, sep: Seq<char>) -> Seq<char>
    decreases parts.len(),
{
    if parts.len() == 0 {
        Seq::empty()
    } else if parts.len() == 1 {
        parts[0]
    } else {
        join(parts.drop_last(), sep) + sep + parts.last()
    }
}

/// The combined notification of the group `ids`.
pub open spec fn group_note(d: NotifyData, ids: Seq<String>, sites: Seq<Site>) -> bool {
    &&& d.description@ == join(member_parts(ids, sites, NotePart::Description), ", "@)
    &&& d.happy_note@ == join(member_parts(ids, sites, NotePart::HappyNote), "\n"@)
    &&& d.disappointing_note@ == join(member_parts(ids, sites, NotePart::CurrentNote), "\n"@)
}

fn ids_contain(ids: &Vec<String>, id: &String) -> (r: bool)
    ensures
        r == in_ids(ids@, id@),
{
    let mut j: usize = 0;
    while j < ids.len()
        invariant
            j <= ids.len(),
            forall|t: int| 0 <= t < j ==> (#[trigger] ids@[t])@ != id@,
        decreases ids.len() - j,
    {
        if ids[j] == *id {
            return true;
        }
        j = j + 1;
    }
    false
}

fn site_exists(sites: &Vec<Site>, id: &String) -> (r: bool)
    ensures
        r == has_site(sites@, id@),
{
    let mut k: usize = 0;
    while k < sites.len()
        invariant
            k <= sites.len(),
            forall|t: int| 0 <= t < k ==> (#[trigger] sites@[t]).id@ != id@,
        decreases sites.len() - k,
    {
        if sites[k].id == *id {
            return true;
        }
        k = k + 1;
    }
    false
}

/// Whether the group `ids` has changed, over `sites`.
pub fn all_members_changed(ids: &Vec<String>, sites: &Vec<Site>) -> (r: bool)
    ensures
        r == group_changed(ids@, sites@),
{
    if ids.len() == 0 {
        return false;
    }
    let mut j: usize = 0;
    while j < ids.len()
        invariant
            j <= ids.len(),
            forall|t: int| 0 <= t < j ==> has_site(sites@, (#[trigger] ids@[t])@),
        decreases ids.len() - j,
    {
        if !site_exists(sites, &ids[j]) {
            return false;
        }
        j = j + 1;
    }
    let mut k: usize = 0;
    while k < sites.len()
        invariant
            k <= sites.len(),
            forall|j: int| 0 <= j < ids.len() ==> has_site(sites@, (#[trigger] ids@[j])@),
            forall|t: int|
                0 <= t < k && in_ids(ids@, (#[trigger] sites@[t]).id@) ==> finalized(sites@[t]),
        decreases sites.len() - k,
    {
        if ids_contain(ids, &sites[k].id) && !matches!(sites[k].status_changed, Some(true)) {
            return false;
        }
        k = k + 1;
    }
    true
}

fn part_text(site: &Site, part: NotePart) -> (r: String)
    ensures
        r@ == part_of(*site, part),
{
    match part {
        NotePart::Description => site.description.clone(),
        NotePart::HappyNote => site.happy_note.clone(),
        NotePart::CurrentNote => if matches!(site.status_changed, Some(true)) {
            site.happy_note.clone()
        } else {
            site.disappointing_note.clone()
        },
    }
}

/// The `part` of each site that `ids` names, in plan order.
pub fn collect_parts(ids: &Vec<String>, sites: &Vec<Site>, part: NotePart) -> (r: Vec<String>)
    ensures
        views(r@) == member_parts(ids@, sites@, part),
{
    let mut out: Vec<String> = Vec::new();
    let mut k: usize = 0;
    while k < sites.len()
        invariant
            k <= sites.len(),
            views(out@) == member_parts(ids@, sites@.take(k as int), part),
        decreases sites.len() - k,
    {
        let ghost before = out@;
        assert(sites@.take(k + 1).drop_last() =~= sites@.take(k as int));
        if ids_contain(ids, &sites[k].id) {
            let t = part_text(&sites[k], part);
            out.push(t);
            assert(views(out@) =~= views(before).push(part_of(sites@[k as int], part)));
        }
        k = k + 1;
    }
    assert(sites@.take(sites.len() as int) =~= sites@);
    out
}

/// `parts` joined with `sep` between each two.
pub fn join_texts(parts: &Vec<String>, sep: &str) -> (r: String)
    ensures
        r@ == join(views(parts@), sep@),
{
    let mut out = String::new();
    let mut i: usize = 0;
    while i < parts.len()
        invariant
            i <= parts.len(),
            out@ == join(views(parts@).take(i as int), sep@),
        decreases parts.len() - i,
    {
        let ghost vs = views(parts@);
        assert(vs.take(i + 1).drop_last() =~= vs.take(i as int));
        if i > 0 {
            out.append(sep);
        } else {
            assert(vs.take(1) =~= seq![vs[0]]);
        }
        out.append(parts[i].as_str());
        i = i + 1;
    }
    assert(views(parts@).take(parts.len() as int) =~= views(parts@));
    out
}

/// Whether the group has changed, and its combined notification: the
/// descriptions of its sites joined by `", "`, their happy notes joined by
/// newlines, and for each site its current note, joined by newlines.
pub fn aggregate(group: &Multiple, sites: &Vec<Site>) -> (r: (bool, NotifyData))
    ensures
        r.0 == group_changed(group.ids@, sites@),
        group_note(r.1, group.ids@, sites@),
{
    let changed = all_members_changed(&group.ids, sites);
    let descriptions = collect_parts(&group.ids, sites, NotePart::Description);
    let happy = collect_parts(&group.ids, sites, NotePart::HappyNote);
    let current = collect_parts(&group.ids, sites, NotePart::CurrentNote);
    let data = NotifyData {
        description: join_texts(&descriptions, ", "),
        happy_note: join_texts(&happy, "\n"),
        disappointing_note: join_texts(&current, "\n"),
    };
    (changed, data)
}

/// How a group's status is recomputed in a pass: it is true exactly when the
/// group has changed, dated when it is true; a date already recorded for a
/// changed group is kept, and a group that no longer holds loses its date.
pub open spec fn group_updated(before: Multiple, after: Multiple, changed: bool) -> bool {
    &&& after.ids == before.ids
    &&& (after.status_changed == Some(true) <==> changed)
    &&& (after.status_changed_date is Some <==> changed)
    &&& changed && before.status_changed == Some(true) && before.status_changed_date is Some
        ==> after == before
    &&& !changed && before.status_changed != Some(true) && before.status_changed_date is None
        ==> after == before
}

/// Records at time `now` whether the group has changed.
pub fn mark_group(group: &mut Multiple, changed: bool, now: Timestamp)
    ensures
        group_updated(*old(group), *final(group), changed),
        changed && !(old(group).status_changed == Some(true) && old(
            group,
        ).status_changed_date is Some) ==> final(group).status_changed_date == Some(now),
{
    if changed {
        let already = matches!(group.status_changed, Some(true)) && group.status_changed_date.is_some();
        if !already {
            group.status_changed = Some(true);
            group.status_changed_date = Some(now);
        }
    } else {
        if matches!(group.status_changed, Some(true)) {
            group.status_changed = Some(false);
        }
        group.status_changed_date = None;
    }
}

/// One notification to send: the status it reports and its texts.
#[derive(Clone, Debug)]
pub struct Notice {
    pub changed: bool,
    pub data: NotifyData,
}

/// `id` is named by some group.
pub open spec fn in_any_group(groups: Seq<Multiple>, id: Seq<char>) -> bool {
    exists|g: int| 0 <= g < groups.len() && in_ids((#[trigger] groups[g]).ids@, id)
}

/// A site notified on its own: no group names it, and its rule kind is
/// known (a site of unknown kind is skipped, notification included).
pub open spec fn notified_alone(site: Site, groups: Seq<Multiple>) -> bool {
    &&& !in_any_group(groups, site.id@)
    &&& RuleKind::from_text(site.rule_kind@) is Some
}

/// The sites notified on their own, in plan order.
pub open spec fn standalone(sites: Seq<Site>, groups: Seq<Multiple>) -> Seq<Site>
    decreases sites.len(),
{
    if sites.len() == 0 {
        Seq::empty()
    } else {
        let rest = standalone(sites.drop_last(), groups);
        if notified_alone(sites.last(), groups) {
            rest.push(sites.last())
        } else {
            rest
        }
    }
}

/// The notification of a site on its own.
pub open spec fn site_notice(n: Notice, s: Site) -> bool {
    &&& n.changed == finalized(s)
    &&& n.data.description@ == s.description@
    &&& n.data.happy_note@ == s.happy_note@
    &&& n.data.disappointing_note@ == s.disappointing_note@
}

/// The notification of a group.
pub open spec fn group_notice(n: Notice, g: Multiple, sites: Seq<Site>) -> bool {
    &&& n.changed == group_changed(g.ids@, sites)
    &&& group_note(n.data, g.ids@, sites)
}

fn grouped(groups: &Vec<Multiple>, id: &String) -> (r: bool)
    ensures
        r == in_any_group(groups@, id@),
{
    let mut g: usize = 0;
    while g < groups.len()
        invariant
            g <= groups.len(),
            forall|t: int| 0 <= t < g ==> !in_ids((#[trigger] groups@[t]).ids@, id@),
        decreases groups.len() - g,
    {
        if ids_contain(&groups[g].ids, id) {
            return true;
        }
        g = g + 1;
    }
    false
}

/// The notifications of the sites notified on their own, in plan order.
pub fn standalone_notices(plan: &Plan) -> (r: Vec<Notice>)
    ensures
        r.len() == standalone(plan.sites@, plan.multiples@).len(),
        forall|i: int|
            0 <= i < r.len() ==> site_notice(
                #[trigger] r@[i],
                standalone(plan.sites@, plan.multiples@)[i],
            ),
{
    let sites = &plan.sites;
    let groups = &plan.multiples;
    let mut out: Vec<Notice> = Vec::new();
    let mut k: usize = 0;
    while k < sites.len()
        invariant
            k <= sites.len(),
            sites == &plan.sites,
            groups == &plan.multiples,
            out.len() == standalone(sites@.take(k as int), groups@).len(),
            forall|i: int|
                0 <= i < out.len() ==> site_notice(
                    #[trigger] out@[i],
                    standalone(sites@.take(k as int), groups@)[i],
                ),
        decreases sites.len() - k,
    {
        assert(sites@.take(k + 1).drop_last() =~= sites@.take(k as int));
        let site = &sites[k];
        if !grouped(groups, &site.id) && RuleKind::from_str(site.rule_kind.as_str()).is_some() {
            let n = Notice {
                changed: matches!(site.status_changed, Some(true)),
                data: NotifyData {
                    description: site.description.clone(),
                    happy_note: site.happy_note.clone(),
                    disappointing_note: site.disappointing_note.clone(),
                },
            };
            out.push(n);
        }
        k = k + 1;
    }
    assert(sites@.take(sites.len() as int) =~= sites@);
    out
}

/// The decisions that close a pass, once every site has been checked: each
/// site that no group names and whose rule kind is known gets its own
/// notification, in plan order; then each group gets one, and its status is
/// recomputed from its sites. The sites themselves are left as they are.
pub fn finish_pass(plan: &mut Plan) -> (r: Vec<Notice>)
    ensures
        final(plan).sites == old(plan).sites,
        final(plan).mailgun == old(plan).mailgun,
        final(plan).multiples.len() == old(plan).multiples.len(),
        r.len() == standalone(old(plan).sites@, old(plan).multiples@).len() + old(
            plan,
        ).multiples.len(),
        forall|i: int|
            0 <= i < standalone(old(plan).sites@, old(plan).multiples@).len() ==> site_notice(
                #[trigger] r@[i],
                standalone(old(plan).sites@, old(plan).multiples@)[i],
            ),
        forall|g: int|
            0 <= g < old(plan).multiples.len() ==> group_notice(
                #[trigger] r@[standalone(old(plan).sites@, old(plan).multiples@).len() + g],
                old(plan).multiples@[g],
                old(plan).sites@,
            ) && group_updated(
                old(plan).multiples@[g],
                final(plan).multiples@[g],
                group_changed(old(plan).multiples@[g].ids@, old(plan).sites@),
            ),
{
    let mut out = standalone_notices(plan);
    let ghost n0 = out.len();
    let ghost groups0 = plan.multiples@;
    let mut g: usize = 0;
    while g < plan.multiples.len()
        invariant
            g <= plan.multiples.len(),
            plan.multiples.len() == groups0.len(),
            plan.sites == old(plan).sites,
            plan.mailgun == old(plan).mailgun,
            groups0 == old(plan).multiples@,
            n0 == standalone(old(plan).sites@, old(plan).multiples@).len(),
            out.len() == n0 + g,
            forall|i: int|
                0 <= i < n0 ==> site_notice(
                    #[trigger] out@[i],
                    standalone(old(plan).sites@, old(plan).multiples@)[i],
                ),
            forall|t: int|
                0 <= t < g ==> group_notice(#[trigger] out@[n0 + t], groups0[t], plan.sites@)
                    && group_updated(
                    groups0[t],
                    plan.multiples@[t],
                    group_changed(groups0[t].ids@, plan.sites@),
                ),
            forall|t: int| g <= t < groups0.len() ==> #[trigger] plan.multiples@[t] == groups0[t],
        decreases groups0.len() - g,
    {
        let ghost out_before = out@;
        let ghost groups_before = plan.multiples@;
        let (changed, data) = aggregate(&plan.multiples[g], &plan.sites);
        let now = current_time();
        mark_group(&mut plan.multiples[g], changed, now);
        out.push(Notice { changed, data });
        assert(out@[n0 + g] == Notice { changed, data });
        assert(group_notice(out@[n0 + g], groups0[g as int], plan.sites@));
        assert(group_updated(
            groups0[g as int],
            plan.multiples@[g as int],
            group_changed(groups0[g as int].ids@, plan.sites@),
        ));
        assert forall|t: int| 0 <= t <= g implies group_notice(
            #[trigger] out@[n0 + t],
            groups0[t],
            plan.sites@,
        ) && group_updated(
            groups0[t],
            plan.multiples@[t],
            group_changed(groups0[t].ids@, plan.sites@),
        ) by {
            if t < g {
                assert(out@[n0 + t] == out_before[n0 + t]);
                assert(plan.multiples@[t] == groups_before[t]);
            }
        }
        g = g + 1;
    }
    out
}

} // verus!
