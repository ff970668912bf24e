//! Laws of the sync view: what the trailers of the two histories add up to.

use vstd::prelude::*;
use vstd::string::*;
use crate::config::ResolvedSubrepoView;
use crate::exporter::{
    export_base_rewritten_step, find_anchor_recovery_step, recover_export_anchor_step,
    recovery_walk_step,
};
use crate::filter::{anchor_subtree_step, FilterErrorView};
use crate::git::GitErrorView;
use crate::index::{distinct, keys_differ, lemma_distinct, lemma_keyed, lookup};
use crate::laws::requests::{contacts, lemma_view_asks, prepares_hook, runs_hook, view_request};
use crate::list::lemma_filter_contains;
use crate::sync_view::{
    anchor_walk_step, broken_refs, claimed, claims, exported_map, fetch_step,
    find_export_anchor_step, foreign_commits, last_exported, lemma_mapped_iff_claimed,
    lemma_newest_live, load_sync_view_step, newest_live, origin_values, origins_anchor_step,
    origins_step, preview_sync_view_step, pub_head_step, published_view_step, reflects_exactly_step,
    superseded_refs, unsettled_commits, values_of, view_step, SourceRefView, SyncViewErrorView,
    SyncViewValue,
};
use crate::talk::{flag_at, rev_at, shas_at, trailers_at, ReplyView, Step};
use crate::text::{lines_of, Text};

verus! {

// --- the mapping ---

proof fn lemma_filter_twice<T>(
    s: Seq<T>,
    first: spec_fn(T) -> bool,
    second: spec_fn(T) -> bool,
    both: spec_fn(T) -> bool,
)
    requires
        forall|x: T| #[trigger] both(x) == (first(x) && second(x)),
    ensures
        s.filter(both) == s.filter(first).filter(second),
    decreases s.len(),
{
    reveal(Seq::filter);
    if s.len() > 0 {
        let before = s.drop_last();
        lemma_filter_twice(before, first, second, both);
        assert(both(s.last()) == (first(s.last()) && second(s.last())));
        if first(s.last()) {
            assert(before.filter(first).push(s.last()).drop_last() =~= before.filter(first));
        }
    }
}

proof fn lemma_filter_all<T>(s: Seq<T>, keep: spec_fn(T) -> bool)
    requires
        forall|i: int| 0 <= i < s.len() ==> keep(#[trigger] s[i]),
    ensures
        s.filter(keep) == s,
    decreases s.len(),
{
    reveal(Seq::filter);
    if s.len() > 0 {
        lemma_filter_all(s.drop_last(), keep);
        assert(s.drop_last().push(s.last()) =~= s);
    } else {
        assert(s.filter(keep) =~= s);
    }
}

/// The claims that name a commit this clone lacks.
pub open spec fn dead_claims(claims: Seq<SourceRefView>, missing: Seq<Text>) -> Seq<
    SourceRefView,
> {
    claims.filter(|claim: SourceRefView| missing.contains(claim.mono_sha))
}

/// Every dead claim is either broken or superseded, never both and never lost, and it is its
/// public commit that decides: of the dead claims, in the order of the walk, the broken ones are
/// those of the unsettled commits, and the superseded ones are all the others.
pub proof fn law_dead_claims_are_broken_or_superseded(
    claims: Seq<SourceRefView>,
    missing: Seq<Text>,
    claim: SourceRefView,
)
    ensures
        broken_refs(claims, missing) == dead_claims(claims, missing).filter(
            |claim: SourceRefView| unsettled_commits(claims, missing).contains(claim.pub_sha),
        ),
        superseded_refs(claims, missing) == dead_claims(claims, missing).filter(
            |claim: SourceRefView| !unsettled_commits(claims, missing).contains(claim.pub_sha),
        ),
        broken_refs(claims, missing).contains(claim) || superseded_refs(claims, missing).contains(
            claim,
        ) <==> claims.contains(claim) && missing.contains(claim.mono_sha),
        !(broken_refs(claims, missing).contains(claim) && superseded_refs(
            claims,
            missing,
        ).contains(claim)),
{
    let unsettled = unsettled_commits(claims, missing);
    let dead = |claim: SourceRefView| missing.contains(claim.mono_sha);
    let on = |claim: SourceRefView| unsettled.contains(claim.pub_sha);
    let off = |claim: SourceRefView| !unsettled.contains(claim.pub_sha);
    let broken = |claim: SourceRefView|
        missing.contains(claim.mono_sha) && unsettled.contains(claim.pub_sha);
    let superseded = |claim: SourceRefView|
        missing.contains(claim.mono_sha) && !unsettled.contains(claim.pub_sha);
    lemma_filter_twice(claims, dead, on, broken);
    lemma_filter_twice(claims, dead, off, superseded);
    lemma_filter_contains(claims, broken, claim);
    lemma_filter_contains(claims, superseded, claim);
}

/// Placement decides, commit by commit: a dead claim is broken where its public commit carries
/// the first live claim, or a claim above that one; elsewhere it is superseded. So whatever
/// stands above the first live claim is broken.
pub proof fn law_placement_decides(claims: Seq<SourceRefView>, missing: Seq<Text>, i: int)
    requires
        0 <= i < claims.len(),
        missing.contains(claims[i].mono_sha),
    ensures
        broken_refs(claims, missing).contains(claims[i]) <==> exists|j: int|
            0 <= j < claims.len() && j <= newest_live(claims, missing) && (
            #[trigger] claims[j]).pub_sha == claims[i].pub_sha,
        superseded_refs(claims, missing).contains(claims[i]) <==> !broken_refs(
            claims,
            missing,
        ).contains(claims[i]),
        i <= newest_live(claims, missing) ==> broken_refs(claims, missing).contains(claims[i]),
{
    lemma_newest_live(claims, missing);
    law_dead_claims_are_broken_or_superseded(claims, missing, claims[i]);
    let unsettled = unsettled_commits(claims, missing);
    lemma_filter_contains(
        claims,
        |claim: SourceRefView|
            missing.contains(claim.mono_sha) && unsettled.contains(claim.pub_sha),
        claims[i],
    );
    assert forall|j: int|
        0 <= j < claims.len() && j <= newest_live(claims, missing) implies unsettled.contains(
        (#[trigger] claims[j]).pub_sha,
    ) by {
        assert(unsettled[j] == claims[j].pub_sha);
    }
    if unsettled.contains(claims[i].pub_sha) {
        let j = choose|j: int| 0 <= j < unsettled.len() && unsettled[j] == claims[i].pub_sha;
        assert(claims[j].pub_sha == claims[i].pub_sha);
    }
}

/// A dead trailer behind a live one blocks nothing: where the newest claim resolves, it names
/// the anchor, and only that claim's own public commit can still be broken.
pub proof fn law_a_live_tip_breaks_nothing_behind_it(
    claims: Seq<SourceRefView>,
    missing: Seq<Text>,
    claim: SourceRefView,
)
    requires
        claims.len() > 0,
        !missing.contains(claims[0].mono_sha),
    ensures
        broken_refs(claims, missing).contains(claim) <==> claims.contains(claim)
            && missing.contains(claim.mono_sha) && claim.pub_sha == claims[0].pub_sha,
        last_exported(claims, missing) == Some(claims[0].mono_sha),
{
    law_dead_claims_are_broken_or_superseded(claims, missing, claim);
    let unsettled = unsettled_commits(claims, missing);
    assert(unsettled =~= seq![claims[0].pub_sha]);
    assert(unsettled[0] == claims[0].pub_sha);
    lemma_filter_contains(
        claims,
        |claim: SourceRefView|
            missing.contains(claim.mono_sha) && unsettled.contains(claim.pub_sha),
        claim,
    );
}

/// With nothing readable above it, a dead trailer is broken: where no claim resolves, all of
/// them are broken, none is superseded, and there is no anchor.
pub proof fn law_without_a_live_claim_all_are_broken(
    claims: Seq<SourceRefView>,
    missing: Seq<Text>,
)
    requires
        forall|i: int|
            0 <= i < claims.len() ==> missing.contains((#[trigger] claims[i]).mono_sha),
    ensures
        broken_refs(claims, missing) == claims,
        superseded_refs(claims, missing).len() == 0,
        last_exported(claims, missing) is None,
{
    lemma_newest_live(claims, missing);
    let unsettled = unsettled_commits(claims, missing);
    assert forall|i: int| 0 <= i < claims.len() implies unsettled.contains(
        (#[trigger] claims[i]).pub_sha,
    ) by {
        assert(unsettled[i] == claims[i].pub_sha);
    }
    lemma_filter_all(
        claims,
        |claim: SourceRefView|
            missing.contains(claim.mono_sha) && unsettled.contains(claim.pub_sha),
    );
    if superseded_refs(claims, missing).len() > 0 {
        let claim = superseded_refs(claims, missing)[0];
        law_dead_claims_are_broken_or_superseded(claims, missing, claim);
    }
}

proof fn lemma_first_pair_decides(pairs: Seq<(Text, Text)>, i: int)
    requires
        0 <= i < pairs.len(),
        forall|j: int| 0 <= j < i ==> (#[trigger] pairs[j]).0 != pairs[i].0,
    ensures
        lookup(pairs, pairs[i].0) == Some(pairs[i].1),
    decreases i,
{
    if i > 0 {
        assert(pairs[0].0 != pairs[i].0);
        let rest = pairs.drop_first();
        assert forall|j: int| 0 <= j < i - 1 implies (#[trigger] rest[j]).0 != rest[i - 1].0 by {
            assert(pairs[j + 1].0 != pairs[i].0);
        }
        lemma_first_pair_decides(rest, i - 1);
    }
}

/// The newest public commit that claims a monorepo commit is the one that the mapping records.
pub proof fn law_the_newest_claim_is_recorded(claims: Seq<SourceRefView>, i: int)
    requires
        0 <= i < claims.len(),
        forall|j: int| 0 <= j < i ==> (#[trigger] claims[j]).mono_sha != claims[i].mono_sha,
    ensures
        exported_map(claims).contains_key(claims[i].mono_sha),
        exported_map(claims)[claims[i].mono_sha] == claims[i].pub_sha,
{
    let pairs = claims.map_values(|claim: SourceRefView| (claim.mono_sha, claim.pub_sha));
    assert forall|j: int| 0 <= j < i implies (#[trigger] pairs[j]).0 != pairs[i].0 by {
        assert(claims[j].mono_sha != claims[i].mono_sha);
    }
    lemma_first_pair_decides(pairs, i);
}

/// What a public commit says it exported is in the mapping: the walk lists the commit, and git
/// reads the trailer back from it.
pub proof fn law_what_was_exported_is_recorded(
    walk: Seq<Text>,
    source_by_pub: Seq<(Text, Seq<Text>)>,
    pub_sha: Text,
    mono_sha: Text,
)
    requires
        walk.contains(pub_sha),
        values_of(source_by_pub, pub_sha).contains(mono_sha),
    ensures
        exported_map(claims(walk, source_by_pub)).contains_key(mono_sha),
{
    lemma_claimed(walk, source_by_pub, pub_sha, mono_sha);
    lemma_mapped_iff_claimed(claims(walk, source_by_pub), mono_sha);
}

proof fn lemma_claimed(
    walk: Seq<Text>,
    source_by_pub: Seq<(Text, Seq<Text>)>,
    pub_sha: Text,
    mono_sha: Text,
)
    requires
        walk.contains(pub_sha),
        values_of(source_by_pub, pub_sha).contains(mono_sha),
    ensures
        claimed(claims(walk, source_by_pub)).contains(mono_sha),
    decreases walk.len(),
{
    let before = claims(walk.drop_last(), source_by_pub);
    let values = values_of(source_by_pub, walk.last());
    let all = claims(walk, source_by_pub);
    if walk.last() == pub_sha {
        let k = choose|k: int| 0 <= k < values.len() && values[k] == mono_sha;
        assert(claimed(all)[before.len() + k] == mono_sha);
    } else {
        let j = choose|j: int| 0 <= j < walk.len() && walk[j] == pub_sha;
        assert(walk.drop_last()[j] == pub_sha);
        lemma_claimed(walk.drop_last(), source_by_pub, pub_sha, mono_sha);
        let k = choose|k: int| 0 <= k < before.len() && claimed(before)[k] == mono_sha;
        assert(claimed(all)[k] == mono_sha);
    }
}

/// Our own exports never read as pending imports: a public commit is pending exactly when the
/// walk lists it and it carries no `Monosplice-Source` trailer.
pub proof fn law_own_exports_are_never_pending(
    out: Text,
    source_by_pub: Seq<(Text, Seq<Text>)>,
    sha: Text,
)
    requires
        out.len() > 0,
    ensures
        foreign_commits(out, source_by_pub).contains(sha) <==> lines_of(out).contains(sha)
            && lookup(source_by_pub, sha) is None,
{
    lemma_filter_contains(
        lines_of(out),
        |sha: Text| lookup(source_by_pub, sha) is None,
        sha,
    );
}

// --- the anchor ---

/// Does the monorepo commit reproduce the public one, as the replies from `p` on have it?
pub open spec fn reproduces(
    s: ResolvedSubrepoView,
    hooks: bool,
    mono_sha: Text,
    pub_sha: Text,
    log: Seq<ReplyView>,
    p: int,
) -> bool {
    reflects_exactly_step(s, hooks, mono_sha, pub_sha, log, p) matches Step::Done(true, _)
}

/// Was the monorepo commit held against the public one, as the replies from `p` on have it, and
/// does it not reproduce it?
pub open spec fn differs(
    s: ResolvedSubrepoView,
    hooks: bool,
    mono_sha: Text,
    pub_sha: Text,
    log: Seq<ReplyView>,
    p: int,
) -> bool {
    reflects_exactly_step(s, hooks, mono_sha, pub_sha, log, p) matches Step::Done(false, _)
}

/// Is the commit an anchor? It was exported, or it imported a commit of the public branch and
/// reproduces it. `looks` tells from which replies each import was judged.
pub open spec fn is_anchor(
    s: ResolvedSubrepoView,
    hooks: bool,
    exported: Map<Text, Text>,
    origins: Seq<Text>,
    pub_ancestors: Seq<Text>,
    mono_sha: Text,
    log: Seq<ReplyView>,
    looks: Seq<int>,
) -> bool {
    exported.contains_key(mono_sha) || exists|k: int|
        0 <= k < origins.len() && k < looks.len() && pub_ancestors.contains(#[trigger] origins[k])
            && reproduces(s, hooks, mono_sha, origins[k], log, looks[k])
}

/// Is the commit no anchor? It was not exported, and it reproduces none of the commits of the
/// public branch that it imported.
pub open spec fn is_no_anchor(
    s: ResolvedSubrepoView,
    hooks: bool,
    exported: Map<Text, Text>,
    origins: Seq<Text>,
    pub_ancestors: Seq<Text>,
    mono_sha: Text,
    log: Seq<ReplyView>,
    looks: Seq<int>,
) -> bool {
    &&& !exported.contains_key(mono_sha)
    &&& looks.len() == origins.len()
    &&& forall|k: int|
        0 <= k < origins.len() && pub_ancestors.contains(#[trigger] origins[k]) ==> differs(
            s,
            hooks,
            mono_sha,
            origins[k],
            log,
            looks[k],
        )
}

proof fn lemma_origins_anchor(
    s: ResolvedSubrepoView,
    hooks: bool,
    mono_sha: Text,
    origins: Seq<Text>,
    pub_ancestors: Seq<Text>,
    j: int,
    related: bool,
    log: Seq<ReplyView>,
    at: int,
) -> (looks: Seq<int>)
    requires
        0 <= j <= origins.len(),
    ensures
        looks.len() == origins.len(),
        origins_anchor_step(
            s,
            hooks,
            mono_sha,
            origins,
            pub_ancestors,
            j,
            related,
            log,
            at,
        ) matches Step::Done((found, now_related), _) ==> {
            &&& now_related == (related || exists|k: int|
                j <= k < origins.len() && pub_ancestors.contains(#[trigger] origins[k]))
            &&& found ==> exists|k: int|
                j <= k < origins.len() && pub_ancestors.contains(#[trigger] origins[k])
                    && reproduces(s, hooks, mono_sha, origins[k], log, looks[k])
            &&& !found ==> forall|k: int|
                j <= k < origins.len() && pub_ancestors.contains(#[trigger] origins[k])
                    ==> differs(s, hooks, mono_sha, origins[k], log, looks[k])
        },
    decreases origins.len() - j,
{
    if j >= origins.len() {
        Seq::new(origins.len(), |k: int| at)
    } else if !pub_ancestors.contains(origins[j]) {
        lemma_origins_anchor(
            s,
            hooks,
            mono_sha,
            origins,
            pub_ancestors,
            j + 1,
            related,
            log,
            at,
        )
    } else {
        match reflects_exactly_step(s, hooks, mono_sha, origins[j], log, at) {
            Step::Done(false, next) => {
                let rest = lemma_origins_anchor(
                    s,
                    hooks,
                    mono_sha,
                    origins,
                    pub_ancestors,
                    j + 1,
                    true,
                    log,
                    next,
                );
                rest.update(j, at)
            },
            _ => Seq::new(origins.len(), |k: int| at),
        }
    }
}

proof fn lemma_anchor_walk(
    s: ResolvedSubrepoView,
    hooks: bool,
    exported: Map<Text, Text>,
    origin_by_mono: Seq<(Text, Seq<Text>)>,
    pub_ancestors: Seq<Text>,
    walk: Seq<Text>,
    start: int,
    related: bool,
    log: Seq<ReplyView>,
    at: int,
) -> (seen: (int, Seq<Seq<int>>))
    requires
        0 <= start <= walk.len(),
    ensures
        seen.1.len() == walk.len(),
        start <= seen.0 <= walk.len(),
        anchor_walk_step(
            s,
            hooks,
            exported,
            origin_by_mono,
            pub_ancestors,
            walk,
            start,
            related,
            log,
            at,
        ) matches Step::Done((base, now_related), _) ==> {
            let (i, looks) = seen;
            &&& related ==> now_related
            &&& base is Some ==> now_related
            &&& forall|k: int|
                start <= k < i ==> is_no_anchor(
                    s,
                    hooks,
                    exported,
                    values_of(origin_by_mono, walk[k]),
                    pub_ancestors,
                    walk[k],
                    log,
                    #[trigger] looks[k],
                )
            &&& match base {
                Some(base) => i < walk.len() && walk[i] == base && is_anchor(
                    s,
                    hooks,
                    exported,
                    values_of(origin_by_mono, walk[i]),
                    pub_ancestors,
                    walk[i],
                    log,
                    looks[i],
                ),
                None => i == walk.len(),
            }
        },
    decreases walk.len() - start,
{
    let none = Seq::new(walk.len(), |k: int| Seq::<int>::empty());
    if start >= walk.len() || exported.contains_key(walk[start]) {
        (start, none)
    } else {
        let origins = values_of(origin_by_mono, walk[start]);
        let looks = lemma_origins_anchor(
            s,
            hooks,
            walk[start],
            origins,
            pub_ancestors,
            0,
            related,
            log,
            at,
        );
        match origins_anchor_step(
            s,
            hooks,
            walk[start],
            origins,
            pub_ancestors,
            0,
            related,
            log,
            at,
        ) {
            Step::Done((false, now_related), next) => {
                let (i, rest) = lemma_anchor_walk(
                    s,
                    hooks,
                    exported,
                    origin_by_mono,
                    pub_ancestors,
                    walk,
                    start + 1,
                    now_related,
                    log,
                    next,
                );
                (i, rest.update(start, looks))
            },
            _ => (start, none.update(start, looks)),
        }
    }
}

/// The export scan starts at the newest anchor: the base is an anchor, and no commit above it on
/// the walk is one; without a base, no commit of the walk is. Two repositories with a base know
/// about each other. `i` is where the base stands, past the end if there is none, and `looks`
/// tells from which replies the imports of each commit were judged.
pub proof fn law_the_base_is_the_newest_anchor(
    s: ResolvedSubrepoView,
    hooks: bool,
    exported: Map<Text, Text>,
    origin_by_mono: Seq<(Text, Seq<Text>)>,
    pub_ancestors: Seq<Text>,
    log: Seq<ReplyView>,
    at: int,
) -> (seen: (int, Seq<Seq<int>>))
    ensures
        find_export_anchor_step(
            s,
            hooks,
            exported,
            origin_by_mono,
            pub_ancestors,
            log,
            at,
        ) matches Step::Done(Ok((base, related)), _) ==> {
            let (i, looks) = seen;
            &&& !exported.is_empty() ==> related
            &&& base is Some ==> related
            &&& exported.is_empty() && origin_by_mono.len() == 0 ==> base is None && !related
            &&& !exported.is_empty() || origin_by_mono.len() > 0 ==> (shas_at(log, at) matches Some(
                Ok(walk),
            ) && {
                &&& 0 <= i <= walk.len()
                &&& looks.len() == walk.len()
                &&& forall|k: int|
                    0 <= k < i ==> is_no_anchor(
                        s,
                        hooks,
                        exported,
                        values_of(origin_by_mono, walk[k]),
                        pub_ancestors,
                        walk[k],
                        log,
                        #[trigger] looks[k],
                    )
                &&& match base {
                    Some(base) => i < walk.len() && walk[i] == base && is_anchor(
                        s,
                        hooks,
                        exported,
                        values_of(origin_by_mono, walk[i]),
                        pub_ancestors,
                        walk[i],
                        log,
                        looks[i],
                    ),
                    None => i == walk.len(),
                }
            })
        },
{
    match shas_at(log, at) {
        Some(Ok(walk)) => lemma_anchor_walk(
            s,
            hooks,
            exported,
            origin_by_mono,
            pub_ancestors,
            walk,
            0,
            !exported.is_empty(),
            log,
            at + 1,
        ),
        _ => (0, Seq::empty()),
    }
}

/// A preview errs towards listing more. With a `transform`, which a preview does not run, no
/// import counts as reproduced, and so its base stands nowhere above the base that the hook
/// would have shown, on the same walk; `preview` and `full` are where the two bases stand.
pub proof fn law_a_preview_starts_no_later(
    s: ResolvedSubrepoView,
    exported: Map<Text, Text>,
    origin_by_mono: Seq<(Text, Seq<Text>)>,
    pub_ancestors: Seq<Text>,
    walk: Seq<Text>,
    preview_log: Seq<ReplyView>,
    preview_at: int,
    full_log: Seq<ReplyView>,
    full_at: int,
) -> (bases: (int, int))
    requires
        s.transform is Some,
        shas_at(preview_log, preview_at) == Some(Ok::<Seq<Text>, GitErrorView>(walk)),
        shas_at(full_log, full_at) == Some(Ok::<Seq<Text>, GitErrorView>(walk)),
    ensures
        (
            find_export_anchor_step(
                s,
                false,
                exported,
                origin_by_mono,
                pub_ancestors,
                preview_log,
                preview_at,
            ),
            find_export_anchor_step(
                s,
                true,
                exported,
                origin_by_mono,
                pub_ancestors,
                full_log,
                full_at,
            ),
        ) matches (Step::Done(Ok((shown, _)), _), Step::Done(Ok((base, _)), _)) ==> {
            let (preview, full) = bases;
            &&& 0 <= full <= preview <= walk.len()
            &&& shown == if preview < walk.len() {
                Some(walk[preview])
            } else {
                None
            }
            &&& base == if full < walk.len() {
                Some(walk[full])
            } else {
                None
            }
        },
{
    if exported.is_empty() && origin_by_mono.len() == 0 {
        (walk.len() as int, walk.len() as int)
    } else {
        let (preview, _) = law_the_base_is_the_newest_anchor(
            s,
            false,
            exported,
            origin_by_mono,
            pub_ancestors,
            preview_log,
            preview_at,
        );
        let (full, looks) = law_the_base_is_the_newest_anchor(
            s,
            true,
            exported,
            origin_by_mono,
            pub_ancestors,
            full_log,
            full_at,
        );
        if 0 <= preview < full <= walk.len() {
            let _ = looks[preview];
        }
        (preview, full)
    }
}

// --- the view as a whole ---

/// What holds of every view.
pub open spec fn consistent(view: SyncViewValue) -> bool {
    &&& keys_differ(view.origin_by_mono)
    &&& view.imported_pub_shas == distinct(origin_values(view.origin_by_mono))
    &&& view.last_exported_mono matches Some(last) ==> view.exported_mono_to_pub.contains_key(
        last,
    )
    &&& view.superseded_source_refs.len() > 0 ==> view.last_exported_mono is Some
    &&& view.export_base is Some ==> view.related
    &&& view.last_exported_mono is Some ==> view.related
    &&& view.broken_source_refs.len() > 0 ==> view.related
    &&& view.pub_head is None ==> view.export_base is None && view.last_exported_mono is None
        && view.unreflected_pub.len() == 0 && view.broken_source_refs.len() == 0 && !view.related
}

/// Every view that is derived is consistent, with the `transform` hook or without it.
pub proof fn law_a_derived_view_is_consistent(
    s: ResolvedSubrepoView,
    hooks: bool,
    offline: bool,
    log: Seq<ReplyView>,
    at: int,
)
    ensures
        view_step(s, hooks, offline, log, at) matches Step::Done(Ok(view), _) ==> consistent(view),
        load_sync_view_step(s, offline, log, at) matches Step::Done(Ok(view), _) ==> consistent(
            view,
        ),
        preview_sync_view_step(s, log, at) matches Step::Done(Ok(view), _) ==> consistent(view),
{
    lemma_view_is_consistent(s, hooks, offline, log, at);
    lemma_view_is_consistent(s, true, offline, log, at);
    lemma_view_is_consistent(s, false, false, log, at);
}

proof fn lemma_view_is_consistent(
    s: ResolvedSubrepoView,
    hooks: bool,
    offline: bool,
    log: Seq<ReplyView>,
    at: int,
)
    ensures
        view_step(s, hooks, offline, log, at) matches Step::Done(Ok(view), _) ==> consistent(view),
{
    match pub_head_step(s, offline, log, at) {
        Step::Done(Ok(pub_head), at) => {
            if let Some(Ok(origins)) = trailers_at(log, at + 1) {
                lemma_keyed(origins);
            }
            match (pub_head, origins_step(log, at)) {
                (Some(_), Step::Done(Ok(origins), at)) => match fetch_step(s, offline, log, at) {
                    Step::Done(Ok(_), at) => {
                        lemma_published_view_is_consistent(s, hooks, origins, log, at);
                    },
                    _ => {},
                },
                _ => {},
            }
        },
        _ => {},
    }
}

proof fn lemma_published_view_is_consistent(
    s: ResolvedSubrepoView,
    hooks: bool,
    origins: Seq<(Text, Seq<Text>)>,
    log: Seq<ReplyView>,
    at: int,
)
    requires
        keys_differ(origins),
    ensures
        forall|pub_head: Text| #[trigger]
            published_view_step(s, hooks, pub_head, origins, log, at) matches Step::Done(
                Ok(view),
                _,
            ) ==> consistent(view),
{
    match (trailers_at(log, at), shas_at(log, at + 1), shas_at(log, at + 2)) {
        (Some(Ok(source)), Some(Ok(walk)), Some(Ok(missing))) => {
            let all = claims(walk, source);
            lemma_newest_live(all, missing);
            let _ = law_the_base_is_the_newest_anchor(
                s,
                hooks,
                exported_map(all),
                origins,
                walk,
                log,
                at + 3,
            );
            if all.len() > 0 {
                let m = all[0].mono_sha;
                assert(claimed(all)[0] == m);
                lemma_mapped_iff_claimed(all, m);
                assert(exported_map(all).dom().contains(m));
            }
            let n = newest_live(all, missing);
            if n < all.len() {
                assert(claimed(all)[n] == all[n].mono_sha);
                lemma_mapped_iff_claimed(all, all[n].mono_sha);
            } else {
                law_without_a_live_claim_all_are_broken(all, missing);
            }
            if broken_refs(all, missing).len() > 0 {
                let claim = broken_refs(all, missing)[0];
                law_dead_claims_are_broken_or_superseded(all, missing, claim);
            }
        },
        _ => {},
    }
}

/// The imports that a view lists are those that monorepo history names, each of them once.
pub proof fn law_each_import_is_listed_once(view: SyncViewValue, sha: Text)
    requires
        consistent(view),
    ensures
        view.imported_pub_shas.no_duplicates(),
        view.imported_pub_shas.contains(sha) <==> origin_values(view.origin_by_mono).contains(sha),
{
    lemma_distinct(origin_values(view.origin_by_mono));
}

/// Every sync decision is made against the source repository and no other: deriving a view
/// changes nothing, runs no scan, and talks to the source alone; offline it talks to nobody.
pub proof fn law_a_view_asks_only_its_source(
    s: ResolvedSubrepoView,
    offline: bool,
    log: Seq<ReplyView>,
    at: int,
)
    ensures
        load_sync_view_step(s, offline, log, at) matches Step::Ask(request) ==> view_request(
            s,
            offline,
            request,
        ),
        load_sync_view_step(s, true, log, at) matches Step::Ask(request) ==> !contacts(request),
        preview_sync_view_step(s, log, at) matches Step::Ask(request) ==> view_request(
            s,
            false,
            request,
        ),
{
    lemma_view_asks(s, true, offline, log, at);
    lemma_view_asks(s, true, true, log, at);
    lemma_view_asks(s, false, false, log, at);
}

/// A view for a preview runs no hook, and prepares nothing for one.
pub proof fn law_a_preview_view_runs_no_hook(
    s: ResolvedSubrepoView,
    log: Seq<ReplyView>,
    at: int,
)
    ensures
        preview_sync_view_step(s, log, at) matches Step::Ask(request) ==> !runs_hook(request)
            && !prepares_hook(request),
{
    lemma_view_asks(s, false, false, log, at);
}

proof fn lemma_origins_anchor_without_hooks(
    s: ResolvedSubrepoView,
    mono_sha: Text,
    origins: Seq<Text>,
    pub_ancestors: Seq<Text>,
    j: int,
    related: bool,
    log: Seq<ReplyView>,
    at: int,
)
    requires
        s.transform is None,
    ensures
        origins_anchor_step(s, false, mono_sha, origins, pub_ancestors, j, related, log, at)
            == origins_anchor_step(s, true, mono_sha, origins, pub_ancestors, j, related, log, at),
    decreases origins.len() - j,
{
    if j < origins.len() {
        lemma_origins_anchor_without_hooks(
            s,
            mono_sha,
            origins,
            pub_ancestors,
            j + 1,
            related,
            log,
            at,
        );
        match reflects_exactly_step(s, true, mono_sha, origins[j], log, at) {
            Step::Done(false, next) => {
                lemma_origins_anchor_without_hooks(
                    s,
                    mono_sha,
                    origins,
                    pub_ancestors,
                    j + 1,
                    true,
                    log,
                    next,
                );
            },
            _ => {},
        }
    }
}

proof fn lemma_anchor_walk_without_hooks(
    s: ResolvedSubrepoView,
    exported: Map<Text, Text>,
    origin_by_mono: Seq<(Text, Seq<Text>)>,
    pub_ancestors: Seq<Text>,
    walk: Seq<Text>,
    i: int,
    related: bool,
    log: Seq<ReplyView>,
    at: int,
)
    requires
        s.transform is None,
    ensures
        anchor_walk_step(
            s,
            false,
            exported,
            origin_by_mono,
            pub_ancestors,
            walk,
            i,
            related,
            log,
            at,
        ) == anchor_walk_step(
            s,
            true,
            exported,
            origin_by_mono,
            pub_ancestors,
            walk,
            i,
            related,
            log,
            at,
        ),
    decreases walk.len() - i,
{
    if i < walk.len() {
        let origins = values_of(origin_by_mono, walk[i]);
        lemma_origins_anchor_without_hooks(
            s,
            walk[i],
            origins,
            pub_ancestors,
            0,
            related,
            log,
            at,
        );
        match origins_anchor_step(s, true, walk[i], origins, pub_ancestors, 0, related, log, at) {
            Step::Done((false, now_related), next) => {
                lemma_anchor_walk_without_hooks(
                    s,
                    exported,
                    origin_by_mono,
                    pub_ancestors,
                    walk,
                    i + 1,
                    now_related,
                    log,
                    next,
                );
            },
            _ => {},
        }
    }
}

/// Only a `transform` sets a preview apart: without one its view is the very view that a sync
/// derives.
pub proof fn law_without_a_transform_a_preview_sees_all(
    s: ResolvedSubrepoView,
    log: Seq<ReplyView>,
    at: int,
)
    requires
        s.transform is None,
    ensures
        preview_sync_view_step(s, log, at) == load_sync_view_step(s, false, log, at),
{
    match pub_head_step(s, false, log, at) {
        Step::Done(Ok(Some(_)), at) => match origins_step(log, at) {
            Step::Done(Ok(origins), at) => match (
                trailers_at(log, at + 1),
                shas_at(log, at + 2),
                shas_at(log, at + 4),
            ) {
                (Some(Ok(source)), Some(Ok(walk)), Some(Ok(mono_walk))) => {
                    let exported = exported_map(claims(walk, source));
                    lemma_anchor_walk_without_hooks(
                        s,
                        exported,
                        origins,
                        walk,
                        mono_walk,
                        0,
                        !exported.is_empty(),
                        log,
                        at + 5,
                    );
                },
                _ => {},
            },
            _ => {},
        },
        _ => {},
    }
}

// --- two derivations ---

proof fn lemma_walks_relate_alike(
    s: ResolvedSubrepoView,
    hooks: bool,
    other_hooks: bool,
    exported: Map<Text, Text>,
    origin_by_mono: Seq<(Text, Seq<Text>)>,
    pub_ancestors: Seq<Text>,
    walk: Seq<Text>,
    i: int,
    related: bool,
    log: Seq<ReplyView>,
    at: int,
    other: Seq<ReplyView>,
    other_at: int,
)
    requires
        0 <= i <= walk.len(),
        !exported.is_empty() ==> related,
    ensures
        (
            anchor_walk_step(
                s,
                hooks,
                exported,
                origin_by_mono,
                pub_ancestors,
                walk,
                i,
                related,
                log,
                at,
            ),
            anchor_walk_step(
                s,
                other_hooks,
                exported,
                origin_by_mono,
                pub_ancestors,
                walk,
                i,
                related,
                other,
                other_at,
            ),
        ) matches (Step::Done((_, one), _), Step::Done((_, two), _)) ==> one == two,
    decreases walk.len() - i,
{
    if i < walk.len() && !exported.contains_key(walk[i]) {
        let origins = values_of(origin_by_mono, walk[i]);
        let _ = lemma_origins_anchor(
            s,
            hooks,
            walk[i],
            origins,
            pub_ancestors,
            0,
            related,
            log,
            at,
        );
        let _ = lemma_origins_anchor(
            s,
            other_hooks,
            walk[i],
            origins,
            pub_ancestors,
            0,
            related,
            other,
            other_at,
        );
        match (
            origins_anchor_step(s, hooks, walk[i], origins, pub_ancestors, 0, related, log, at),
            origins_anchor_step(
                s,
                other_hooks,
                walk[i],
                origins,
                pub_ancestors,
                0,
                related,
                other,
                other_at,
            ),
        ) {
            (Step::Done((found, one), next), Step::Done((other_found, two), other_next)) => {
                if !found {
                    let _ = lemma_anchor_walk(
                        s,
                        hooks,
                        exported,
                        origin_by_mono,
                        pub_ancestors,
                        walk,
                        i + 1,
                        one,
                        log,
                        next,
                    );
                }
                if !other_found {
                    let _ = lemma_anchor_walk(
                        s,
                        other_hooks,
                        exported,
                        origin_by_mono,
                        pub_ancestors,
                        walk,
                        i + 1,
                        two,
                        other,
                        other_next,
                    );
                }
                if !found && !other_found {
                    assert(one == two);
                    lemma_walks_relate_alike(
                        s,
                        hooks,
                        other_hooks,
                        exported,
                        origin_by_mono,
                        pub_ancestors,
                        walk,
                        i + 1,
                        one,
                        log,
                        next,
                        other,
                        other_next,
                    );
                }
            },
            _ => {},
        }
    }
}

/// Where a derivation begins to compare trees: the heads, the trailers and the walks are known
/// by then.
pub open spec fn comparing_from(
    s: ResolvedSubrepoView,
    offline: bool,
    log: Seq<ReplyView>,
    at: int,
) -> int {
    match pub_head_step(s, offline, log, at) {
        Step::Done(Ok(pub_head), at) => match origins_step(log, at) {
            Step::Done(Ok(_), at) => match (pub_head, fetch_step(s, offline, log, at)) {
                (Some(_), Step::Done(Ok(_), at)) => at + 4,
                _ => at,
            },
            _ => at,
        },
        _ => at,
    }
}

/// Were two derivations, which ended at `end` and at `other_end`, told the same but for how the
/// trees compare? Before the comparisons stand the heads, the trailers and the walks; after them
/// git says which imports it has and which public commits are left.
pub open spec fn told_the_same(
    s: ResolvedSubrepoView,
    offline: bool,
    log: Seq<ReplyView>,
    end: int,
    other: Seq<ReplyView>,
    other_end: int,
    at: int,
) -> bool {
    &&& forall|i: int|
        at <= i < comparing_from(s, offline, log, at) ==> other[i] == #[trigger] log[i]
    &&& other[other_end - 2] == log[end - 2]
    &&& other[other_end - 1] == log[end - 1]
}

proof fn lemma_published_views_differ_in_the_base(
    s: ResolvedSubrepoView,
    hooks: bool,
    other_hooks: bool,
    pub_head: Text,
    origins: Seq<(Text, Seq<Text>)>,
    log: Seq<ReplyView>,
    end: int,
    other: Seq<ReplyView>,
    other_end: int,
    at: int,
)
    requires
        0 <= at,
        published_view_step(s, hooks, pub_head, origins, log, at) matches Step::Done(Ok(_), e)
            && e == end,
        published_view_step(s, other_hooks, pub_head, origins, other, at) matches Step::Done(
            Ok(_),
            e,
        ) && e == other_end,
        forall|i: int| at <= i < at + 4 ==> other[i] == #[trigger] log[i],
        other[other_end - 2] == log[end - 2],
        other[other_end - 1] == log[end - 1],
    ensures
        (
            published_view_step(s, hooks, pub_head, origins, log, at),
            published_view_step(s, other_hooks, pub_head, origins, other, at),
        ) matches (Step::Done(Ok(view), _), Step::Done(Ok(seen), _)) && seen == (SyncViewValue {
            export_base: seen.export_base,
            ..view
        }),
{
    assert(other[at] == log[at]);
    assert(other[at + 1] == log[at + 1]);
    assert(other[at + 2] == log[at + 2]);
    assert(other[at + 3] == log[at + 3]);
    match (trailers_at(log, at), shas_at(log, at + 1), shas_at(log, at + 2)) {
        (Some(Ok(source)), Some(Ok(walk)), Some(Ok(_))) => {
            let exported = exported_map(claims(walk, source));
            if let Some(Ok(mono_walk)) = shas_at(log, at + 3) {
                lemma_walks_relate_alike(
                    s,
                    hooks,
                    other_hooks,
                    exported,
                    origins,
                    walk,
                    mono_walk,
                    0,
                    !exported.is_empty(),
                    log,
                    at + 4,
                    other,
                    at + 4,
                );
            }
        },
        _ => {},
    }
}

/// Only the scan base rests on how trees compare. Two derivations that were told the same
/// otherwise, with the `transform` hook or without it, agree on all the rest: on the heads, the
/// mapping, the last export, what is broken, what is superseded, what is left to import, and
/// whether the two repositories are related.
pub proof fn law_only_the_base_rests_on_comparisons(
    s: ResolvedSubrepoView,
    hooks: bool,
    other_hooks: bool,
    offline: bool,
    log: Seq<ReplyView>,
    other: Seq<ReplyView>,
    at: int,
)
    requires
        0 <= at,
        (
            view_step(s, hooks, offline, log, at),
            view_step(s, other_hooks, offline, other, at),
        ) matches (Step::Done(Ok(_), end), Step::Done(Ok(_), other_end)) && told_the_same(
            s,
            offline,
            log,
            end,
            other,
            other_end,
            at,
        ),
    ensures
        (
            view_step(s, hooks, offline, log, at),
            view_step(s, other_hooks, offline, other, at),
        ) matches (Step::Done(Ok(view), _), Step::Done(Ok(seen), _)) && seen == (SyncViewValue {
            export_base: seen.export_base,
            ..view
        }),
{
    match (view_step(s, hooks, offline, log, at), view_step(s, other_hooks, offline, other, at)) {
        (Step::Done(Ok(_), end), Step::Done(Ok(_), other_end)) => {
            assert(other[at] == log[at]);
            match pub_head_step(s, offline, log, at) {
                Step::Done(Ok(pub_head), p) => {
                    assert(p == at + 1);
                    assert(other[at + 1] == log[at + 1]);
                    if rev_at(log, p) matches Some(Some(_)) {
                        assert(other[at + 2] == log[at + 2]);
                    }
                    assert(origins_step(other, p) == origins_step(log, p));
                    match (pub_head, origins_step(log, p)) {
                        (Some(pub_head), Step::Done(Ok(origins), p)) => {
                            if !offline {
                                assert(other[p] == log[p]);
                            }
                            match fetch_step(s, offline, log, p) {
                                Step::Done(Ok(_), p) => {
                                    lemma_published_views_differ_in_the_base(
                                        s,
                                        hooks,
                                        other_hooks,
                                        pub_head,
                                        origins,
                                        log,
                                        end,
                                        other,
                                        other_end,
                                        p,
                                    );
                                },
                                _ => {},
                            }
                        },
                        _ => {},
                    }
                },
                _ => {},
            }
        },
        _ => {},
    }
}

/// Offline, a subrepo that was never fetched is refused rather than guessed at.
pub proof fn law_offline_never_guesses(
    s: ResolvedSubrepoView,
    log: Seq<ReplyView>,
    at: int,
)
    requires
        rev_at(log, at) == Some(None::<Text>),
    ensures
        match load_sync_view_step(s, true, log, at) {
            Step::Ask(_) => true,
            Step::Done(Ok(_), _) => false,
            Step::Done(Err(err), _) => err is Git || err == (SyncViewErrorView::NoFetchYet {
                subrepo: s.name,
            }),
        },
{
}

// --- recovering an anchor ---

/// An anchor that HEAD still descends from is never recovered.
pub proof fn law_an_intact_anchor_is_never_recovered(
    subrepo: ResolvedSubrepoView,
    view: SyncViewValue,
    log: Seq<ReplyView>,
    at: int,
)
    requires
        export_base_rewritten_step(view.last_exported_mono, log, at) matches Step::Done(false, _),
    ensures
        find_anchor_recovery_step(subrepo, view, log, at) matches Step::Done(Ok(None), _),
        recover_export_anchor_step(subrepo, view, log, at) matches Step::Done(
            (Ok(None), after),
            _,
        ) && after == view,
{
}

/// A recovery is made once: where git finds the adopted commit below HEAD, nothing is left to
/// recover of the view that the recovery leaves, and a second try changes nothing. `later` is
/// what the second try is told, from `p` on.
pub proof fn law_a_recovered_anchor_is_intact(
    subrepo: ResolvedSubrepoView,
    view: SyncViewValue,
    log: Seq<ReplyView>,
    at: int,
    later: Seq<ReplyView>,
    p: int,
)
    requires
        flag_at(later, p) == Some(true),
    ensures
        recover_export_anchor_step(subrepo, view, log, at) matches Step::Done(
            (Ok(Some(recovery)), after),
            _,
        ) ==> {
            &&& after.last_exported_mono == Some(recovery.recovered)
            &&& export_base_rewritten_step(after.last_exported_mono, later, p) == Step::Done(
                false,
                p + 1,
            )
            &&& find_anchor_recovery_step(subrepo, after, later, p) matches Step::Done(Ok(None), _)
            &&& recover_export_anchor_step(subrepo, after, later, p) matches Step::Done(
                (Ok(None), unchanged),
                _,
            ) && unchanged == after
        },
{
}

/// Does the commit publish `target`, as the replies from `p` on have it?
pub open spec fn publishes_target(
    subrepo: ResolvedSubrepoView,
    target: Text,
    mono_sha: Text,
    log: Seq<ReplyView>,
    p: int,
) -> bool {
    anchor_subtree_step(mono_sha, subrepo, log, p) matches Step::Done(Ok(Some(tree)), _) && tree
        == target
}

/// Was the commit looked at, as the replies from `p` on have it, and does it not publish
/// `target`?
pub open spec fn publishes_otherwise(
    subrepo: ResolvedSubrepoView,
    target: Text,
    mono_sha: Text,
    log: Seq<ReplyView>,
    p: int,
) -> bool {
    anchor_subtree_step(mono_sha, subrepo, log, p) is Done && !publishes_target(
        subrepo,
        target,
        mono_sha,
        log,
        p,
    )
}

proof fn lemma_matches_in_a_row(
    subrepo: ResolvedSubrepoView,
    target: Text,
    walk: Seq<Text>,
    i: int,
    recovered: Text,
    also_matching: int,
    log: Seq<ReplyView>,
    at: int,
) -> (looks: Seq<int>)
    requires
        0 <= i <= walk.len(),
        recovery_walk_step(
            subrepo,
            target,
            walk,
            i,
            Some(recovered),
            also_matching,
            log,
            at,
        ) is Done,
    ensures
        recovery_walk_step(
            subrepo,
            target,
            walk,
            i,
            Some(recovered),
            also_matching,
            log,
            at,
        ) matches Step::Done((found, matching), _) && {
            &&& found == Some(recovered)
            &&& matching >= also_matching
            &&& i + (matching - also_matching) <= walk.len()
            &&& looks.len() >= matching - also_matching
            &&& forall|k: int|
                0 <= k < matching - also_matching ==> publishes_target(
                    subrepo,
                    target,
                    walk[i + k],
                    log,
                    #[trigger] looks[k],
                )
            &&& i + (matching - also_matching) < walk.len() ==> looks.len() > matching
                - also_matching && publishes_otherwise(
                subrepo,
                target,
                walk[i + (matching - also_matching)],
                log,
                looks[matching - also_matching],
            )
        },
    decreases walk.len() - i,
{
    if i >= walk.len() {
        Seq::empty()
    } else {
        match anchor_subtree_step(walk[i], subrepo, log, at) {
            Step::Done(tree, next) => {
                if tree == Ok::<Option<Text>, FilterErrorView>(Some(target)) {
                    let rest = lemma_matches_in_a_row(
                        subrepo,
                        target,
                        walk,
                        i + 1,
                        recovered,
                        also_matching + 1,
                        log,
                        next,
                    );
                    let looks = seq![at] + rest;
                    match recovery_walk_step(
                        subrepo,
                        target,
                        walk,
                        i,
                        Some(recovered),
                        also_matching,
                        log,
                        at,
                    ) {
                        Step::Done((_, matching), _) => {
                            assert forall|k: int|
                                0 <= k < matching - also_matching implies publishes_target(
                                subrepo,
                                target,
                                walk[i + k],
                                log,
                                #[trigger] looks[k],
                            ) by {
                                if k > 0 {
                                    assert(looks[k] == rest[k - 1]);
                                    assert(walk[i + k] == walk[i + 1 + (k - 1)]);
                                }
                            }
                            if i + (matching - also_matching) < walk.len() {
                                assert(looks[matching - also_matching] == rest[matching - (
                                also_matching + 1)]);
                            }
                        },
                        _ => {},
                    }
                    looks
                } else {
                    seq![at]
                }
            },
            _ => Seq::empty(),
        }
    }
}

/// A recovery adopts the newest commit on the walk that publishes what the standalone repository
/// already carries: no commit above it does. The further matches that it counts are those
/// directly below it, and the commit after them, if there is one, does not match. `i` is where
/// the adopted commit stands, and `looks` tells from which replies each commit was judged.
pub proof fn law_recovery_adopts_the_newest_match(
    subrepo: ResolvedSubrepoView,
    target: Text,
    walk: Seq<Text>,
    log: Seq<ReplyView>,
    at: int,
) -> (found_at: (int, Seq<int>))
    requires
        recovery_walk_step(subrepo, target, walk, 0, None, 0, log, at) matches Step::Done(
            (Some(_), _),
            _,
        ),
    ensures
        recovery_walk_step(subrepo, target, walk, 0, None, 0, log, at) matches Step::Done(
            (Some(recovered), also_matching),
            _,
        ) && {
            let (i, looks) = found_at;
            &&& 0 <= i
            &&& 0 <= also_matching
            &&& i + also_matching < walk.len()
            &&& walk[i] == recovered
            &&& looks.len() > i + also_matching
            &&& forall|k: int|
                0 <= k < i ==> publishes_otherwise(
                    subrepo,
                    target,
                    walk[k],
                    log,
                    #[trigger] looks[k],
                )
            &&& forall|k: int|
                i <= k <= i + also_matching ==> publishes_target(
                    subrepo,
                    target,
                    walk[k],
                    log,
                    #[trigger] looks[k],
                )
            &&& i + also_matching + 1 < walk.len() ==> looks.len() > i + also_matching + 1
                && publishes_otherwise(
                subrepo,
                target,
                walk[i + also_matching + 1],
                log,
                looks[i + also_matching + 1],
            )
        },
{
    lemma_first_match(subrepo, target, walk, 0, log, at)
}

proof fn lemma_first_match(
    subrepo: ResolvedSubrepoView,
    target: Text,
    walk: Seq<Text>,
    start: int,
    log: Seq<ReplyView>,
    at: int,
) -> (found_at: (int, Seq<int>))
    requires
        0 <= start,
        recovery_walk_step(subrepo, target, walk, start, None, 0, log, at) matches Step::Done(
            (Some(_), _),
            _,
        ),
    ensures
        recovery_walk_step(subrepo, target, walk, start, None, 0, log, at) matches Step::Done(
            (Some(recovered), also_matching),
            _,
        ) && {
            let (i, looks) = found_at;
            &&& 0 <= i
            &&& 0 <= also_matching
            &&& start + i + also_matching < walk.len()
            &&& walk[start + i] == recovered
            &&& looks.len() > i + also_matching
            &&& forall|k: int|
                0 <= k < i ==> publishes_otherwise(
                    subrepo,
                    target,
                    walk[start + k],
                    log,
                    #[trigger] looks[k],
                )
            &&& forall|k: int|
                i <= k <= i + also_matching ==> publishes_target(
                    subrepo,
                    target,
                    walk[start + k],
                    log,
                    #[trigger] looks[k],
                )
            &&& start + i + also_matching + 1 < walk.len() ==> looks.len() > i + also_matching + 1
                && publishes_otherwise(
                subrepo,
                target,
                walk[start + i + also_matching + 1],
                log,
                looks[i + also_matching + 1],
            )
        },
    decreases walk.len() - start,
{
    let also_matching = recovery_walk_step(
        subrepo,
        target,
        walk,
        start,
        None,
        0,
        log,
        at,
    )->Done_0.1;
    match anchor_subtree_step(walk[start], subrepo, log, at) {
        Step::Done(tree, next) => {
            if tree == Ok::<Option<Text>, FilterErrorView>(Some(target)) {
                let rest = lemma_matches_in_a_row(
                    subrepo,
                    target,
                    walk,
                    start + 1,
                    walk[start],
                    0,
                    log,
                    next,
                );
                let looks = seq![at] + rest;
                assert forall|k: int| 0 <= k <= also_matching implies publishes_target(
                    subrepo,
                    target,
                    walk[start + k],
                    log,
                    #[trigger] looks[k],
                ) by {
                    if k > 0 {
                        assert(looks[k] == rest[k - 1]);
                        assert(walk[start + k] == walk[start + 1 + (k - 1)]);
                    }
                }
                if start + also_matching + 1 < walk.len() {
                    assert(looks[also_matching + 1] == rest[also_matching]);
                }
                (0, looks)
            } else {
                let (i, rest) = lemma_first_match(
                    subrepo,
                    target,
                    walk,
                    start + 1,
                    log,
                    next,
                );
                let looks = seq![at] + rest;
                assert forall|k: int| 0 <= k < i + 1 implies publishes_otherwise(
                    subrepo,
                    target,
                    walk[start + k],
                    log,
                    #[trigger] looks[k],
                ) by {
                    if k > 0 {
                        assert(looks[k] == rest[k - 1]);
                        assert(walk[start + k] == walk[start + 1 + (k - 1)]);
                    }
                }
                assert forall|k: int|
                    i + 1 <= k <= i + 1 + also_matching implies publishes_target(
                    subrepo,
                    target,
                    walk[start + k],
                    log,
                    #[trigger] looks[k],
                ) by {
                    assert(looks[k] == rest[k - 1]);
                    assert(walk[start + k] == walk[start + 1 + (k - 1)]);
                }
                if start + i + 1 + also_matching + 1 < walk.len() {
                    assert(looks[i + 1 + also_matching + 1] == rest[i + also_matching + 1]);
                }
                (i + 1, looks)
            }
        },
        _ => (0, Seq::empty()),
    }
}

/// Only the anchor moves. Adopting a recovery changes the scan base, the last export and the
/// mapping of the adopted commit, and nothing else; above all not what is left to import. The
/// scan base only moves forward: it stays where it was only if git says that the adopted commit
/// is an ancestor of it. Without a recovery the view is as it was, and so it stays consistent.
pub proof fn law_only_the_anchor_moves(
    subrepo: ResolvedSubrepoView,
    view: SyncViewValue,
    log: Seq<ReplyView>,
    at: int,
)
    ensures
        recover_export_anchor_step(subrepo, view, log, at) matches Step::Done((result, after), end)
            ==> {
            &&& after.unreflected_pub == view.unreflected_pub
            &&& after.broken_source_refs == view.broken_source_refs
            &&& after.superseded_source_refs == view.superseded_source_refs
            &&& after.imported_pub_shas == view.imported_pub_shas
            &&& after.origin_by_mono == view.origin_by_mono
            &&& after.tracking_ref == view.tracking_ref
            &&& after.pub_head == view.pub_head
            &&& after.related == view.related
            &&& consistent(view) ==> consistent(after)
            &&& match result {
                Ok(Some(recovery)) => {
                    &&& view.last_exported_mono == Some(recovery.missing)
                    &&& view.exported_mono_to_pub.contains_key(recovery.missing)
                    &&& recovery.pub_sha == view.exported_mono_to_pub[recovery.missing]
                    &&& after.last_exported_mono == Some(recovery.recovered)
                    &&& after.exported_mono_to_pub == view.exported_mono_to_pub.insert(
                        recovery.recovered,
                        recovery.pub_sha,
                    )
                    &&& after.export_base == Some(recovery.recovered) || (
                    view.export_base is Some && after.export_base == view.export_base && flag_at(
                        log,
                        end - 1,
                    ) == Some(true))
                },
                _ => after == view,
            }
        },
{
}

} // verus!
