//! What a view says about the two histories, reply by reply.

use vstd::prelude::*;
use vstd::string::*;
use crate::config::ResolvedSubrepoView;
use crate::filter::{anchor_subtree_step, name_subtree_step, without_scan};
use crate::git::GitErrorView;
use crate::index::{distinct, keyed, lemma_distinct, lemma_keyed, lookup};
use crate::laws::vocabulary::{fork_mirror_ref, mirror_ref, pulled_from};
use crate::list::lemma_filter_contains;
use crate::sync_view::{
    anchor_walk_step, claimed, claims, claims_of, exported_map, find_export_anchor_step,
    find_unreflected_pub_step, last_exported, lemma_mapped_iff_claimed, lemma_newest_live,
    load_fork_state_step, negations, newest_live, origin_values, origins_anchor_step,
    reflects_exactly_step, try_load_fork_state_step, values_of, view_step, ForkStateView,
    SourceRefView, SyncViewErrorView, broken_refs, superseded_refs,
};
use crate::talk::{
    acted_at, branch_at, rev_at, shas_at, text_at, trailers_at, ReplyView, RequestView, Step,
};
use crate::text::{lemma_lines_concat, lemma_one_line, lines_of, Text};

verus! {

// --- what is left to import ---

/// The lines that a walk is told to leave commits out by: one for each of them, in their order.
pub open spec fn left_out(shas: Seq<Text>) -> Seq<Text> {
    shas.map_values(|sha: Text| "^"@ + sha)
}

proof fn lemma_negations(shas: Seq<Text>)
    requires
        forall|i: int| 0 <= i < shas.len() ==> !(#[trigger] shas[i]).contains('\n'),
    ensures
        lines_of(negations(shas)) == left_out(shas).push(Seq::empty()),
    decreases shas.len(),
{
    reveal_strlit("^");
    reveal_strlit("\n");
    if shas.len() == 0 {
        assert(lines_of(negations(shas)) =~= left_out(shas).push(Seq::empty()));
    } else {
        let before = shas.drop_last();
        lemma_negations(before);
        let line = "^"@ + shas.last();
        assert(shas[shas.len() - 1] == shas.last());
        assert(!line.contains('\n')) by {
            if line.contains('\n') {
                let i = choose|i: int| 0 <= i < line.len() && line[i] == '\n';
                if i > 0 {
                    assert(shas.last()[i - 1] == '\n');
                }
            }
        }
        lemma_one_line(line);
        lemma_lines_concat(negations(before) + line, Seq::empty());
        assert(negations(shas) =~= negations(before) + line + seq!['\n'] + Seq::<char>::empty());
        lemma_lines_end(negations(before), line);
        assert(lines_of(Seq::<char>::empty()) =~= seq![Seq::<char>::empty()]);
        assert(left_out(shas).push(Seq::empty()) =~= left_out(before).push(line).push(
            Seq::empty(),
        ));
    }
}

/// What follows the last newline joins the last line.
proof fn lemma_lines_end(t: Text, line: Text)
    requires
        lines_of(t).len() > 0,
        lines_of(t).last().len() == 0,
        !line.contains('\n'),
    ensures
        lines_of(t + line) == lines_of(t).drop_last().push(line),
    decreases line.len(),
{
    if line.len() == 0 {
        assert(t + line =~= t);
        assert(line =~= Seq::empty());
        assert(lines_of(t).last() =~= Seq::empty());
        assert(lines_of(t).drop_last().push(line) =~= lines_of(t));
    } else {
        let before = line.drop_last();
        assert forall|i: int| 0 <= i < before.len() implies before[i] != '\n' by {
            assert(line[i] == before[i]);
        }
        lemma_lines_end(t, before);
        assert((t + line).drop_last() =~= t + before);
        assert(line[line.len() - 1] != '\n');
        assert(before.push(line.last()) =~= line);
        assert(lines_of(t + line) =~= lines_of(t).drop_last().push(line));
    }
}

/// What is asked to find what is left to import. Git says which of the imports it has, all of
/// them; every one that it has is left out of the walk, by a line of its own and with nothing
/// else among the lines; and the walk runs over the mirrored branch, oldest first.
pub proof fn law_every_import_is_left_out_of_the_walk(
    tracking_ref: Text,
    imported_pub_shas: Seq<Text>,
    source_by_pub: Seq<(Text, Seq<Text>)>,
    log: Seq<ReplyView>,
    at: int,
)
    ensures
        ({
            let step = find_unreflected_pub_step(
                tracking_ref,
                imported_pub_shas,
                source_by_pub,
                log,
                at,
            );
            match (shas_at(log, at), text_at(log, at + 1)) {
                (None, _) => step matches Step::Ask(RequestView::ExistingCommits { shas }) && shas
                    == imported_pub_shas,
                (Some(Err(err)), _) => step matches Step::Done(Err(failed), _) && failed == err,
                (Some(Ok(reflected)), None) => step matches Step::Ask(
                    RequestView::Git { args, input },
                ) && {
                    &&& args.len() == if reflected.len() == 0 {
                        3int
                    } else {
                        4int
                    }
                    &&& args.take(3) == seq!["rev-list"@, "--reverse"@, tracking_ref]
                    &&& args.len() == 4 ==> args[3] == "--stdin"@
                    &&& input is None <==> reflected.len() == 0
                    &&& forall|i: int|
                        0 <= i < reflected.len() && (forall|j: int|
                            0 <= j < reflected.len() ==> !(
                            #[trigger] reflected[j]).contains('\n')) ==> lines_of(
                            input->0,
                        ).contains("^"@ + #[trigger] reflected[i])
                    &&& reflected.len() > 0 && (forall|j: int|
                        0 <= j < reflected.len() ==> !(#[trigger] reflected[j]).contains('\n'))
                        ==> lines_of(input->0) == left_out(reflected).push(Seq::empty())
                },
                (Some(Ok(_)), Some(Err(err))) => step matches Step::Done(Err(failed), _) && failed
                    == err,
                (Some(Ok(_)), Some(Ok(out))) => step matches Step::Done(Ok(pending), end) && end
                    == at + 2 && pending == if out.len() == 0 {
                    Seq::empty()
                } else {
                    lines_of(out).filter(|sha: Text| values_unknown(source_by_pub, sha))
                },
            }
        }),
{
    match (shas_at(log, at), text_at(log, at + 1)) {
        (Some(Ok(reflected)), None) => {
            assert(seq!["rev-list"@, "--reverse"@, tracking_ref, "--stdin"@].take(3) =~= seq![
                "rev-list"@,
                "--reverse"@,
                tracking_ref,
            ]);
            assert(seq!["rev-list"@, "--reverse"@, tracking_ref].take(3) =~= seq![
                "rev-list"@,
                "--reverse"@,
                tracking_ref,
            ]);
            if forall|j: int|
                0 <= j < reflected.len() ==> !(#[trigger] reflected[j]).contains('\n') {
                lemma_negations(reflected);
                assert forall|i: int| 0 <= i < reflected.len() implies lines_of(
                    negations(reflected),
                ).contains("^"@ + #[trigger] reflected[i]) by {
                    assert(left_out(reflected).push(Seq::empty())[i] == "^"@ + reflected[i]);
                }
            }
        },
        (Some(Ok(_)), Some(Ok(out))) => {
            let one = |sha: Text| values_unknown(source_by_pub, sha);
            let two = |sha: Text| lookup(source_by_pub, sha) is None;
            assert forall|sha: Text| #[trigger] one(sha) == two(sha) by {
                lemma_unknown(source_by_pub, sha);
            }
            lemma_same_filter(lines_of(out), one, two);
        },
        _ => {},
    }
}

/// Does no pair of the list say anything about the commit?
pub open spec fn values_unknown(pairs: Seq<(Text, Seq<Text>)>, sha: Text) -> bool {
    forall|i: int| 0 <= i < pairs.len() ==> (#[trigger] pairs[i]).0 != sha
}

proof fn lemma_unknown(pairs: Seq<(Text, Seq<Text>)>, sha: Text)
    ensures
        values_unknown(pairs, sha) <==> lookup(pairs, sha) is None,
    decreases pairs.len(),
{
    if pairs.len() > 0 {
        let rest = pairs.drop_first();
        lemma_unknown(rest, sha);
        if pairs[0].0 != sha && values_unknown(rest, sha) {
            assert forall|i: int| 0 <= i < pairs.len() implies (#[trigger] pairs[i]).0 != sha by {
                if i > 0 {
                    assert(rest[i - 1] == pairs[i]);
                }
            }
        }
        if values_unknown(pairs, sha) {
            assert forall|i: int| 0 <= i < rest.len() implies (#[trigger] rest[i]).0 != sha by {
                assert(pairs[i + 1] == rest[i]);
            }
        }
    }
}

proof fn lemma_same_filter(s: Seq<Text>, one: spec_fn(Text) -> bool, two: spec_fn(Text) -> bool)
    requires
        forall|t: Text| #[trigger] one(t) == two(t),
    ensures
        s.filter(one) == s.filter(two),
    decreases s.len(),
{
    reveal(Seq::filter);
    if s.len() > 0 {
        lemma_same_filter(s.drop_last(), one, two);
        assert(one(s.last()) == two(s.last()));
    }
}

/// No import, and nothing below an import, is ever pending; and everything else on the public
/// branch that is not an export is. `below` is ancestry, as git knows it, `on_branch` is what the
/// mirrored branch reaches, and git is honest about the walk that it was asked for: it lists what
/// the branch reaches and what is not below a commit that a line of the input leaves out.
pub proof fn law_no_import_is_pending(
    below: spec_fn(Text, Text) -> bool,
    on_branch: spec_fn(Text) -> bool,
    tracking_ref: Text,
    imported_pub_shas: Seq<Text>,
    source_by_pub: Seq<(Text, Seq<Text>)>,
    log: Seq<ReplyView>,
    at: int,
    reflected: Seq<Text>,
    out: Text,
    sha: Text,
)
    requires
        0 <= at,
        shas_at(log, at) == Some(Ok::<Seq<Text>, GitErrorView>(reflected)),
        text_at(log, at + 1) == Some(Ok::<Text, GitErrorView>(out)),
        forall|i: int| 0 <= i < reflected.len() ==> !(#[trigger] reflected[i]).contains('\n'),
        sha.len() > 0,
        find_unreflected_pub_step(
            tracking_ref,
            imported_pub_shas,
            source_by_pub,
            log.take(at + 1),
            at,
        ) matches Step::Ask(RequestView::Git { input, .. }) && (lines_of(out).contains(sha)
            <==> on_branch(sha) && !(input is Some && exists|left: Text|
            lines_of(input->0).contains("^"@ + left) && #[trigger] below(sha, left))),
    ensures
        find_unreflected_pub_step(
            tracking_ref,
            imported_pub_shas,
            source_by_pub,
            log,
            at,
        ) matches Step::Done(Ok(pending), _) && (pending.contains(sha) <==> on_branch(sha)
            && values_unknown(source_by_pub, sha) && forall|i: int|
            0 <= i < reflected.len() ==> !below(sha, #[trigger] reflected[i])),
{
    let before = log.take(at + 1);
    assert(before[at] == log[at]);
    law_every_import_is_left_out_of_the_walk(
        tracking_ref,
        imported_pub_shas,
        source_by_pub,
        before,
        at,
    );
    law_every_import_is_left_out_of_the_walk(
        tracking_ref,
        imported_pub_shas,
        source_by_pub,
        log,
        at,
    );
    lemma_filter_contains(
        lines_of(out),
        |sha: Text| values_unknown(source_by_pub, sha),
        sha,
    );
    reveal_strlit("^");
    if out.len() == 0 {
        assert(out =~= Seq::empty());
        assert(lines_of(out) =~= seq![Seq::<char>::empty()]);
    }
    match find_unreflected_pub_step(
        tracking_ref,
        imported_pub_shas,
        source_by_pub,
        before,
        at,
    ) {
        Step::Ask(RequestView::Git { args: _, input }) => {
            if input is Some {
                let lines = left_out(reflected).push(Seq::empty());
                if forall|i: int| 0 <= i < reflected.len() ==> !below(
                    sha,
                    #[trigger] reflected[i],
                ) {
                    assert forall|left: Text|
                        lines.contains("^"@ + left) implies !#[trigger] below(sha, left) by {
                        let i = choose|i: int| 0 <= i < lines.len() && lines[i] == "^"@ + left;
                        assert(("^"@ + left)[0] == '^');
                        if i == reflected.len() {
                            assert(lines[i].len() == 0);
                        }
                        assert(("^"@ + left).skip(1) =~= left);
                        assert(("^"@ + reflected[i]).skip(1) =~= reflected[i]);
                        assert(!below(sha, reflected[i]));
                    }
                } else {
                    let i = choose|i: int|
                        0 <= i < reflected.len() && below(sha, #[trigger] reflected[i]);
                    assert(lines.contains("^"@ + reflected[i]));
                }
            }
        },
        _ => {},
    }
}

// --- the mapping ---

/// The claims are the trailers: one for each value of each commit on the walk, in the order of
/// the walk, and of one commit in the order of its trailers.
pub proof fn law_the_claims_are_the_trailers(
    walk: Seq<Text>,
    more: Seq<Text>,
    source_by_pub: Seq<(Text, Seq<Text>)>,
    claim: SourceRefView,
)
    ensures
        claims(walk, source_by_pub).contains(claim) <==> walk.contains(claim.pub_sha) && values_of(
            source_by_pub,
            claim.pub_sha,
        ).contains(claim.mono_sha),
        claims(walk + more, source_by_pub) == claims(walk, source_by_pub) + claims(
            more,
            source_by_pub,
        ),
        walk.len() == 1 ==> claims(walk, source_by_pub).len() == values_of(
            source_by_pub,
            walk[0],
        ).len() && forall|i: int|
            0 <= i < claims(walk, source_by_pub).len() ==> (#[trigger] claims(
                walk,
                source_by_pub,
            )[i]).pub_sha == walk[0] && claims(walk, source_by_pub)[i].mono_sha == values_of(
                source_by_pub,
                walk[0],
            )[i],
{
    lemma_claims_contain(walk, source_by_pub, claim);
    lemma_claims_concat(walk, more, source_by_pub);
    if walk.len() == 1 {
        assert(walk.drop_last() =~= Seq::empty());
        assert(claims(walk.drop_last(), source_by_pub) =~= Seq::empty());
        assert(claims(walk, source_by_pub) =~= claims_of(
            walk[0],
            values_of(source_by_pub, walk[0]),
        ));
    }
}

proof fn lemma_claims_concat(
    walk: Seq<Text>,
    more: Seq<Text>,
    source_by_pub: Seq<(Text, Seq<Text>)>,
)
    ensures
        claims(walk + more, source_by_pub) == claims(walk, source_by_pub) + claims(
            more,
            source_by_pub,
        ),
    decreases more.len(),
{
    if more.len() == 0 {
        assert(walk + more =~= walk);
        assert(claims(walk, source_by_pub) + claims(more, source_by_pub) =~= claims(
            walk,
            source_by_pub,
        ));
    } else {
        lemma_claims_concat(walk, more.drop_last(), source_by_pub);
        assert((walk + more).drop_last() =~= walk + more.drop_last());
        assert(claims(walk + more, source_by_pub) =~= claims(walk, source_by_pub) + claims(
            more,
            source_by_pub,
        ));
    }
}

proof fn lemma_claims_contain(
    walk: Seq<Text>,
    source_by_pub: Seq<(Text, Seq<Text>)>,
    claim: SourceRefView,
)
    ensures
        claims(walk, source_by_pub).contains(claim) <==> walk.contains(claim.pub_sha) && values_of(
            source_by_pub,
            claim.pub_sha,
        ).contains(claim.mono_sha),
    decreases walk.len(),
{
    if walk.len() > 0 {
        let before = walk.drop_last();
        let all = claims(walk, source_by_pub);
        let earlier = claims(before, source_by_pub);
        let values = values_of(source_by_pub, walk.last());
        lemma_claims_contain(before, source_by_pub, claim);
        if all.contains(claim) {
            let i = choose|i: int| 0 <= i < all.len() && all[i] == claim;
            if i < earlier.len() {
                assert(earlier[i] == claim);
                let j = choose|j: int| 0 <= j < before.len() && before[j] == claim.pub_sha;
                assert(walk[j] == claim.pub_sha);
            } else {
                assert(values[i - earlier.len()] == claim.mono_sha);
                assert(walk[walk.len() - 1] == claim.pub_sha);
            }
        }
        if walk.contains(claim.pub_sha) && values_of(source_by_pub, claim.pub_sha).contains(
            claim.mono_sha,
        ) {
            let j = choose|j: int| 0 <= j < walk.len() && walk[j] == claim.pub_sha;
            if j < before.len() {
                assert(before[j] == claim.pub_sha);
                let i = choose|i: int| 0 <= i < earlier.len() && earlier[i] == claim;
                assert(all[i] == claim);
            } else {
                let k = choose|k: int| 0 <= k < values.len() && values[k] == claim.mono_sha;
                assert(all[earlier.len() + k] == claim);
            }
        }
    }
}

/// The mapping is what the public branch says of itself: it names a monorepo commit exactly when
/// a commit on the walk has a trailer for it, and it names the first such commit on the walk.
pub proof fn law_the_mapping_is_what_the_branch_says(
    walk: Seq<Text>,
    source_by_pub: Seq<(Text, Seq<Text>)>,
    mono_sha: Text,
    i: int,
)
    requires
        0 <= i < walk.len(),
        values_of(source_by_pub, walk[i]).contains(mono_sha),
        forall|j: int|
            0 <= j < i ==> !values_of(source_by_pub, #[trigger] walk[j]).contains(mono_sha),
    ensures
        exported_map(claims(walk, source_by_pub)).contains_key(mono_sha),
        exported_map(claims(walk, source_by_pub))[mono_sha] == walk[i],
{
    let all = claims(walk, source_by_pub);
    let above = walk.take(i);
    lemma_claims_concat(above, walk.skip(i), source_by_pub);
    assert(above + walk.skip(i) =~= walk);
    lemma_claims_concat(seq![walk[i]], walk.skip(i + 1), source_by_pub);
    assert(seq![walk[i]] + walk.skip(i + 1) =~= walk.skip(i));
    let earlier = claims(above, source_by_pub);
    let own = claims(seq![walk[i]], source_by_pub);
    let values = values_of(source_by_pub, walk[i]);
    law_the_claims_are_the_trailers(
        seq![walk[i]],
        Seq::empty(),
        source_by_pub,
        SourceRefView { pub_sha: walk[i], mono_sha },
    );
    assert forall|k: int| 0 <= k < earlier.len() implies (#[trigger] earlier[k]).mono_sha
        != mono_sha by {
        lemma_claims_contain(above, source_by_pub, earlier[k]);
        assert(earlier.contains(earlier[k]));
        let j = choose|j: int| 0 <= j < above.len() && above[j] == earlier[k].pub_sha;
        assert(walk[j] == above[j]);
    }
    let v = first_of(values, mono_sha);
    lemma_first_of(values, mono_sha);
    let n = earlier.len() + v;
    assert(all[n] == own[v]);
    assert forall|k: int| 0 <= k < n implies (#[trigger] all[k]).mono_sha != all[n].mono_sha by {
        if k < earlier.len() {
            assert(all[k] == earlier[k]);
        } else {
            assert(all[k] == own[k - earlier.len()]);
            assert(values[k - earlier.len()] != mono_sha);
        }
    }
    crate::laws::view::law_the_newest_claim_is_recorded(all, n);
}

/// Where a text first stands in a list.
spec fn first_of(values: Seq<Text>, value: Text) -> int
    decreases values.len(),
{
    if values.len() == 0 || values[0] == value {
        0
    } else {
        first_of(values.drop_first(), value) + 1
    }
}

proof fn lemma_first_of(values: Seq<Text>, value: Text)
    requires
        values.contains(value),
    ensures
        0 <= first_of(values, value) < values.len(),
        values[first_of(values, value)] == value,
        forall|k: int| 0 <= k < first_of(values, value) ==> #[trigger] values[k] != value,
    decreases values.len(),
{
    if values[0] != value {
        let rest = values.drop_first();
        let i = choose|i: int| 0 <= i < values.len() && values[i] == value;
        assert(rest[i - 1] == value);
        lemma_first_of(rest, value);
        assert forall|k: int| 0 <= k < first_of(values, value) implies #[trigger] values[k]
            != value by {
            if k > 0 {
                assert(rest[k - 1] == values[k]);
            }
        }
    }
}

/// The imports are what monorepo history says it imported: every value of every commit.
pub proof fn law_the_imports_are_the_trailers(origin_by_mono: Seq<(Text, Seq<Text>)>, sha: Text)
    ensures
        origin_values(origin_by_mono).contains(sha) <==> exists|i: int|
            0 <= i < origin_by_mono.len() && (#[trigger] origin_by_mono[i]).1.contains(sha),
    decreases origin_by_mono.len(),
{
    if origin_by_mono.len() > 0 {
        let before = origin_by_mono.drop_last();
        let last = origin_by_mono.last().1;
        let all = origin_values(origin_by_mono);
        law_the_imports_are_the_trailers(before, sha);
        if all.contains(sha) {
            let k = choose|k: int| 0 <= k < all.len() && all[k] == sha;
            if k < origin_values(before).len() {
                assert(origin_values(before)[k] == sha);
                let i = choose|i: int|
                    0 <= i < before.len() && (#[trigger] before[i]).1.contains(sha);
                assert(origin_by_mono[i].1.contains(sha));
            } else {
                assert(last[k - origin_values(before).len()] == sha);
                assert(origin_by_mono[origin_by_mono.len() - 1].1.contains(sha));
            }
        }
        if exists|i: int|
            0 <= i < origin_by_mono.len() && (#[trigger] origin_by_mono[i]).1.contains(sha) {
            let i = choose|i: int|
                0 <= i < origin_by_mono.len() && (#[trigger] origin_by_mono[i]).1.contains(sha);
            if i < before.len() {
                assert(before[i].1.contains(sha));
                let k = choose|k: int|
                    0 <= k < origin_values(before).len() && origin_values(before)[k] == sha;
                assert(all[k] == sha);
            } else {
                let k = choose|k: int| 0 <= k < last.len() && last[k] == sha;
                assert(all[origin_values(before).len() + k] == sha);
            }
        }
    }
}

// --- the anchor ---

/// Two repositories are related exactly when one of them names the other: something was
/// exported, or some commit of HEAD's history imported a commit that the public branch has.
pub proof fn law_related_means_that_one_names_the_other(
    s: ResolvedSubrepoView,
    hooks: bool,
    exported: Map<Text, Text>,
    origin_by_mono: Seq<(Text, Seq<Text>)>,
    pub_ancestors: Seq<Text>,
    log: Seq<ReplyView>,
    at: int,
)
    ensures
        find_export_anchor_step(
            s,
            hooks,
            exported,
            origin_by_mono,
            pub_ancestors,
            log,
            at,
        ) matches Step::Done(Ok((_, related)), _) ==> {
            &&& exported.is_empty() && origin_by_mono.len() == 0 ==> !related
            &&& !exported.is_empty() ==> related
            &&& shas_at(log, at) matches Some(Ok(walk)) ==> exported.is_empty()
                && origin_by_mono.len() > 0 ==> (related <==> exists|i: int|
                0 <= i < walk.len() && #[trigger] imports_one_of(
                    values_of(origin_by_mono, walk[i]),
                    pub_ancestors,
                ))
        },
        (!exported.is_empty() || origin_by_mono.len() > 0) && shas_at(log, at) is None
            ==> find_export_anchor_step(
            s,
            hooks,
            exported,
            origin_by_mono,
            pub_ancestors,
            log,
            at,
        ) == Step::<Result<(Option<Text>, bool), GitErrorView>>::Ask(
            RequestView::RevList { args: seq!["HEAD"@] },
        ),
{
    match shas_at(log, at) {
        Some(Ok(walk)) => {
            lemma_walk_relates(
                s,
                hooks,
                exported,
                origin_by_mono,
                pub_ancestors,
                walk,
                0,
                !exported.is_empty(),
                log,
                at + 1,
            );
        },
        _ => {},
    }
}

/// Is one of these public commits on the public branch?
pub open spec fn imports_one_of(origins: Seq<Text>, pub_ancestors: Seq<Text>) -> bool {
    exists|k: int| 0 <= k < origins.len() && pub_ancestors.contains(#[trigger] origins[k])
}

proof fn lemma_origins_relate(
    s: ResolvedSubrepoView,
    hooks: bool,
    mono_sha: Text,
    origins: Seq<Text>,
    pub_ancestors: Seq<Text>,
    j: int,
    related: bool,
    log: Seq<ReplyView>,
    at: int,
)
    requires
        0 <= j,
    ensures
        origins_anchor_step(
            s,
            hooks,
            mono_sha,
            origins,
            pub_ancestors,
            j,
            related,
            log,
            at,
        ) matches Step::Done((found, now_related), _) ==> {
            &&& found ==> now_related && imports_one_of(origins, pub_ancestors)
            &&& now_related <==> related || exists|k: int|
                j <= k < origins.len() && pub_ancestors.contains(#[trigger] origins[k])
        },
    decreases origins.len() - j,
{
    if j < origins.len() {
        if pub_ancestors.contains(origins[j]) {
            match reflects_exactly_step(s, hooks, mono_sha, origins[j], log, at) {
                Step::Done(false, next) => {
                    lemma_origins_relate(
                        s,
                        hooks,
                        mono_sha,
                        origins,
                        pub_ancestors,
                        j + 1,
                        true,
                        log,
                        next,
                    );
                },
                _ => {},
            }
        } else {
            lemma_origins_relate(
                s,
                hooks,
                mono_sha,
                origins,
                pub_ancestors,
                j + 1,
                related,
                log,
                at,
            );
        }
    }
}

proof fn lemma_walk_relates(
    s: ResolvedSubrepoView,
    hooks: bool,
    exported: Map<Text, Text>,
    origin_by_mono: Seq<(Text, Seq<Text>)>,
    pub_ancestors: Seq<Text>,
    walk: Seq<Text>,
    i: int,
    related: bool,
    log: Seq<ReplyView>,
    at: int,
)
    requires
        0 <= i,
    ensures
        anchor_walk_step(
            s,
            hooks,
            exported,
            origin_by_mono,
            pub_ancestors,
            walk,
            i,
            related,
            log,
            at,
        ) matches Step::Done((_, now_related), _) ==> {
            &&& related ==> now_related
            &&& exported.is_empty() ==> (now_related <==> related || exists|k: int|
                i <= k < walk.len() && #[trigger] imports_one_of(
                    values_of(origin_by_mono, walk[k]),
                    pub_ancestors,
                ))
        },
    decreases walk.len() - i,
{
    if i < walk.len() && !exported.contains_key(walk[i]) {
        let origins = values_of(origin_by_mono, walk[i]);
        lemma_origins_relate(s, hooks, walk[i], origins, pub_ancestors, 0, related, log, at);
        match origins_anchor_step(s, hooks, walk[i], origins, pub_ancestors, 0, related, log, at) {
            Step::Done((false, now_related), next) => {
                lemma_walk_relates(
                    s,
                    hooks,
                    exported,
                    origin_by_mono,
                    pub_ancestors,
                    walk,
                    i + 1,
                    now_related,
                    log,
                    next,
                );
                assert(now_related <==> related || imports_one_of(origins, pub_ancestors));
            },
            _ => {},
        }
    }
}

/// An import reproduces its public commit exactly when the two trees are one: the tree that the
/// monorepo commit stands for, and the tree that git names for that very public commit.
pub proof fn law_a_reproduction_has_the_same_tree(
    s: ResolvedSubrepoView,
    hooks: bool,
    mono_sha: Text,
    pub_sha: Text,
    log: Seq<ReplyView>,
    at: int,
)
    ensures
        ({
            let step = reflects_exactly_step(s, hooks, mono_sha, pub_sha, log, at);
            if !hooks && s.transform is Some {
                step == Step::Done(false, at)
            } else {
                match anchor_subtree_step(mono_sha, s, log, at) {
                    Step::Ask(request) => step == Step::<bool>::Ask(request),
                    Step::Done(Ok(Some(tree)), next) => match text_at(log, next) {
                        None => step == Step::<bool>::Ask(
                            RequestView::Git {
                                args: seq!["rev-parse"@, pub_sha + "^{tree}"@],
                                input: None,
                            },
                        ),
                        Some(other) => step == Step::Done(
                            other == Ok::<Text, GitErrorView>(tree),
                            next + 1,
                        ),
                    },
                    Step::Done(_, next) => step == Step::Done(false, next),
                }
            }
        }),
{
}

// --- the fork ---

/// The state of a fork is the head of its push branch at its own remote, once that is mirrored;
/// none while the branch does not exist; and offline what the mirror has.
pub proof fn law_the_fork_state_is_the_push_branch(
    s: ResolvedSubrepoView,
    log: Seq<ReplyView>,
    at: int,
)
    ensures
        match branch_at(log, at) {
            None => load_fork_state_step(s, false, log, at) matches Step::Ask(
                RequestView::LsRemoteBranch { remote, branch },
            ) && remote == s.remote && branch == s.push_branch,
            Some(Err(err)) => load_fork_state_step(s, false, log, at) matches Step::Done(
                Err(failed),
                _,
            ) && failed == err,
            Some(Ok(None)) => load_fork_state_step(s, false, log, at) matches Step::Done(
                Ok(state),
                _,
            ) && state.head is None,
            Some(Ok(Some(head))) => match acted_at(log, at + 1) {
                None => load_fork_state_step(s, false, log, at) matches Step::Ask(
                    RequestView::FetchBranch { remote, branch, dst },
                ) && remote == s.remote && branch == s.push_branch && dst == fork_mirror_ref(s),
                Some(Err(err)) => load_fork_state_step(s, false, log, at) matches Step::Done(
                    Err(failed),
                    _,
                ) && failed == err,
                Some(Ok(_)) => load_fork_state_step(s, false, log, at) matches Step::Done(
                    Ok(state),
                    _,
                ) && state.head == Some(head),
            },
        },
        match rev_at(log, at) {
            None => load_fork_state_step(s, true, log, at) matches Step::Ask(
                RequestView::RevParse { rev },
            ) && rev == fork_mirror_ref(s),
            Some(head) => load_fork_state_step(s, true, log, at) matches Step::Done(Ok(state), _)
                && state.head == head,
        },
        forall|offline: bool|
            #![trigger try_load_fork_state_step(s, offline, log, at)]
            match load_fork_state_step(s, offline, log, at) {
                Step::Ask(request) => try_load_fork_state_step(
                    s,
                    offline,
                    log,
                    at,
                ) matches Step::Ask(asked) && asked == request,
                Step::Done(Ok(state), end) => try_load_fork_state_step(s, offline, log, at)
                    == Step::Done((Some(state), None::<GitErrorView>), end),
                Step::Done(Err(err), end) => try_load_fork_state_step(s, offline, log, at)
                    == Step::Done((None::<ForkStateView>, Some(err)), end),
            },
{
}

// --- the view as a whole ---

/// Where the derivation of a view stands once it knows both heads and what was imported.
pub open spec fn after_origins(log: Seq<ReplyView>, at: int) -> int {
    if rev_at(log, at + 1) matches Some(Some(_)) {
        at + 3
    } else {
        at + 2
    }
}

/// Where the mirrored branch is read: after a fetch, unless offline.
pub open spec fn after_fetch(offline: bool, log: Seq<ReplyView>, at: int) -> int {
    if offline {
        after_origins(log, at)
    } else {
        after_origins(log, at) + 1
    }
}

/// Does a request only look into commits and trees, as a comparison does?
pub open spec fn looks_into_trees(request: RequestView) -> bool {
    ||| request is Git || request is LsTree || request is Exclude || request is ReadCommit
    ||| request is Materialize || request is MessageFile || request is TreeHook
    ||| request is NameFiles || request is NameTree
    ||| request matches RequestView::RevList { args } && args == seq!["HEAD"@]
}

/// Whatever the procedure stops at only looks into commits and trees.
pub open spec fn only_compares<T>(step: Step<T>) -> bool {
    step matches Step::Ask(request) ==> looks_into_trees(request)
}

proof fn lemma_name_subtree_compares(
    mono_commit: Text,
    subrepo: ResolvedSubrepoView,
    log: Seq<ReplyView>,
    at: int,
)
    ensures
        only_compares(name_subtree_step(mono_commit, subrepo, log, at)),
{
}

proof fn lemma_anchor_subtree_compares(
    mono_commit: Text,
    subrepo: ResolvedSubrepoView,
    log: Seq<ReplyView>,
    at: int,
)
    ensures
        only_compares(anchor_subtree_step(mono_commit, subrepo, log, at)),
{
    lemma_name_subtree_compares(
        mono_commit,
        without_scan(subrepo),
        log,
        at,
    );
}

proof fn lemma_reflects_exactly_compares(
    s: ResolvedSubrepoView,
    hooks: bool,
    mono_sha: Text,
    pub_sha: Text,
    log: Seq<ReplyView>,
    at: int,
)
    ensures
        only_compares(reflects_exactly_step(s, hooks, mono_sha, pub_sha, log, at)),
{
    lemma_anchor_subtree_compares(mono_sha, s, log, at);
}

proof fn lemma_origins_anchor_compares(
    s: ResolvedSubrepoView,
    hooks: bool,
    mono_sha: Text,
    origins: Seq<Text>,
    pub_ancestors: Seq<Text>,
    j: int,
    related: bool,
    log: Seq<ReplyView>,
    at: int,
)
    ensures
        only_compares(
            origins_anchor_step(s, hooks, mono_sha, origins, pub_ancestors, j, related, log, at),
        ),
    decreases origins.len() - j,
{
    if j < origins.len() {
        if pub_ancestors.contains(origins[j]) {
            lemma_reflects_exactly_compares(s, hooks, mono_sha, origins[j], log, at);
            match reflects_exactly_step(s, hooks, mono_sha, origins[j], log, at) {
                Step::Done(false, at) => {
                    lemma_origins_anchor_compares(
                        s,
                        hooks,
                        mono_sha,
                        origins,
                        pub_ancestors,
                        j + 1,
                        true,
                        log,
                        at,
                    );
                },
                _ => {},
            }
        } else {
            lemma_origins_anchor_compares(
                s,
                hooks,
                mono_sha,
                origins,
                pub_ancestors,
                j + 1,
                related,
                log,
                at,
            );
        }
    }
}

proof fn lemma_anchor_walk_compares(
    s: ResolvedSubrepoView,
    hooks: bool,
    exported: Map<Text, Text>,
    origin_by_mono: Seq<(Text, Seq<Text>)>,
    pub_ancestors: Seq<Text>,
    walk: Seq<Text>,
    i: int,
    related: bool,
    log: Seq<ReplyView>,
    at: int,
)
    ensures
        only_compares(
            anchor_walk_step(
                s,
                hooks,
                exported,
                origin_by_mono,
                pub_ancestors,
                walk,
                i,
                related,
                log,
                at,
            ),
        ),
    decreases walk.len() - i,
{
    if i < walk.len() && !exported.contains_key(walk[i]) {
        let origins = values_of(origin_by_mono, walk[i]);
        lemma_origins_anchor_compares(
            s,
            hooks,
            walk[i],
            origins,
            pub_ancestors,
            0,
            related,
            log,
            at,
        );
        match origins_anchor_step(s, hooks, walk[i], origins, pub_ancestors, 0, related, log, at) {
            Step::Done((false, related), at) => {
                lemma_anchor_walk_compares(
                    s,
                    hooks,
                    exported,
                    origin_by_mono,
                    pub_ancestors,
                    walk,
                    i + 1,
                    related,
                    log,
                    at,
                );
            },
            _ => {},
        }
    }
}

proof fn lemma_find_export_anchor_compares(
    s: ResolvedSubrepoView,
    hooks: bool,
    exported: Map<Text, Text>,
    origin_by_mono: Seq<(Text, Seq<Text>)>,
    pub_ancestors: Seq<Text>,
    log: Seq<ReplyView>,
    at: int,
)
    ensures
        only_compares(
            find_export_anchor_step(s, hooks, exported, origin_by_mono, pub_ancestors, log, at),
        ),
{
    match shas_at(log, at) {
        Some(Ok(walk)) => {
            lemma_anchor_walk_compares(
                s,
                hooks,
                exported,
                origin_by_mono,
                pub_ancestors,
                walk,
                0,
                !exported.is_empty(),
                log,
                at + 1,
            );
        },
        _ => {},
    }
}

/// What a view is asked for, one thing after the other: the head of the public branch, at the
/// repository that the subrepo is pulled from, or offline in its mirror; HEAD, and the imports
/// that its history names; the fetch; the exports that the mirrored branch names, its walk, and
/// which of the commits that it names are not here, all of them.
pub proof fn law_a_view_is_read_from_both_histories(
    s: ResolvedSubrepoView,
    hooks: bool,
    offline: bool,
    log: Seq<ReplyView>,
    at: int,
)
    requires
        0 <= at,
    ensures
        ({
            let step = view_step(s, hooks, offline, log, at);
            let n = log.len() as int;
            &&& n <= at ==> (step matches Step::Ask(request) && if offline {
                request == (RequestView::RevParse { rev: mirror_ref(s) })
            } else {
                request == (RequestView::LsRemoteBranch {
                    remote: pulled_from(s),
                    branch: s.branch,
                })
            })
            &&& step matches Step::Ask(request) ==> n == at + 1 ==> request is RevParse || request
                is LsRemoteBranch
            &&& step matches Step::Ask(request) ==> {
                &&& request matches RequestView::FetchBranch { remote, branch, dst } ==> !offline
                    && remote == pulled_from(s) && branch == s.branch && dst == mirror_ref(s)
                &&& request matches RequestView::TrailerValues { key, args } ==> {
                    ||| key == "Monosplice-Origin"@ && args == seq!["HEAD"@]
                    ||| key == "Monosplice-Source"@ && args == seq![mirror_ref(s)]
                }
                &&& request matches RequestView::ExistingCommits { shas } ==> {
                    forall|sha: Text| #[trigger]
                        shas.contains(sha) <==> (rev_at(log, at + 1) matches Some(Some(_))) && (
                        trailers_at(log, at + 2) matches Some(Ok(origins)) && exists|i: int|
                            0 <= i < keyed(origins).len() && (
                            #[trigger] keyed(origins)[i]).1.contains(sha))
                }
                &&& request matches RequestView::MissingObjects { shas } ==> {
                    let p = after_fetch(offline, log, at);
                    &&& trailers_at(log, p) matches Some(Ok(source))
                    &&& shas_at(log, p + 1) matches Some(Ok(walk))
                    &&& forall|mono_sha: Text| #[trigger]
                        shas.contains(mono_sha) <==> exists|i: int|
                            0 <= i < walk.len() && #[trigger] values_of(source, walk[i]).contains(
                                mono_sha,
                            )
                }
            }
        }),
{
    let p = after_fetch(offline, log, at);
    let origins = match (rev_at(log, at + 1), trailers_at(log, at + 2)) {
        (Some(Some(_)), Some(Ok(origins))) => keyed(origins),
        _ => Seq::empty(),
    };
    lemma_distinct(origin_values(origins));
    assert forall|sha: Text| #[trigger]
        distinct(origin_values(origins)).contains(sha) <==> exists|i: int|
            0 <= i < origins.len() && (#[trigger] origins[i]).1.contains(sha) by {
        law_the_imports_are_the_trailers(origins, sha);
    }
    match (trailers_at(log, p), shas_at(log, p + 1)) {
        (Some(Ok(source)), Some(Ok(walk))) => {
            let all = claims(walk, source);
            if let Some(Some(_)) = rev_at(log, at + 1) {
                if let Some(Ok(origins)) = trailers_at(log, at + 2) {
                    lemma_find_export_anchor_compares(
                        s,
                        hooks,
                        exported_map(all),
                        keyed(origins),
                        walk,
                        log,
                        p + 3,
                    );
                }
            } else {
                lemma_find_export_anchor_compares(
                    s,
                    hooks,
                    exported_map(all),
                    Seq::empty(),
                    walk,
                    log,
                    p + 3,
                );
            }
            lemma_distinct(claimed(all));
            assert forall|mono_sha: Text|
                #[trigger] distinct(claimed(all)).contains(mono_sha) <==> exists|i: int|
                    0 <= i < walk.len() && #[trigger] values_of(source, walk[i]).contains(
                        mono_sha,
                    ) by {
                lemma_claimed_by(walk, source, mono_sha);
            }
        },
        _ => {},
    }
}

proof fn lemma_claimed_by(walk: Seq<Text>, source: Seq<(Text, Seq<Text>)>, mono_sha: Text)
    ensures
        claimed(claims(walk, source)).contains(mono_sha) <==> exists|i: int|
            0 <= i < walk.len() && #[trigger] values_of(source, walk[i]).contains(mono_sha),
{
    let all = claims(walk, source);
    if claimed(all).contains(mono_sha) {
        let k = choose|k: int| 0 <= k < claimed(all).len() && claimed(all)[k] == mono_sha;
        assert(all.contains(all[k]));
        lemma_claims_contain(walk, source, all[k]);
        let i = choose|i: int| 0 <= i < walk.len() && walk[i] == all[k].pub_sha;
        assert(values_of(source, walk[i]).contains(mono_sha));
    }
    if exists|i: int|
        0 <= i < walk.len() && #[trigger] values_of(source, walk[i]).contains(mono_sha) {
        let i = choose|i: int|
            0 <= i < walk.len() && #[trigger] values_of(source, walk[i]).contains(mono_sha);
        let claim = SourceRefView { pub_sha: walk[i], mono_sha };
        assert(walk.contains(walk[i]));
        lemma_claims_contain(walk, source, claim);
        let k = choose|k: int| 0 <= k < all.len() && all[k] == claim;
        assert(claimed(all)[k] == mono_sha);
    }
}

/// One thing after the other: nothing is asked before what comes first was answered. HEAD comes
/// after the public head, its imports after HEAD; then the fetch, and only after it what the
/// mirrored branch says. Where HEAD does not exist, nothing was imported.
pub proof fn law_a_view_asks_one_thing_after_the_other(
    s: ResolvedSubrepoView,
    hooks: bool,
    offline: bool,
    head: Text,
    log: Seq<ReplyView>,
    at: int,
)
    requires
        0 <= at,
        if offline {
            rev_at(log, at) == Some(Some(head))
        } else {
            branch_at(log, at) == Some(Ok::<Option<Text>, GitErrorView>(Some(head)))
        },
    ensures
        ({
            let step = view_step(s, hooks, offline, log, at);
            let o = after_origins(log, at);
            let p = after_fetch(offline, log, at);
            let known = match rev_at(log, at + 1) {
                None => false,
                Some(None) => true,
                Some(Some(_)) => trailers_at(log, at + 2) matches Some(Ok(_)),
            };
            let fetched = known && (offline || acted_at(log, o) matches Some(Ok(_)));
            &&& rev_at(log, at + 1) is None ==> (step matches Step::Ask(
                RequestView::RevParse { rev },
            ) && rev == "HEAD"@)
            &&& rev_at(log, at + 1) matches Some(Some(_)) ==> trailers_at(log, at + 2) is None ==> (
            step matches Step::Ask(RequestView::TrailerValues { key, args }) && key
                == "Monosplice-Origin"@ && args == seq!["HEAD"@])
            &&& known && !offline && acted_at(log, o) is None ==> (step matches Step::Ask(
                RequestView::FetchBranch { remote, branch, dst },
            ) && remote == pulled_from(s) && branch == s.branch && dst == mirror_ref(s))
            &&& fetched && trailers_at(log, p) is None ==> (step matches Step::Ask(
                RequestView::TrailerValues { key, args },
            ) && key == "Monosplice-Source"@ && args == seq![mirror_ref(s)])
            &&& fetched && (trailers_at(log, p) matches Some(Ok(_))) && shas_at(log, p + 1) is None
                ==> (step matches Step::Ask(RequestView::RevList { args }) && args == seq![
                mirror_ref(s),
            ])
            &&& fetched && (trailers_at(log, p) matches Some(Ok(_))) && (shas_at(
                log,
                p + 1,
            ) matches Some(Ok(_))) && shas_at(log, p + 2) is None ==> (step matches Step::Ask(
                request,
            ) && request is MissingObjects)
        }),
{
}

/// What a view says is what was replied. Its head is the one that was named; its imports are
/// those of the history walk; a commit is in its mapping exactly when a commit of the public walk
/// names it; its last export is one of those, is here, and stands on the walk with nothing that is
/// here before it.
pub proof fn law_a_view_says_what_was_replied(
    s: ResolvedSubrepoView,
    hooks: bool,
    offline: bool,
    log: Seq<ReplyView>,
    at: int,
    sha: Text,
)
    requires
        0 <= at,
    ensures
        view_step(s, hooks, offline, log, at) matches Step::Done(Ok(view), end) ==> {
            let p = after_fetch(offline, log, at);
            &&& view.tracking_ref == mirror_ref(s)
            &&& if offline {
                rev_at(log, at) == Some(view.pub_head)
            } else {
                branch_at(log, at) == Some(Ok::<Option<Text>, GitErrorView>(view.pub_head))
            }
            &&& match rev_at(log, at + 1) {
                Some(Some(_)) => trailers_at(log, at + 2) matches Some(Ok(origins)) && {
                    &&& lookup(view.origin_by_mono, sha) == lookup(origins, sha)
                    &&& view.origin_by_mono == keyed(origins)
                },
                _ => view.origin_by_mono.len() == 0,
            }
            &&& view.imported_pub_shas.contains(sha) <==> exists|i: int|
                0 <= i < view.origin_by_mono.len() && (
                #[trigger] view.origin_by_mono[i]).1.contains(sha)
            &&& view.pub_head is None ==> view.exported_mono_to_pub.is_empty()
                && view.last_exported_mono is None && view.unreflected_pub.len() == 0
                && view.broken_source_refs.len() == 0 && view.superseded_source_refs.len() == 0
                && !view.related && view.export_base is None
            &&& view.pub_head is Some ==> {
                &&& trailers_at(log, p) matches Some(Ok(source))
                &&& shas_at(log, p + 1) matches Some(Ok(walk))
                &&& shas_at(log, p + 2) matches Some(Ok(missing))
                &&& view.exported_mono_to_pub.contains_key(sha) <==> exists|i: int|
                    0 <= i < walk.len() && #[trigger] values_of(source, walk[i]).contains(sha)
                &&& match view.last_exported_mono {
                    None => view.exported_mono_to_pub.contains_key(sha) ==> missing.contains(sha),
                    Some(last) => view.exported_mono_to_pub.contains_key(last)
                        && !missing.contains(last),
                }
                &&& view.last_exported_mono == last_exported(claims(walk, source), missing)
                &&& view.broken_source_refs == broken_refs(claims(walk, source), missing)
                &&& view.superseded_source_refs == superseded_refs(claims(walk, source), missing)
                &&& find_export_anchor_step(
                    s,
                    hooks,
                    view.exported_mono_to_pub,
                    view.origin_by_mono,
                    walk,
                    log,
                    p + 3,
                ) == Step::<Result<(Option<Text>, bool), GitErrorView>>::Done(
                    Ok((view.export_base, view.related)),
                    end - 2,
                )
                &&& shas_at(log, end - 2) is Some
                &&& text_at(log, end - 1) matches Some(Ok(out))
                &&& view.unreflected_pub == if out.len() == 0 {
                    Seq::empty()
                } else {
                    lines_of(out).filter(|sha: Text| lookup(source, sha) is None)
                }
            }
        },
{
    match view_step(s, hooks, offline, log, at) {
        Step::Done(Ok(view), end) => {
            law_the_imports_are_the_trailers(view.origin_by_mono, sha);
            lemma_distinct(origin_values(view.origin_by_mono));
            if let Some(Ok(origins)) = trailers_at(log, at + 2) {
                lemma_keyed(origins);
            }
            let p = after_fetch(offline, log, at);
            if view.pub_head is Some {
                match (trailers_at(log, p), shas_at(log, p + 1), shas_at(log, p + 2)) {
                    (Some(Ok(source)), Some(Ok(walk)), Some(Ok(missing))) => {
                        let all = claims(walk, source);
                        lemma_claimed_by(walk, source, sha);
                        lemma_mapped_iff_claimed(all, sha);
                        lemma_newest_live(all, missing);
                        let n = newest_live(all, missing);
                        if n < all.len() {
                            assert(claimed(all)[n] == all[n].mono_sha);
                            lemma_mapped_iff_claimed(all, all[n].mono_sha);
                        } else if claimed(all).contains(sha) {
                            let k = choose|k: int|
                                0 <= k < claimed(all).len() && claimed(all)[k] == sha;
                            assert(missing.contains(all[k].mono_sha));
                        }
                    },
                    _ => {},
                }
            } else {
                assert(view.exported_mono_to_pub =~= Map::<Text, Text>::empty());
            }
        },
        _ => {},
    }
}

/// The last export is the newest: what stands before it on the walk names only commits that are
/// not here.
pub proof fn law_the_last_export_is_the_newest(
    walk: Seq<Text>,
    source: Seq<(Text, Seq<Text>)>,
    missing: Seq<Text>,
    i: int,
)
    requires
        0 <= i < walk.len(),
        values_of(source, walk[i]).len() > 0,
        !missing.contains(values_of(source, walk[i])[0]),
        forall|j: int, k: int|
            0 <= j < i && 0 <= k < values_of(source, walk[j]).len() ==> missing.contains(
                #[trigger] values_of(source, walk[j])[k],
            ),
    ensures
        last_exported(claims(walk, source), missing) == Some(values_of(source, walk[i])[0]),
{
    let all = claims(walk, source);
    let above = claims(walk.take(i), source);
    lemma_claims_concat(walk.take(i), walk.skip(i), source);
    assert(walk.take(i) + walk.skip(i) =~= walk);
    lemma_claims_concat(seq![walk[i]], walk.skip(i + 1), source);
    assert(seq![walk[i]] + walk.skip(i + 1) =~= walk.skip(i));
    law_the_claims_are_the_trailers(
        seq![walk[i]],
        Seq::empty(),
        source,
        SourceRefView { pub_sha: walk[i], mono_sha: values_of(source, walk[i])[0] },
    );
    let n = above.len() as int;
    assert(all[n].mono_sha == values_of(source, walk[i])[0]);
    lemma_newest_live(all, missing);
    let live = newest_live(all, missing);
    assert forall|k: int| 0 <= k < n implies missing.contains((#[trigger] all[k]).mono_sha) by {
        assert(all[k] == above[k]);
        assert(above.contains(above[k]));
        lemma_claims_contain(walk.take(i), source, above[k]);
        let j = choose|j: int| 0 <= j < walk.take(i).len() && walk.take(i)[j] == above[k].pub_sha;
        assert(walk[j] == above[k].pub_sha);
        let v = choose|v: int|
            0 <= v < values_of(source, walk[j]).len() && values_of(source, walk[j])[v]
                == above[k].mono_sha;
        assert(missing.contains(values_of(source, walk[j])[v]));
    }
    if live > n {
        assert(missing.contains(all[n].mono_sha));
    }
    if live < n {
        assert(missing.contains(all[live].mono_sha));
    }
}

/// The last reply decides why there is no view: what git failed at, or offline that nothing was
/// fetched yet, in the subrepo's own name.
pub proof fn law_the_last_reply_decides_a_failed_view(
    s: ResolvedSubrepoView,
    hooks: bool,
    offline: bool,
    log: Seq<ReplyView>,
    at: int,
)
    requires
        0 <= at,
    ensures
        view_step(s, hooks, offline, log, at) matches Step::Done(Err(err), end) ==> match err {
            SyncViewErrorView::NoFetchYet { subrepo } => offline && subrepo == s.name && rev_at(
                log,
                at,
            ) == Some(None::<Text>),
            SyncViewErrorView::Git(failed) => match log[end - 1] {
                ReplyView::Branch(Err(err)) => err == failed,
                ReplyView::Trailers(Err(err)) => err == failed,
                ReplyView::Acted(Err(err)) => err == failed,
                ReplyView::Shas(Err(err)) => err == failed,
                ReplyView::Text(Err(err)) => err == failed,
                _ => false,
            },
        },
{
}

} // verus!
