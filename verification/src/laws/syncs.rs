//! What the syncs are for: members get the roles that their responses earn them.

use vstd::prelude::*;

use crate::error::Failure;
use crate::laws::queries::RowTest;
use crate::services::condition_eval::{Bind, Response};
use crate::services::sync::{
    Bound, Change, FollowUp, Link, LinkFinding, LinkStage, PlayerFinding, PlayerStage,
    UnlinkFinding, UnlinkStage,
};
use crate::services::{condition_eval, sync};

verus! {

// ---------------------------------------------------------------------------
// One role link
// ---------------------------------------------------------------------------

/// The sync of a configured link asks for the opt-outs, then for the limit, then
/// runs its query with both, uploads what the query found, and stores just that.
pub proof fn law_links_are_rebuilt_step_by_step(
    link: Bound,
    optouts: Seq<Seq<char>>,
    limit: usize,
    ids: Seq<Seq<char>>,
    count: usize,
    stored: Result<(), Failure>,
)
    requires
        link.grant_on_any_submission || link.rules.len() > 0,
    ensures
        ({
            let first = sync::link_next(LinkStage::LoadLink, LinkFinding::Link(Ok(Some(link))));
            let second = sync::link_next(first, LinkFinding::Optouts(Ok(optouts)));
            let third = sync::link_next(second, LinkFinding::Limit(Ok(limit)));
            let fourth = sync::link_next(third, LinkFinding::Found(Ok(ids)));
            let fifth = sync::link_next(fourth, LinkFinding::Uploaded(Ok(count)));
            let last = sync::link_next(fifth, LinkFinding::Stored(stored));
            &&& first == LinkStage::FetchOptouts(link)
            &&& second == LinkStage::FetchLimit(link, optouts)
            &&& third matches LinkStage::Query { link: l, optouts: o, limit: n, sql, binds }
            &&& l == link
            &&& o == optouts
            &&& n == limit
            &&& fourth == LinkStage::Upload(link, ids)
            &&& fifth == LinkStage::StoreAssignments(ids)
            &&& last == LinkStage::Done(stored)
        }),
{
}

/// A link that is gone here, or bound to no form, needs nothing. What cannot be
/// looked up, uploaded, cleared or stored ends a sync in that failure.
pub proof fn law_link_syncs_report_what_failed(
    link: Bound,
    optouts: Seq<Seq<char>>,
    ids: Seq<Seq<char>>,
    cleared: Result<(), Failure>,
    e: Failure,
)
    ensures
        sync::link_next(LinkStage::LoadLink, LinkFinding::Link(Ok(None))) == LinkStage::Done(
            Ok(()),
        ),
        sync::link_next(LinkStage::LoadLink, LinkFinding::Link(Err(e))) == LinkStage::Done(Err(e)),
        sync::link_next(LinkStage::ClearAssignments, LinkFinding::Cleared(cleared))
            == LinkStage::Done(cleared),
        sync::link_next(LinkStage::DropLink, LinkFinding::Dropped) == LinkStage::Done(Ok(())),
        ({
            let asked = sync::link_next(
                LinkStage::FetchLimit(link, optouts),
                LinkFinding::Limit(Err(e)),
            );
            let drained = sync::link_next(LinkStage::Drain(link), LinkFinding::Uploaded(Err(e)));
            let uploaded = sync::link_next(
                LinkStage::Upload(link, ids),
                LinkFinding::Uploaded(Err(e)),
            );
            &&& asked == drained
            &&& asked == uploaded
            &&& e is RoleLinkNotFound ==> asked == LinkStage::DropLink
            &&& e is RoleLinkDisabled ==> asked == LinkStage::Done(Ok(()))
            &&& e !is RoleLinkNotFound && e !is RoleLinkDisabled ==> asked == LinkStage::Done(
                Err(e),
            )
        }),
{
}

/// The text of the query for a clause that binds `count` values: the respondents of
/// the form who did not opt out and whose response passes the clause, each once, and
/// no more of them than the limit.
pub open spec fn query_text(clause: Seq<char>, count: nat) -> Seq<char> {
    "SELECT DISTINCT fr.discord_id FROM form_responses fr WHERE fr.form_id = $1 AND fr.discord_id <> '' AND fr.discord_id <> ALL($2::text[]) AND ("@
        + clause + ") ORDER BY fr.discord_id LIMIT $"@ + crate::numerals::nat_text(count + 3)
}

/// A link that is not open to any submission is asked for by its own conditions: the
/// query has the clause of these conditions and binds their values, so that it
/// selects a row just where the conditions grant the role for its response.
pub proof fn law_links_are_filtered_by_their_conditions(
    link: Bound,
    optouts: Seq<Seq<char>>,
    limit: usize,
    params: Seq<Bind>,
    data: Response,
)
    requires
        !link.grant_on_any_submission,
        link.rules.len() > 0,
    ensures
        ({
            let asked = sync::link_next(
                LinkStage::FetchLimit(link, optouts),
                LinkFinding::Limit(Ok(limit)),
            );
            let clause = condition_eval::where_clause(link.rules, 2);
            let tests = crate::laws::queries::row_tests(link.rules, 2);
            &&& asked is Query
            &&& asked->sql == query_text(clause.0, clause.1.len())
            &&& asked->binds == clause.1
            &&& (forall|i: int|
                0 <= i < link.rules.len() ==> crate::laws::queries::fits(
                    #[trigger] link.rules[i],
                    data,
                )) && 2 + clause.1.len() <= params.len() && params.subrange(
                2,
                2 + clause.1.len() as int,
            ) == asked->binds ==> {
                &&& clause.0 == crate::text::joined(
                    tests.map_values(|t: RowTest| t.sql()),
                    " AND "@,
                )
                &&& (forall|i: int|
                    0 <= i < link.rules.len() ==> (#[trigger] tests[i]).is_true(params, data))
                    <==> condition_eval::granted(false, link.rules, data)
            }
        }),
{
    let clause = condition_eval::where_clause(link.rules, 2);
    if (forall|i: int|
        0 <= i < link.rules.len() ==> crate::laws::queries::fits(#[trigger] link.rules[i], data))
        && 2 + clause.1.len() <= params.len() && params.subrange(2, 2 + clause.1.len() as int)
        == clause.1 {
        crate::laws::queries::law_rows_are_selected_where_roles_are_granted(
            link.rules,
            2,
            params,
            data,
        );
    }
}

/// A link that is open to any submission is asked for without a condition.
pub proof fn law_open_links_ask_for_everyone(
    link: Bound,
    optouts: Seq<Seq<char>>,
    limit: usize,
)
    requires
        link.grant_on_any_submission,
    ensures
        ({
            let asked = sync::link_next(
                LinkStage::FetchLimit(link, optouts),
                LinkFinding::Limit(Ok(limit)),
            );
            &&& asked is Query
            &&& asked->sql == query_text("TRUE"@, 0)
            &&& asked->binds == Seq::<Bind>::empty()
        }),
{
}

// ---------------------------------------------------------------------------
// One member
// ---------------------------------------------------------------------------

proof fn lemma_unknown(texts: Seq<Seq<char>>, known: Seq<Seq<char>>)
    ensures
        sync::unknown(texts, known) == texts.filter(|t: Seq<char>| !known.contains(t)),
    decreases texts.len(),
{
    reveal(Seq::filter);
    if texts.len() > 0 {
        lemma_unknown(texts.drop_last(), known);
    }
}

/// The guilds of the pending ones, from the place `at` on, in which the member is not
/// among the opt-outs that were had for them.
pub open spec fn not_opted_out(
    pending: Seq<Seq<char>>,
    optouts: Seq<Seq<Seq<char>>>,
    discord_id: Seq<char>,
    at: int,
) -> Seq<Seq<char>>
    decreases pending.len() - at,
{
    if at < 0 || at >= pending.len() {
        Seq::empty()
    } else if optouts[at].contains(discord_id) {
        not_opted_out(pending, optouts, discord_id, at + 1)
    } else {
        seq![pending[at]] + not_opted_out(pending, optouts, discord_id, at + 1)
    }
}

/// Where a sync is after the opt-outs of the pending guilds were had, from the place
/// `from` on.
pub open spec fn after_optouts(
    at: PlayerStage,
    optouts: Seq<Seq<Seq<char>>>,
    discord_id: Seq<char>,
    from: int,
) -> PlayerStage
    decreases optouts.len() - from,
{
    if from < 0 || from >= optouts.len() {
        at
    } else {
        after_optouts(
            sync::player_next(at, PlayerFinding::Optouts(Ok(optouts[from])), discord_id),
            optouts,
            discord_id,
            from + 1,
        )
    }
}

proof fn lemma_optouts(
    guilds: Seq<Seq<char>>,
    pending: Seq<Seq<char>>,
    optouts: Seq<Seq<Seq<char>>>,
    discord_id: Seq<char>,
    at: nat,
)
    requires
        at < pending.len(),
        optouts.len() == pending.len(),
    ensures
        ({
            let all = guilds + not_opted_out(pending, optouts, discord_id, at as int);
            after_optouts(
                PlayerStage::FetchOptouts { guilds, pending, at },
                optouts,
                discord_id,
                at as int,
            ) == if all.len() == 0 {
                PlayerStage::Done(Ok(()))
            } else {
                PlayerStage::LoadLinks(all)
            }
        }),
    decreases pending.len() - at,
{
    let here = PlayerStage::FetchOptouts { guilds, pending, at };
    let out = optouts[at as int].contains(discord_id);
    let more = if out {
        guilds
    } else {
        guilds.push(pending[at as int])
    };
    let rest = not_opted_out(pending, optouts, discord_id, at as int + 1);
    let all = guilds + not_opted_out(pending, optouts, discord_id, at as int);
    assert(all =~= more + rest);
    let next = sync::player_next(here, PlayerFinding::Optouts(Ok(optouts[at as int])), discord_id);
    if at + 1 < pending.len() {
        assert(next == PlayerStage::FetchOptouts { guilds: more, pending, at: at + 1 });
        lemma_optouts(more, pending, optouts, discord_id, at + 1);
    } else {
        assert(rest =~= Seq::empty());
        assert(all =~= more);
        assert(after_optouts(next, optouts, discord_id, at as int + 1) == next);
    }
}

/// The guilds whose links are loaded are those that the gateway knows, followed by
/// those in which the member has a response, that the gateway does not know, and that
/// the member has not opted out of; a sync ends without loading links only where
/// there is no such guild.
pub proof fn law_links_are_loaded_for_all_guilds_of_a_member(
    gateway: Seq<Seq<char>>,
    responded: Seq<Seq<char>>,
    optouts: Seq<Seq<Seq<char>>>,
    discord_id: Seq<char>,
)
    requires
        optouts.len() == responded.filter(|g: Seq<char>| !gateway.contains(g)).len(),
    ensures
        ({
            let pending = responded.filter(|g: Seq<char>| !gateway.contains(g));
            let first = sync::player_next(
                PlayerStage::FetchGuilds,
                PlayerFinding::Guilds(Ok(gateway)),
                discord_id,
            );
            let second = sync::player_next(
                first,
                PlayerFinding::RespondentGuilds(Ok(responded)),
                discord_id,
            );
            let all = gateway + not_opted_out(pending, optouts, discord_id, 0);
            &&& pending.len() > 0 ==> second == (PlayerStage::FetchOptouts {
                guilds: gateway,
                pending,
                at: 0,
            })
            &&& after_optouts(second, optouts, discord_id, 0) == if all.len() == 0 {
                PlayerStage::Done(Ok(()))
            } else {
                PlayerStage::LoadLinks(all)
            }
        }),
{
    let pending = responded.filter(|g: Seq<char>| !gateway.contains(g));
    lemma_unknown(responded, gateway);
    assert(sync::unknown(responded, gateway) == pending);
    if pending.len() > 0 {
        lemma_optouts(gateway, pending, optouts, discord_id, 0);
    } else {
        assert(gateway + not_opted_out(pending, optouts, discord_id, 0) =~= gateway);
    }
}

/// Where the gateway knows every guild in which the member has a response, the links
/// of the guilds that it knows are loaded at once.
pub proof fn law_known_guilds_are_loaded_at_once(
    gateway: Seq<Seq<char>>,
    responded: Seq<Seq<char>>,
    discord_id: Seq<char>,
)
    requires
        gateway.len() > 0,
        forall|i: int| 0 <= i < responded.len() ==> gateway.contains(#[trigger] responded[i]),
    ensures
        sync::player_next(
            PlayerStage::FetchRespondentGuilds(gateway),
            PlayerFinding::RespondentGuilds(Ok(responded)),
            discord_id,
        ) == PlayerStage::LoadLinks(gateway),
    decreases responded.len(),
{
    if responded.len() > 0 {
        let before = responded.drop_last();
        assert forall|i: int| 0 <= i < before.len() implies gateway.contains(
            #[trigger] before[i],
        ) by {
            assert(before[i] == responded[i]);
        }
        law_known_guilds_are_loaded_at_once(gateway, before, discord_id);
        assert(gateway.contains(responded[responded.len() - 1]));
        lemma_none_unknown(before, gateway);
    }
}

proof fn lemma_none_unknown(texts: Seq<Seq<char>>, known: Seq<Seq<char>>)
    requires
        forall|i: int| 0 <= i < texts.len() ==> known.contains(#[trigger] texts[i]),
    ensures
        sync::unknown(texts, known).len() == 0,
    decreases texts.len(),
{
    if texts.len() > 0 {
        let before = texts.drop_last();
        assert forall|i: int| 0 <= i < before.len() implies known.contains(
            #[trigger] before[i],
        ) by {
            assert(before[i] == texts[i]);
        }
        lemma_none_unknown(before, known);
        assert(known.contains(texts[texts.len() - 1]));
    }
}

/// What a member needs for a link: the role is added just where the response earns it
/// and the member has it not, and removed just where the member has it and no response
/// earns it; both with the link's own ids and token.
pub proof fn law_members_get_what_they_earned(
    link: Link,
    response: Option<Response>,
    assigned: Seq<(Seq<char>, Seq<char>)>,
)
    ensures
        ({
            let earned = response is Some && condition_eval::granted(
                link.grant_on_any_submission,
                link.rules,
                response->0,
            );
            let held = assigned.contains((link.guild_id, link.role_id));
            let needed = sync::needed_change(link, response, assigned);
            &&& earned && !held ==> needed == Some(
                Change::Add {
                    guild_id: link.guild_id,
                    role_id: link.role_id,
                    api_token: link.api_token,
                },
            )
            &&& !earned && held ==> needed == Some(
                Change::Remove {
                    guild_id: link.guild_id,
                    role_id: link.role_id,
                    api_token: link.api_token,
                },
            )
            &&& earned == held ==> needed is None
        }),
{
}

/// Where a sync is after the responses to the links were had, from the place `from`
/// on.
pub open spec fn after_responses(
    at: PlayerStage,
    responses: Seq<Option<Response>>,
    discord_id: Seq<char>,
    from: int,
) -> PlayerStage
    decreases responses.len() - from,
{
    if from < 0 || from >= responses.len() {
        at
    } else {
        after_responses(
            sync::player_next(at, PlayerFinding::Response(Ok(responses[from])), discord_id),
            responses,
            discord_id,
            from + 1,
        )
    }
}

/// What the links need, from the place `at` on, each by the response to its form.
pub open spec fn needs(
    all: Seq<Link>,
    responses: Seq<Option<Response>>,
    assigned: Seq<(Seq<char>, Seq<char>)>,
    at: int,
) -> Seq<Change>
    decreases all.len() - at,
{
    if at < 0 || at >= all.len() {
        Seq::empty()
    } else {
        let rest = needs(all, responses, assigned, at + 1);
        match sync::needed_change(all[at], responses[at], assigned) {
            Some(c) => seq![c] + rest,
            None => rest,
        }
    }
}

proof fn lemma_responses(
    all: Seq<Link>,
    responses: Seq<Option<Response>>,
    assigned: Seq<(Seq<char>, Seq<char>)>,
    actions: Seq<Change>,
    discord_id: Seq<char>,
    at: nat,
)
    requires
        at < all.len(),
        responses.len() == all.len(),
    ensures
        ({
            let planned = actions + needs(all, responses, assigned, at as int);
            after_responses(
                PlayerStage::LoadResponse { links: all, assigned, at, actions },
                responses,
                discord_id,
                at as int,
            ) == if planned.len() == 0 {
                PlayerStage::Done(Ok(()))
            } else {
                PlayerStage::Apply(planned)
            }
        }),
    decreases all.len() - at,
{
    let here = PlayerStage::LoadResponse { links: all, assigned, at, actions };
    let r = responses[at as int];
    let more = match sync::needed_change(all[at as int], r, assigned) {
        Some(c) => actions.push(c),
        None => actions,
    };
    let rest = needs(all, responses, assigned, at as int + 1);
    let planned = actions + needs(all, responses, assigned, at as int);
    assert(planned =~= more + rest);
    let next = sync::player_next(here, PlayerFinding::Response(Ok(r)), discord_id);
    if at + 1 < all.len() {
        assert(next == PlayerStage::LoadResponse {
            links: all,
            assigned,
            at: at + 1,
            actions: more,
        });
        lemma_responses(all, responses, assigned, more, discord_id, at + 1);
    } else {
        assert(rest =~= Seq::empty());
        assert(planned =~= more);
        assert(after_responses(next, responses, discord_id, at as int + 1) == next);
    }
}

/// A member's sync carries out what every link needs by the member's response to its
/// form, in the order of the links, and nothing else; it ends without a call only where
/// no link needs anything.
pub proof fn law_every_link_gets_its_due(
    guilds: Seq<Seq<char>>,
    all: Seq<Link>,
    responses: Seq<Option<Response>>,
    assigned: Seq<(Seq<char>, Seq<char>)>,
    discord_id: Seq<char>,
    applied: Result<(), Failure>,
)
    requires
        all.len() > 0,
        responses.len() == all.len(),
    ensures
        ({
            let first = sync::player_next(
                PlayerStage::LoadLinks(guilds),
                PlayerFinding::Links(Ok(all)),
                discord_id,
            );
            let second = sync::player_next(
                first,
                PlayerFinding::Assignments(Ok(assigned)),
                discord_id,
            );
            let planned = needs(all, responses, assigned, 0);
            let last = after_responses(second, responses, discord_id, 0);
            &&& first == PlayerStage::LoadAssignments(all)
            &&& planned.len() == 0 ==> last == PlayerStage::Done(Ok(()))
            &&& planned.len() > 0 ==> last == PlayerStage::Apply(planned) && sync::player_next(
                last,
                PlayerFinding::Applied(applied),
                discord_id,
            ) == PlayerStage::Done(applied)
        }),
{
    lemma_responses(all, responses, assigned, Seq::empty(), discord_id, 0);
    let planned = needs(all, responses, assigned, 0);
    assert(Seq::<Change>::empty() + planned =~= planned);
}

/// A member in whose guilds no link is bound to a form needs nothing.
pub proof fn law_no_links_need_nothing(guilds: Seq<Seq<char>>, discord_id: Seq<char>)
    ensures
        sync::player_next(
            PlayerStage::LoadLinks(guilds),
            PlayerFinding::Links(Ok(Seq::empty())),
            discord_id,
        ) == PlayerStage::Done(Ok(())),
{
}

/// After a call that went through the assignment is recorded, whatever RoleLogic says
/// of there having been something to do; a link that is gone is deleted; after any
/// other failure nothing is recorded.
pub proof fn law_only_successful_calls_are_recorded(b: bool, e: Failure)
    ensures
        sync::follow_up(Ok(b)) == FollowUp::Record,
        sync::follow_up(Err(e)) != FollowUp::Record,
        sync::follow_up(Err(e)) == FollowUp::DropLink <==> e is RoleLinkNotFound,
{
}

/// A failed call is worth trying again unless the link is gone, switched off or full;
/// and calls come to a failure just where one of them is worth trying again.
pub proof fn law_calls_fail_where_one_is_worth_retrying(results: Seq<Result<bool, Failure>>)
    ensures
        sync::calls_outcome(results) is Err <==> exists|i: int|
            0 <= i < results.len() && (#[trigger] results[i] matches Err(e)
                && !(e is RoleLinkNotFound || e is RoleLinkDisabled || e is UserLimitReached)),
        sync::calls_outcome(results) matches Err(e) ==> results.contains(Err(e)),
    decreases results.len(),
{
    if results.len() > 0 {
        let rest = results.skip(1);
        law_calls_fail_where_one_is_worth_retrying(rest);
        if let Err(e) = sync::calls_outcome(rest) {
            let i = rest.index_of(Err(e));
            assert(results[i + 1] == Err::<bool, Failure>(e));
        }
        assert forall|i: int| 1 <= i < results.len() implies #[trigger] results[i] == rest[i - 1] by {}
        assert forall|i: int| 0 <= i < rest.len() implies #[trigger] rest[i] == results[i + 1] by {}
    }
}

/// An unlinked member is removed from every link in turn; a link that is gone is
/// deleted on the way, and no failure stops the walk.
pub proof fn law_unlinking_leaves_no_link_out(
    i: nat,
    total: nat,
    failed: Option<Failure>,
    r: Result<bool, Failure>,
    cleared: Result<(), Failure>,
)
    requires
        i < total,
    ensures
        ({
            let here = UnlinkStage::RemoveAt { at: i, failed };
            let next = sync::unlink_next(here, UnlinkFinding::Removed(r), total);
            let gone = r matches Err(e) && e is RoleLinkNotFound;
            let after = if gone {
                sync::unlink_next(next, UnlinkFinding::Dropped, total)
            } else {
                next
            };
            &&& gone <==> next is DropAt
            &&& gone ==> next == (UnlinkStage::DropAt { at: i, failed })
            &&& i + 1 < total ==> (after matches UnlinkStage::RemoveAt { at, failed: f } && at == i
                + 1)
            &&& i + 1 == total ==> after is ClearAssignments || after is Done
        }),
        sync::unlink_next(UnlinkStage::ClearAssignments, UnlinkFinding::Cleared(cleared), total)
            == UnlinkStage::Done(cleared),
        sync::unlink_at(0, 0, None) == UnlinkStage::ClearAssignments,
        sync::unlink_at(0, total, None) == (UnlinkStage::RemoveAt { at: 0, failed: None }),
{
}

/// A role that could not be removed for a passing reason is remembered while the others
/// are removed, the first such reason for all of them, and is what the unlinking ends
/// in; a link that is gone, switched off or full is no such reason.
pub proof fn law_unremoved_roles_end_the_unlinking(
    at: nat,
    total: nat,
    before: Option<Failure>,
    r: Result<bool, Failure>,
)
    requires
        at < total,
        !(r matches Err(Failure::RoleLinkNotFound)),
    ensures
        ({
            let next = sync::unlink_next(
                UnlinkStage::RemoveAt { at, failed: before },
                UnlinkFinding::Removed(r),
                total,
            );
            let now = if before is Some {
                before
            } else if r is Err && !(r->Err_0 is RoleLinkDisabled || r->Err_0 is UserLimitReached) {
                Some(r->Err_0)
            } else {
                None
            };
            &&& at + 1 < total ==> next == (UnlinkStage::RemoveAt { at: at + 1, failed: now })
            &&& at + 1 == total && now is Some ==> next == UnlinkStage::Done(Err(now->0))
            &&& at + 1 == total && now is None ==> next == UnlinkStage::ClearAssignments
        }),
{
}

} // verus!
