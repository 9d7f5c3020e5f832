//! Sync engine, both per player (lightweight) and per role link (bulk).
//!
//! Each sync alternates lookups and decisions. The decisions are here: given
//! where a sync is and what its last lookup gave, what comes next.

use vstd::prelude::*;

use crate::error::{AppError, Failure};
use crate::json::{NumberTable, Value};
use crate::models::condition::{Condition, Rule};
use crate::numerals::usize_text;
use crate::services::condition_eval::{
    build_condition_where, evaluate, granted, Bind, ConditionBind, Response, ResponseEvalData,
};
use crate::table::member;
use crate::text::{cat4, owned, push_text, same};

verus! {

// ---------------------------------------------------------------------------
// Role links and responses
// ---------------------------------------------------------------------------

/// A role link that is bound to a form.
#[derive(Debug, PartialEq)]
pub struct RoleLink {
    pub guild_id: String,
    pub role_id: String,
    pub api_token: String,
    pub form_id: String,
    pub grant_on_any_submission: bool,
    pub conditions: Vec<Condition>,
}

/// What a `RoleLink` stands for.
#[verifier::ext_equal]
pub struct Link {
    pub guild_id: Seq<char>,
    pub role_id: Seq<char>,
    pub api_token: Seq<char>,
    pub form_id: Seq<char>,
    pub grant_on_any_submission: bool,
    pub rules: Seq<Rule>,
}

impl View for RoleLink {
    type V = Link;

    open spec fn view(&self) -> Link {
        Link {
            guild_id: self.guild_id@,
            role_id: self.role_id@,
            api_token: self.api_token@,
            form_id: self.form_id@,
            grant_on_any_submission: self.grant_on_any_submission,
            rules: crate::models::condition::rules(self.conditions@),
        }
    }
}

/// The views of a list of role links.
pub open spec fn links(v: Seq<RoleLink>) -> Seq<Link> {
    v.map_values(|l: RoleLink| l@)
}

/// A member's stored response to a form, with the numbers that the texts among
/// its answers and in the conditions denote.
#[derive(Debug)]
pub struct StoredResponse {
    pub answers: Value,
    pub total_score: Option<i32>,
    pub numbers: NumberTable,
}

impl View for StoredResponse {
    type V = Response;

    open spec fn view(&self) -> Response {
        Response {
            answers: self.answers@,
            total_score: match self.total_score {
                Some(n) => Some(n as i64),
                None => None,
            },
            numbers: self.numbers@,
        }
    }
}

/// The view of an optional response.
pub open spec fn response_view(r: Option<StoredResponse>) -> Option<Response> {
    match r {
        Some(x) => Some(x@),
        None => None,
    }
}

/// The views of pairs of texts.
pub open spec fn pairs(v: Seq<(String, String)>) -> Seq<(Seq<char>, Seq<char>)> {
    v.map_values(|p: (String, String)| (p.0@, p.1@))
}

// ---------------------------------------------------------------------------
// What a member's role link needs
// ---------------------------------------------------------------------------

/// What is to be done about a member and a role link.
#[derive(Debug, PartialEq)]
pub enum RoleAction {
    Add { guild_id: String, role_id: String, api_token: String },
    Remove { guild_id: String, role_id: String, api_token: String },
}

/// What a `RoleAction` stands for.
#[verifier::ext_equal]
pub enum Change {
    Add { guild_id: Seq<char>, role_id: Seq<char>, api_token: Seq<char> },
    Remove { guild_id: Seq<char>, role_id: Seq<char>, api_token: Seq<char> },
}

impl View for RoleAction {
    type V = Change;

    open spec fn view(&self) -> Change {
        match *self {
            RoleAction::Add { guild_id, role_id, api_token } => Change::Add {
                guild_id: guild_id@,
                role_id: role_id@,
                api_token: api_token@,
            },
            RoleAction::Remove { guild_id, role_id, api_token } => Change::Remove {
                guild_id: guild_id@,
                role_id: role_id@,
                api_token: api_token@,
            },
        }
    }
}

/// The views of a list of actions.
pub open spec fn changes(v: Seq<RoleAction>) -> Seq<Change> {
    v.map_values(|a: RoleAction| a@)
}

/// Whether a member with the response qualifies for the role of a link.
pub open spec fn qualifies(link: Link, response: Option<Response>) -> bool {
    match response {
        Some(data) => granted(link.grant_on_any_submission, link.rules, data),
        None => false,
    }
}

/// What is to be done for a member who qualifies, or does not, and has the
/// role, or has it not.
pub open spec fn change_for(link: Link, qualified: bool, assigned: bool) -> Option<Change> {
    if qualified && !assigned {
        Some(
            Change::Add {
                guild_id: link.guild_id,
                role_id: link.role_id,
                api_token: link.api_token,
            },
        )
    } else if !qualified && assigned {
        Some(
            Change::Remove {
                guild_id: link.guild_id,
                role_id: link.role_id,
                api_token: link.api_token,
            },
        )
    } else {
        None
    }
}

/// What is to be done about a role link, given the member's response to its form
/// and the roles that the member is known to have.
pub open spec fn needed_change(
    link: Link,
    response: Option<Response>,
    assigned: Seq<(Seq<char>, Seq<char>)>,
) -> Option<Change> {
    change_for(link, qualifies(link, response), assigned.contains((link.guild_id, link.role_id)))
}

/// What is to be done about a list of role links.
pub open spec fn needed_changes(
    all: Seq<Link>,
    responses: Seq<Option<Response>>,
    assigned: Seq<(Seq<char>, Seq<char>)>,
) -> Seq<Change>
    decreases all.len(),
{
    if all.len() == 0 {
        Seq::empty()
    } else {
        let before = needed_changes(all.drop_last(), responses, assigned);
        match needed_change(all.last(), responses[all.len() - 1], assigned) {
            Some(c) => before.push(c),
            None => before,
        }
    }
}

fn has_pair(list: &Vec<(String, String)>, a: &str, b: &str) -> (r: bool)
    ensures
        r == pairs(list@).contains((a@, b@)),
{
    for i in 0..list.len()
        invariant
            forall|j: int| 0 <= j < i ==> #[trigger] pairs(list@)[j] != (a@, b@),
    {
        assert(pairs(list@)[i as int] == (list@[i as int].0@, list@[i as int].1@));
        if same(list[i].0.as_str(), a) && same(list[i].1.as_str(), b) {
            return true;
        }
    }
    false
}

/// What is to be done about a role link, given the member's response to its form
/// and the roles that the member is known to have.
pub fn plan_action(
    link: &RoleLink,
    response: &Option<StoredResponse>,
    assigned: &Vec<(String, String)>,
) -> (r: Option<RoleAction>)
    ensures
        needed_change(link@, response_view(*response), pairs(assigned@)) == (match r {
            Some(a) => Some(a@),
            None => None,
        }),
{
    let qualified: bool = match response {
        Some(stored) => {
            let data = ResponseEvalData {
                answers: &stored.answers,
                total_score: match stored.total_score {
                    Some(n) => Some(n as i64),
                    None => None,
                },
                numbers: &stored.numbers,
            };
            evaluate(link.grant_on_any_submission, link.conditions.as_slice(), &data)
        },
        None => false,
    };
    let has_role: bool = has_pair(assigned, link.guild_id.as_str(), link.role_id.as_str());
    if qualified && !has_role {
        Some(
            RoleAction::Add {
                guild_id: owned(link.guild_id.as_str()),
                role_id: owned(link.role_id.as_str()),
                api_token: owned(link.api_token.as_str()),
            },
        )
    } else if !qualified && has_role {
        Some(
            RoleAction::Remove {
                guild_id: owned(link.guild_id.as_str()),
                role_id: owned(link.role_id.as_str()),
                api_token: owned(link.api_token.as_str()),
            },
        )
    } else {
        None
    }
}

/// A member who has a role just where they qualify for it needs nothing.
pub proof fn law_settled_members_need_nothing(link: Link, qualified: bool)
    ensures
        change_for(link, qualified, qualified) is None,
{
}

/// A role is added only to a member who qualifies by a stored response, and
/// only where they are not known to have it; it is removed only from a member
/// who does not qualify.
pub proof fn law_changes_follow_from_responses(
    link: Link,
    response: Option<Response>,
    assigned: Seq<(Seq<char>, Seq<char>)>,
)
    ensures
        needed_change(link, response, assigned) matches Some(
            Change::Add { guild_id, role_id, api_token },
        ) ==> {
            &&& response is Some
            &&& granted(link.grant_on_any_submission, link.rules, response->0)
            &&& !assigned.contains((guild_id, role_id))
        },
        needed_change(link, response, assigned) matches Some(
            Change::Remove { guild_id, role_id, api_token },
        ) ==> !qualifies(link, response) && assigned.contains((guild_id, role_id)),
{
}

// ---------------------------------------------------------------------------
// Per-player sync
// ---------------------------------------------------------------------------

/// Where the sync of a member is: what it asks for next.
#[derive(Debug)]
pub enum PlayerSync {
    /// The guilds of the member that the gateway knows.
    FetchGuilds,
    /// The guilds in which the member has a response.
    FetchRespondentGuilds { guilds: Vec<String> },
    /// The opt-outs of the guild at `at` among those that the gateway does not
    /// know.
    FetchOptouts { guilds: Vec<String>, pending: Vec<String>, at: usize },
    /// The role links of the guilds that are bound to a form.
    LoadLinks { guilds: Vec<String> },
    /// The roles that the member is known to have.
    LoadAssignments { links: Vec<RoleLink> },
    /// The member's latest response to the form of the link at `at`.
    LoadResponse {
        links: Vec<RoleLink>,
        assigned: Vec<(String, String)>,
        at: usize,
        actions: Vec<RoleAction>,
    },
    /// Carry the actions out.
    Apply { actions: Vec<RoleAction> },
    /// The sync is over.
    Done(Result<(), AppError>),
}

/// What a `PlayerSync` stands for.
#[verifier::ext_equal]
pub enum PlayerStage {
    FetchGuilds,
    FetchRespondentGuilds(Seq<Seq<char>>),
    FetchOptouts { guilds: Seq<Seq<char>>, pending: Seq<Seq<char>>, at: nat },
    LoadLinks(Seq<Seq<char>>),
    LoadAssignments(Seq<Link>),
    LoadResponse {
        links: Seq<Link>,
        assigned: Seq<(Seq<char>, Seq<char>)>,
        at: nat,
        actions: Seq<Change>,
    },
    Apply(Seq<Change>),
    Done(Result<(), Failure>),
}

/// The view of an outcome.
pub open spec fn outcome(r: Result<(), AppError>) -> Result<(), Failure> {
    match r {
        Ok(_) => Ok(()),
        Err(e) => Err(e@),
    }
}

impl View for PlayerSync {
    type V = PlayerStage;

    open spec fn view(&self) -> PlayerStage {
        match *self {
            PlayerSync::FetchGuilds => PlayerStage::FetchGuilds,
            PlayerSync::FetchRespondentGuilds { guilds } => PlayerStage::FetchRespondentGuilds(
                crate::text::texts(guilds@),
            ),
            PlayerSync::FetchOptouts { guilds, pending, at } => PlayerStage::FetchOptouts {
                guilds: crate::text::texts(guilds@),
                pending: crate::text::texts(pending@),
                at: at as nat,
            },
            PlayerSync::LoadLinks { guilds } => PlayerStage::LoadLinks(crate::text::texts(guilds@)),
            PlayerSync::LoadAssignments { links: all } => PlayerStage::LoadAssignments(links(all@)),
            PlayerSync::LoadResponse { links: all, assigned, at, actions } => {
                PlayerStage::LoadResponse {
                    links: links(all@),
                    assigned: pairs(assigned@),
                    at: at as nat,
                    actions: changes(actions@),
                }
            },
            PlayerSync::Apply { actions } => PlayerStage::Apply(changes(actions@)),
            PlayerSync::Done(r) => PlayerStage::Done(outcome(r)),
        }
    }
}

/// What the last request of a member's sync gave.
#[derive(Debug)]
pub enum PlayerAnswer {
    Guilds(Result<Vec<String>, AppError>),
    RespondentGuilds(Result<Vec<String>, AppError>),
    Optouts(Result<Vec<String>, AppError>),
    Links(Result<Vec<RoleLink>, AppError>),
    Assignments(Result<Vec<(String, String)>, AppError>),
    Response(Result<Option<StoredResponse>, AppError>),
    Applied(Result<(), AppError>),
}

/// What a `PlayerAnswer` stands for.
pub enum PlayerFinding {
    Guilds(Result<Seq<Seq<char>>, Failure>),
    RespondentGuilds(Result<Seq<Seq<char>>, Failure>),
    Optouts(Result<Seq<Seq<char>>, Failure>),
    Links(Result<Seq<Link>, Failure>),
    Assignments(Result<Seq<(Seq<char>, Seq<char>)>, Failure>),
    Response(Result<Option<Response>, Failure>),
    Applied(Result<(), Failure>),
}

/// The view of a list of texts that may have failed.
pub open spec fn text_list(r: Result<Vec<String>, AppError>) -> Result<Seq<Seq<char>>, Failure> {
    match r {
        Ok(v) => Ok(crate::text::texts(v@)),
        Err(e) => Err(e@),
    }
}

impl View for PlayerAnswer {
    type V = PlayerFinding;

    open spec fn view(&self) -> PlayerFinding {
        match *self {
            PlayerAnswer::Guilds(r) => PlayerFinding::Guilds(text_list(r)),
            PlayerAnswer::RespondentGuilds(r) => PlayerFinding::RespondentGuilds(text_list(r)),
            PlayerAnswer::Optouts(r) => PlayerFinding::Optouts(text_list(r)),
            PlayerAnswer::Links(r) => PlayerFinding::Links(
                match r {
                    Ok(v) => Ok(links(v@)),
                    Err(e) => Err(e@),
                },
            ),
            PlayerAnswer::Assignments(r) => PlayerFinding::Assignments(
                match r {
                    Ok(v) => Ok(pairs(v@)),
                    Err(e) => Err(e@),
                },
            ),
            PlayerAnswer::Response(r) => PlayerFinding::Response(
                match r {
                    Ok(x) => Ok(response_view(x)),
                    Err(e) => Err(e@),
                },
            ),
            PlayerAnswer::Applied(r) => PlayerFinding::Applied(outcome(r)),
        }
    }
}

/// The texts that are not in `known`, in their order.
pub open spec fn unknown(texts: Seq<Seq<char>>, known: Seq<Seq<char>>) -> Seq<Seq<char>>
    decreases texts.len(),
{
    if texts.len() == 0 {
        Seq::empty()
    } else if known.contains(texts.last()) {
        unknown(texts.drop_last(), known)
    } else {
        unknown(texts.drop_last(), known).push(texts.last())
    }
}

/// How a sync goes on once the guilds of the member are known.
pub open spec fn with_guilds(guilds: Seq<Seq<char>>) -> PlayerStage {
    if guilds.len() == 0 {
        PlayerStage::Done(Ok(()))
    } else {
        PlayerStage::LoadLinks(guilds)
    }
}

/// How the sync of the member `discord_id` goes on. A failed lookup ends it with
/// that failure, and so does what comes of the calls that carry it out, so that
/// its job is retried. An answer that does not belong to what was asked for
/// changes nothing.
pub open spec fn player_next(
    at: PlayerStage,
    found: PlayerFinding,
    discord_id: Seq<char>,
) -> PlayerStage {
    match (at, found) {
        (PlayerStage::FetchGuilds, PlayerFinding::Guilds(r)) => match r {
            Err(e) => PlayerStage::Done(Err(e)),
            Ok(guilds) => PlayerStage::FetchRespondentGuilds(guilds),
        },
        (PlayerStage::FetchRespondentGuilds(guilds), PlayerFinding::RespondentGuilds(r)) => match r {
            Err(e) => PlayerStage::Done(Err(e)),
            Ok(respondent) => {
                let pending = unknown(respondent, guilds);
                if pending.len() == 0 {
                    with_guilds(guilds)
                } else {
                    PlayerStage::FetchOptouts { guilds, pending, at: 0 }
                }
            },
        },
        (PlayerStage::FetchOptouts { guilds, pending, at }, PlayerFinding::Optouts(r)) => match r {
            Err(e) => PlayerStage::Done(Err(e)),
            Ok(optouts) => {
                let more = if at < pending.len() && !optouts.contains(discord_id) {
                    guilds.push(pending[at as int])
                } else {
                    guilds
                };
                if at + 1 < pending.len() {
                    PlayerStage::FetchOptouts { guilds: more, pending, at: at + 1 }
                } else {
                    with_guilds(more)
                }
            },
        },
        (PlayerStage::LoadLinks(guilds), PlayerFinding::Links(r)) => match r {
            Err(e) => PlayerStage::Done(Err(e)),
            Ok(all) => if all.len() == 0 {
                PlayerStage::Done(Ok(()))
            } else {
                PlayerStage::LoadAssignments(all)
            },
        },
        (PlayerStage::LoadAssignments(all), PlayerFinding::Assignments(r)) => match r {
            Err(e) => PlayerStage::Done(Err(e)),
            Ok(assigned) => PlayerStage::LoadResponse {
                links: all,
                assigned,
                at: 0,
                actions: Seq::empty(),
            },
        },
        (
            PlayerStage::LoadResponse { links: all, assigned, at, actions },
            PlayerFinding::Response(r),
        ) => match r {
            Err(e) => PlayerStage::Done(Err(e)),
            Ok(response) => {
                let more = if at < all.len() {
                    match needed_change(all[at as int], response, assigned) {
                        Some(c) => actions.push(c),
                        None => actions,
                    }
                } else {
                    actions
                };
                if at + 1 < all.len() {
                    PlayerStage::LoadResponse { links: all, assigned, at: at + 1, actions: more }
                } else if more.len() == 0 {
                    PlayerStage::Done(Ok(()))
                } else {
                    PlayerStage::Apply(more)
                }
            },
        },
        (PlayerStage::Apply(actions), PlayerFinding::Applied(r)) => PlayerStage::Done(r),
        _ => at,
    }
}

fn drop_known(texts: &Vec<String>, known: &Vec<String>) -> (r: Vec<String>)
    ensures
        crate::text::texts(r@) == unknown(crate::text::texts(texts@), crate::text::texts(known@)),
{
    let ghost all = crate::text::texts(texts@);
    let ghost have = crate::text::texts(known@);
    let mut out: Vec<String> = Vec::new();
    assert(crate::text::texts(out@) =~= Seq::empty());
    for i in 0..texts.len()
        invariant
            all == crate::text::texts(texts@),
            have == crate::text::texts(known@),
            crate::text::texts(out@) == unknown(all.take(i as int), have),
    {
        proof {
            assert(all.take(i + 1).drop_last() =~= all.take(i as int));
            assert(all.take(i + 1).last() == texts@[i as int]@);
        }
        if !member(known, texts[i].as_str()) {
            push_text(&mut out, owned(texts[i].as_str()));
        }
    }
    assert(all.take(all.len() as int) =~= all);
    out
}

fn have_guilds(guilds: Vec<String>) -> (r: PlayerSync)
    ensures
        r@ == with_guilds(crate::text::texts(guilds@)),
{
    assert(crate::text::texts(guilds@).len() == guilds.len());
    if guilds.len() == 0 {
        PlayerSync::Done(Ok(()))
    } else {
        PlayerSync::LoadLinks { guilds }
    }
}

/// How the sync of a member starts.
pub fn sync_for_player() -> (r: PlayerSync)
    ensures
        r@ == PlayerStage::FetchGuilds,
{
    PlayerSync::FetchGuilds
}

/// How the sync of the member `discord_id` goes on.
///
/// The gateway's list only covers guilds that RoleLogic has cached. A
/// respondent who never opened the RoleLogic dashboard is absent from it, so
/// every guild where the member has a response is added, unless the member
/// opted out of it there.
pub fn player_sync_next(at: PlayerSync, answer: PlayerAnswer, discord_id: &str) -> (r: PlayerSync)
    ensures
        r@ == player_next(at@, answer@, discord_id@),
{
    match (at, answer) {
        (PlayerSync::FetchGuilds, PlayerAnswer::Guilds(r)) => match r {
            Err(e) => PlayerSync::Done(Err(e)),
            Ok(guilds) => PlayerSync::FetchRespondentGuilds { guilds },
        },
        (
            PlayerSync::FetchRespondentGuilds { guilds },
            PlayerAnswer::RespondentGuilds(r),
        ) => match r {
            Err(e) => PlayerSync::Done(Err(e)),
            Ok(respondent) => {
                let pending = drop_known(&respondent, &guilds);
                assert(crate::text::texts(pending@).len() == pending.len());
                if pending.len() == 0 {
                    have_guilds(guilds)
                } else {
                    PlayerSync::FetchOptouts { guilds, pending, at: 0 }
                }
            },
        },
        (PlayerSync::FetchOptouts { guilds, pending, at }, PlayerAnswer::Optouts(r)) => match r {
            Err(e) => PlayerSync::Done(Err(e)),
            Ok(optouts) => {
                let mut guilds = guilds;
                assert(crate::text::texts(pending@).len() == pending.len());
                if at < pending.len() && !member(&optouts, discord_id) {
                    push_text(&mut guilds, owned(pending[at].as_str()));
                }
                if at < pending.len() && at + 1 < pending.len() {
                    PlayerSync::FetchOptouts { guilds, pending, at: at + 1 }
                } else {
                    have_guilds(guilds)
                }
            },
        },
        (PlayerSync::LoadLinks { guilds }, PlayerAnswer::Links(r)) => match r {
            Err(e) => PlayerSync::Done(Err(e)),
            Ok(all) => {
                assert(links(all@).len() == all.len());
                if all.len() == 0 {
                    PlayerSync::Done(Ok(()))
                } else {
                    PlayerSync::LoadAssignments { links: all }
                }
            },
        },
        (PlayerSync::LoadAssignments { links: all }, PlayerAnswer::Assignments(r)) => match r {
            Err(e) => PlayerSync::Done(Err(e)),
            Ok(assigned) => {
                let actions: Vec<RoleAction> = Vec::new();
                assert(changes(actions@) =~= Seq::empty());
                PlayerSync::LoadResponse { links: all, assigned, at: 0, actions }
            },
        },
        (
            PlayerSync::LoadResponse { links: all, assigned, at, actions },
            PlayerAnswer::Response(r),
        ) => match r {
            Err(e) => PlayerSync::Done(Err(e)),
            Ok(response) => {
                let mut actions = actions;
                let ghost before = actions@;
                assert(links(all@).len() == all.len());
                if at < all.len() {
                    assert(links(all@)[at as int] == all@[at as int]@);
                    match plan_action(&all[at], &response, &assigned) {
                        Some(a) => {
                            actions.push(a);
                            assert(changes(actions@) =~= changes(before).push(a@));
                        },
                        None => {},
                    }
                }
                assert(changes(actions@).len() == actions.len());
                if at < all.len() && at + 1 < all.len() {
                    PlayerSync::LoadResponse { links: all, assigned, at: at + 1, actions }
                } else if actions.len() == 0 {
                    PlayerSync::Done(Ok(()))
                } else {
                    PlayerSync::Apply { actions }
                }
            },
        },
        (PlayerSync::Apply { actions }, PlayerAnswer::Applied(r)) => PlayerSync::Done(r),
        (at, _) => at,
    }
}

/// A failed lookup ends the sync of a member with that failure, and nothing is
/// applied.
pub proof fn law_failed_lookups_change_nothing(at: PlayerStage, e: Failure, discord_id: Seq<char>)
    ensures
        at is FetchGuilds ==> player_next(at, PlayerFinding::Guilds(Err(e)), discord_id)
            == PlayerStage::Done(Err(e)),
        at is FetchRespondentGuilds ==> player_next(
            at,
            PlayerFinding::RespondentGuilds(Err(e)),
            discord_id,
        ) == PlayerStage::Done(Err(e)),
        at is FetchOptouts ==> player_next(at, PlayerFinding::Optouts(Err(e)), discord_id)
            == PlayerStage::Done(Err(e)),
        at is LoadLinks ==> player_next(at, PlayerFinding::Links(Err(e)), discord_id)
            == PlayerStage::Done(Err(e)),
        at is LoadAssignments ==> player_next(at, PlayerFinding::Assignments(Err(e)), discord_id)
            == PlayerStage::Done(Err(e)),
        at is LoadResponse ==> player_next(at, PlayerFinding::Response(Err(e)), discord_id)
            == PlayerStage::Done(Err(e)),
{
}

/// A guild that the gateway does not know is added just where the member has
/// not opted out there.
pub proof fn law_optouts_are_honored(
    guilds: Seq<Seq<char>>,
    pending: Seq<Seq<char>>,
    at: nat,
    optouts: Seq<Seq<char>>,
    discord_id: Seq<char>,
)
    requires
        at + 1 < pending.len(),
    ensures
        player_next(
            PlayerStage::FetchOptouts { guilds, pending, at },
            PlayerFinding::Optouts(Ok(optouts)),
            discord_id,
        ) == (PlayerStage::FetchOptouts {
            guilds: if optouts.contains(discord_id) {
                guilds
            } else {
                guilds.push(pending[at as int])
            },
            pending,
            at: at + 1,
        }),
{
}

/// What is applied in the end is what each link needs by its own response.
pub proof fn law_every_link_is_planned(
    all: Seq<Link>,
    responses: Seq<Option<Response>>,
    assigned: Seq<(Seq<char>, Seq<char>)>,
    at: nat,
    discord_id: Seq<char>,
)
    requires
        at < all.len(),
        responses.len() == all.len(),
    ensures
        ({
            let here = PlayerStage::LoadResponse {
                links: all,
                assigned,
                at,
                actions: needed_changes(all.take(at as int), responses, assigned),
            };
            let planned = needed_changes(all.take((at + 1) as int), responses, assigned);
            player_next(here, PlayerFinding::Response(Ok(responses[at as int])), discord_id)
                == if at + 1 < all.len() {
                PlayerStage::LoadResponse { links: all, assigned, at: at + 1, actions: planned }
            } else if planned.len() == 0 {
                PlayerStage::Done(Ok(()))
            } else {
                PlayerStage::Apply(planned)
            }
        }),
{
    assert(all.take((at + 1) as int).drop_last() =~= all.take(at as int));
    assert(all.take((at + 1) as int).last() == all[at as int]);
}

// ---------------------------------------------------------------------------
// After a call to RoleLogic
// ---------------------------------------------------------------------------

/// What follows a call that adds or removes a member.
#[derive(Clone, Copy, Debug, PartialEq, Eq, Structural)]
pub enum FollowUp {
    /// Record the new assignment, or that it is gone.
    Record,
    /// The link is gone upstream: delete it here.
    DropLink,
    /// Nothing but a line in the log: the assignments stay as they are.
    Nothing,
}

/// What follows a call that adds or removes a member.
pub open spec fn follow_up(r: Result<bool, Failure>) -> FollowUp {
    match r {
        Ok(_) => FollowUp::Record,
        Err(Failure::RoleLinkNotFound) => FollowUp::DropLink,
        Err(_) => FollowUp::Nothing,
    }
}

/// The view of a flag that may have failed.
pub open spec fn flagged(r: Result<bool, AppError>) -> Result<bool, Failure> {
    match r {
        Ok(b) => Ok(b),
        Err(e) => Err(e@),
    }
}

/// What follows a call that adds or removes a member.
pub fn after_call(r: &Result<bool, AppError>) -> (f: FollowUp)
    ensures
        f == follow_up(flagged(*r)),
{
    match r {
        Ok(_) => FollowUp::Record,
        Err(AppError::RoleLinkNotFound) => FollowUp::DropLink,
        Err(_) => FollowUp::Nothing,
    }
}

/// Whether a call that failed is worth trying again: not where the link is gone
/// or switched off, nor where it is full.
pub open spec fn worth_retrying(e: Failure) -> bool {
    !(e is RoleLinkNotFound || e is RoleLinkDisabled || e is UserLimitReached)
}

/// Whether a call that failed is worth trying again.
pub fn is_worth_retrying(e: &AppError) -> (r: bool)
    ensures
        r == worth_retrying(e@),
{
    match e {
        AppError::RoleLinkNotFound => false,
        AppError::RoleLinkDisabled => false,
        AppError::UserLimitReached { limit } => false,
        _ => true,
    }
}

/// The views of what calls gave.
pub open spec fn flags(results: Seq<Result<bool, AppError>>) -> Seq<Result<bool, Failure>> {
    results.map_values(|r: Result<bool, AppError>| flagged(r))
}

/// What calls come to together: the first failure that is worth trying again.
pub open spec fn calls_outcome(results: Seq<Result<bool, Failure>>) -> Result<(), Failure>
    decreases results.len(),
{
    if results.len() == 0 {
        Ok(())
    } else {
        match results[0] {
            Err(e) => if worth_retrying(e) {
                Err(e)
            } else {
                calls_outcome(results.skip(1))
            },
            Ok(_) => calls_outcome(results.skip(1)),
        }
    }
}

/// What the calls that carry a sync out come to together: the first failure that
/// is worth trying again, so that the job is retried with it.
pub fn sum_up_calls(results: Vec<Result<bool, AppError>>) -> (r: Result<(), AppError>)
    ensures
        outcome(r) == calls_outcome(flags(results@)),
{
    let ghost all = flags(results@);
    let mut left = results;
    let mut found: Result<(), AppError> = Ok(());
    assert(all.skip(all.len() as int) =~= Seq::empty());
    loop
        invariant
            flags(left@) =~= all.take(left.len() as int),
            left.len() <= all.len(),
            outcome(found) == calls_outcome(all.skip(left.len() as int)),
        ensures
            left.len() == 0,
        decreases left.len(),
    {
        let ghost n = left.len() as int;
        let ghost before = left@;
        match left.pop() {
            None => {
                break;
            },
            Some(last) => {
                proof {
                    assert(flags(before)[n - 1] == flagged(last));
                    assert(all[n - 1] == flagged(last)) by {
                        assert(all.take(n)[n - 1] == all[n - 1]);
                    }
                    assert(all.skip(n - 1)[0] == all[n - 1]);
                    assert(all.skip(n - 1).skip(1) =~= all.skip(n));
                    assert(flags(left@) =~= all.take(n - 1)) by {
                        assert forall|i: int| 0 <= i < n - 1 implies flags(left@)[i]
                            == all.take(n - 1)[i] by {
                            assert(flags(before)[i] == all.take(n)[i]);
                        }
                    }
                }
                match last {
                    Ok(_) => {},
                    Err(e) => if is_worth_retrying(&e) {
                        found = Err(e);
                    },
                }
            },
        }
    }
    assert(all.skip(0) =~= all);
    found
}

proof fn lemma_first_failure(results: Seq<Result<bool, Failure>>, i: int, e: Failure)
    requires
        0 <= i < results.len(),
        results[i] == Err::<bool, Failure>(e),
        worth_retrying(e),
        forall|k: int|
            0 <= k < i ==> (#[trigger] results[k] matches Err(other) ==> !worth_retrying(other)),
    ensures
        calls_outcome(results) == Err::<(), Failure>(e),
    decreases i,
{
    if i > 0 {
        let rest = results.skip(1);
        assert(results[0] matches Err(other) ==> !worth_retrying(other));
        assert forall|k: int| 0 <= k < i - 1 implies (#[trigger] rest[k] matches Err(other)
            ==> !worth_retrying(other)) by {
            assert(rest[k] == results[k + 1]);
        }
        assert(rest[i - 1] == results[i]);
        lemma_first_failure(rest, i - 1, e);
    }
}

/// A call to RoleLogic that failed and is worth trying again leaves the
/// assignment as it is, and ends the sync of the member in an error: the first
/// such failure, with which the job is retried.
pub proof fn law_failed_calls_are_retried(
    actions: Seq<Change>,
    results: Seq<Result<bool, Failure>>,
    i: int,
    e: Failure,
    discord_id: Seq<char>,
)
    requires
        0 <= i < results.len(),
        results[i] == Err::<bool, Failure>(e),
        worth_retrying(e),
        forall|k: int|
            0 <= k < i ==> (#[trigger] results[k] matches Err(other) ==> !worth_retrying(other)),
    ensures
        follow_up(results[i]) == FollowUp::Nothing,
        player_next(
            PlayerStage::Apply(actions),
            PlayerFinding::Applied(calls_outcome(results)),
            discord_id,
        ) == PlayerStage::Done(Err(e)),
{
    lemma_first_failure(results, i, e);
}

/// A sync that is carried out without a failure worth trying again succeeds.
pub proof fn law_carried_out_syncs_succeed(
    actions: Seq<Change>,
    results: Seq<Result<bool, Failure>>,
    discord_id: Seq<char>,
)
    requires
        forall|k: int|
            0 <= k < results.len() ==> (#[trigger] results[k] matches Err(e) ==> !worth_retrying(
                e,
            )),
    ensures
        player_next(
            PlayerStage::Apply(actions),
            PlayerFinding::Applied(calls_outcome(results)),
            discord_id,
        ) == PlayerStage::Done(Ok(())),
    decreases results.len(),
{
    if results.len() > 0 {
        let rest = results.skip(1);
        assert(results[0] matches Err(e) ==> !worth_retrying(e));
        assert forall|k: int| 0 <= k < rest.len() implies (#[trigger] rest[k] matches Err(e)
            ==> !worth_retrying(e)) by {
            assert(rest[k] == results[k + 1]);
        }
        law_carried_out_syncs_succeed(actions, rest, discord_id);
    }
}

// ---------------------------------------------------------------------------
// Account unlink
// ---------------------------------------------------------------------------

/// Where the removal of all roles of a member, who unlinked the account, is: what
/// it asks for next. `failed` is the first failure that is worth trying again.
#[derive(Debug, PartialEq)]
pub enum Unlinking {
    /// Remove the member from the link at `at`.
    RemoveAt { at: usize, failed: Option<AppError> },
    /// Delete the link at `at`, which is gone upstream.
    DropAt { at: usize, failed: Option<AppError> },
    /// Delete all assignments of the member.
    ClearAssignments,
    /// The removal is over.
    Done(Result<(), AppError>),
}

/// What an `Unlinking` stands for.
pub enum UnlinkStage {
    RemoveAt { at: nat, failed: Option<Failure> },
    DropAt { at: nat, failed: Option<Failure> },
    ClearAssignments,
    Done(Result<(), Failure>),
}

/// The view of a failure that may be.
pub open spec fn failure_of(e: Option<AppError>) -> Option<Failure> {
    match e {
        Some(e) => Some(e@),
        None => None,
    }
}

impl View for Unlinking {
    type V = UnlinkStage;

    open spec fn view(&self) -> UnlinkStage {
        match *self {
            Unlinking::RemoveAt { at, failed } => UnlinkStage::RemoveAt {
                at: at as nat,
                failed: failure_of(failed),
            },
            Unlinking::DropAt { at, failed } => UnlinkStage::DropAt {
                at: at as nat,
                failed: failure_of(failed),
            },
            Unlinking::ClearAssignments => UnlinkStage::ClearAssignments,
            Unlinking::Done(r) => UnlinkStage::Done(outcome(r)),
        }
    }
}

/// What the last request of a removal gave.
#[derive(Debug, PartialEq)]
pub enum UnlinkAnswer {
    Removed(Result<bool, AppError>),
    Dropped,
    Cleared(Result<(), AppError>),
}

/// What an `UnlinkAnswer` stands for.
pub enum UnlinkFinding {
    Removed(Result<bool, Failure>),
    Dropped,
    Cleared(Result<(), Failure>),
}

impl View for UnlinkAnswer {
    type V = UnlinkFinding;

    open spec fn view(&self) -> UnlinkFinding {
        match *self {
            UnlinkAnswer::Removed(r) => UnlinkFinding::Removed(flagged(r)),
            UnlinkAnswer::Dropped => UnlinkFinding::Dropped,
            UnlinkAnswer::Cleared(r) => UnlinkFinding::Cleared(outcome(r)),
        }
    }
}

/// Where the removal is once the links before `at` are dealt with. While a role
/// may still be there upstream, no assignment is forgotten.
pub open spec fn unlink_at(at: nat, total: nat, failed: Option<Failure>) -> UnlinkStage {
    if at < total {
        UnlinkStage::RemoveAt { at, failed }
    } else {
        match failed {
            Some(e) => UnlinkStage::Done(Err(e)),
            None => UnlinkStage::ClearAssignments,
        }
    }
}

/// The first of the failures worth trying again, after one more call.
pub open spec fn failed_so_far(failed: Option<Failure>, r: Result<bool, Failure>) -> Option<
    Failure,
> {
    match (failed, r) {
        (None, Err(e)) => if worth_retrying(e) {
            Some(e)
        } else {
            None
        },
        _ => failed,
    }
}

/// How the removal of a member's `total` roles goes on. A failure does not stop
/// it, but one that is worth trying again is what it ends in. An answer that does
/// not belong to what was asked for changes nothing.
pub open spec fn unlink_next(at: UnlinkStage, found: UnlinkFinding, total: nat) -> UnlinkStage {
    match (at, found) {
        (UnlinkStage::RemoveAt { at, failed }, UnlinkFinding::Removed(r)) => if r
            matches Err(Failure::RoleLinkNotFound) {
            UnlinkStage::DropAt { at, failed }
        } else {
            unlink_at(at + 1, total, failed_so_far(failed, r))
        },
        (UnlinkStage::DropAt { at, failed }, UnlinkFinding::Dropped) => unlink_at(
            at + 1,
            total,
            failed,
        ),
        (UnlinkStage::ClearAssignments, UnlinkFinding::Cleared(r)) => UnlinkStage::Done(r),
        _ => at,
    }
}

/// How the removal of all roles of a member with `total` of them starts.
pub fn remove_all_assignments(total: usize) -> (r: Unlinking)
    ensures
        r@ == unlink_at(0, total as nat, None),
{
    if total > 0 {
        Unlinking::RemoveAt { at: 0, failed: None }
    } else {
        Unlinking::ClearAssignments
    }
}

fn after_link(at: usize, total: usize, failed: Option<AppError>) -> (r: Unlinking)
    ensures
        r@ == unlink_at(at as nat + 1, total as nat, failure_of(failed)),
{
    if at < total && at + 1 < total {
        Unlinking::RemoveAt { at: at + 1, failed }
    } else {
        match failed {
            Some(e) => Unlinking::Done(Err(e)),
            None => Unlinking::ClearAssignments,
        }
    }
}

/// How the removal of a member's `total` roles goes on.
pub fn unlinking_next(at: Unlinking, answer: UnlinkAnswer, total: usize) -> (r: Unlinking)
    ensures
        r@ == unlink_next(at@, answer@, total as nat),
{
    match (at, answer) {
        (Unlinking::RemoveAt { at, failed }, UnlinkAnswer::Removed(r)) => match r {
            Err(AppError::RoleLinkNotFound) => Unlinking::DropAt { at, failed },
            Err(e) => match failed {
                Some(first) => after_link(at, total, Some(first)),
                None => if is_worth_retrying(&e) {
                    after_link(at, total, Some(e))
                } else {
                    after_link(at, total, None)
                },
            },
            Ok(_) => after_link(at, total, failed),
        },
        (Unlinking::DropAt { at, failed }, UnlinkAnswer::Dropped) => after_link(at, total, failed),
        (Unlinking::ClearAssignments, UnlinkAnswer::Cleared(r)) => Unlinking::Done(r),
        (at, _) => at,
    }
}

/// The failure that a removal will end in.
pub open spec fn failure_ahead(at: UnlinkStage) -> Option<Failure> {
    match at {
        UnlinkStage::RemoveAt { at, failed } => failed,
        UnlinkStage::DropAt { at, failed } => failed,
        UnlinkStage::ClearAssignments => None,
        UnlinkStage::Done(r) => match r {
            Err(e) => Some(e),
            Ok(_) => None,
        },
    }
}

/// Where a role could not be removed and that is worth trying again, no
/// assignment of the member is forgotten: the removal goes on with the other
/// links, never clears the assignments, and ends in the first such failure.
pub proof fn law_unremoved_roles_are_not_forgotten(
    at: UnlinkStage,
    found: UnlinkFinding,
    e: Failure,
    total: nat,
)
    ensures
        (at matches UnlinkStage::RemoveAt { at: i, failed } ==> failed is None && worth_retrying(e)
            ==> failure_ahead(unlink_next(at, UnlinkFinding::Removed(Err(e)), total)) == Some(e)),
        failure_ahead(at) is Some ==> {
            &&& failure_ahead(unlink_next(at, found, total)) == failure_ahead(at)
            &&& unlink_next(at, found, total) !is ClearAssignments
        },
{
}

/// Every role of the member is asked to be removed: the removal takes the links
/// one after the other, and leaves the last of them only to clear the assignments
/// or to report a failure.
pub proof fn law_every_role_is_removed(i: nat, failed: Option<Failure>, b: bool, total: nat)
    requires
        i < total,
    ensures
        unlink_next(
            UnlinkStage::RemoveAt { at: i, failed },
            UnlinkFinding::Removed(Ok(b)),
            total,
        ) == unlink_at(i + 1, total, failed),
        i + 1 < total ==> unlink_at(i + 1, total, failed) == (UnlinkStage::RemoveAt {
            at: i + 1,
            failed,
        }),
        i + 1 == total ==> unlink_at(i + 1, total, failed) == match failed {
            Some(e) => UnlinkStage::Done(Err(e)),
            None => UnlinkStage::ClearAssignments,
        },
{
}

// ---------------------------------------------------------------------------
// Per-role-link sync (bulk)
// ---------------------------------------------------------------------------

/// A role link as it is stored: it may be bound to no form.
#[derive(Debug, PartialEq)]
pub struct LinkRow {
    pub api_token: String,
    pub form_id: Option<String>,
    pub grant_on_any_submission: bool,
    pub conditions: Vec<Condition>,
}

/// What a role link that is bound to a form says of its sync.
#[derive(Debug, PartialEq)]
pub struct LinkConfig {
    pub api_token: String,
    pub form_id: String,
    pub grant_on_any_submission: bool,
    pub conditions: Vec<Condition>,
}

/// What a `LinkConfig` stands for.
#[verifier::ext_equal]
pub struct Bound {
    pub api_token: Seq<char>,
    pub form_id: Seq<char>,
    pub grant_on_any_submission: bool,
    pub rules: Seq<Rule>,
}

impl View for LinkConfig {
    type V = Bound;

    open spec fn view(&self) -> Bound {
        Bound {
            api_token: self.api_token@,
            form_id: self.form_id@,
            grant_on_any_submission: self.grant_on_any_submission,
            rules: crate::models::condition::rules(self.conditions@),
        }
    }
}

/// What a stored link says of its sync, where there is one that is bound to a
/// form.
pub open spec fn bound_link(row: Option<LinkRow>) -> Option<Bound> {
    match row {
        Some(l) => match l.form_id {
            Some(form_id) => Some(
                Bound {
                    api_token: l.api_token@,
                    form_id: form_id@,
                    grant_on_any_submission: l.grant_on_any_submission,
                    rules: crate::models::condition::rules(l.conditions@),
                },
            ),
            None => None,
        },
        None => None,
    }
}

/// The rules that decide who gets the role of a link: none where any submission
/// opens it, whatever conditions are left over from before.
pub open spec fn rules_in_force(link: Bound) -> Seq<Rule> {
    if link.grant_on_any_submission {
        Seq::empty()
    } else {
        link.rules
    }
}

/// The query for the members who qualify for a link. Its fixed parameters are
/// the form and the opt-outs; those of the conditions follow, then the limit.
pub open spec fn candidates_sql(rules: Seq<Rule>) -> Seq<char> {
    let clause = crate::services::condition_eval::where_clause(rules, 2);
    "SELECT DISTINCT fr.discord_id FROM form_responses fr WHERE fr.form_id = $1 AND fr.discord_id <> '' AND fr.discord_id <> ALL($2::text[]) AND ("@
        + clause.0 + ") ORDER BY fr.discord_id LIMIT $"@ + crate::numerals::nat_text(
        3 + clause.1.len(),
    )
}

/// The query for the members who qualify for a link, and the values that its
/// conditions bind.
pub fn candidates_query(conditions: &Vec<Condition>) -> (r: (String, Vec<ConditionBind>))
    requires
        3 + crate::services::condition_eval::all_binds(
            crate::models::condition::rules(conditions@),
        ).len() <= usize::MAX,
    ensures
        r.0@ == candidates_sql(crate::models::condition::rules(conditions@)),
        crate::services::condition_eval::bind_views(r.1@)
            == crate::services::condition_eval::where_clause(
            crate::models::condition::rules(conditions@),
            2,
        ).1,
{
    let (clause, binds) = build_condition_where(conditions.as_slice(), 2);
    assert(crate::services::condition_eval::bind_views(binds@).len() == binds.len());
    let sql = cat4(
        "SELECT DISTINCT fr.discord_id FROM form_responses fr WHERE fr.form_id = $1 AND fr.discord_id <> '' AND fr.discord_id <> ALL($2::text[]) AND (",
        clause.as_str(),
        ") ORDER BY fr.discord_id LIMIT $",
        usize_text(3 + binds.len()).as_str(),
    );
    (sql, binds)
}

/// Where the sync of a role link is: what it asks for next.
#[derive(Debug, PartialEq)]
pub enum LinkSync {
    /// The stored link.
    LoadLink,
    /// Upload an empty user set: an unconfigured link matches nobody.
    Drain { link: LinkConfig },
    /// Delete the link's assignments.
    ClearAssignments,
    /// The opt-outs of the guild.
    FetchOptouts { link: LinkConfig },
    /// How many users the link may have.
    FetchLimit { link: LinkConfig, optouts: Vec<String> },
    /// Run the query for the members who qualify.
    Query {
        link: LinkConfig,
        sql: String,
        binds: Vec<ConditionBind>,
        optouts: Vec<String>,
        limit: usize,
    },
    /// Upload the user set.
    Upload { link: LinkConfig, ids: Vec<String> },
    /// Replace the link's assignments by the user set.
    StoreAssignments { ids: Vec<String> },
    /// The link is gone upstream: delete it here (best effort).
    DropLink,
    /// The sync is over.
    Done(Result<(), AppError>),
}

/// What a `LinkSync` stands for.
#[verifier::ext_equal]
pub enum LinkStage {
    LoadLink,
    Drain(Bound),
    ClearAssignments,
    FetchOptouts(Bound),
    FetchLimit(Bound, Seq<Seq<char>>),
    Query {
        link: Bound,
        sql: Seq<char>,
        binds: Seq<Bind>,
        optouts: Seq<Seq<char>>,
        limit: usize,
    },
    Upload(Bound, Seq<Seq<char>>),
    StoreAssignments(Seq<Seq<char>>),
    DropLink,
    Done(Result<(), Failure>),
}

impl View for LinkSync {
    type V = LinkStage;

    open spec fn view(&self) -> LinkStage {
        match *self {
            LinkSync::LoadLink => LinkStage::LoadLink,
            LinkSync::Drain { link } => LinkStage::Drain(link@),
            LinkSync::ClearAssignments => LinkStage::ClearAssignments,
            LinkSync::FetchOptouts { link } => LinkStage::FetchOptouts(link@),
            LinkSync::FetchLimit { link, optouts } => LinkStage::FetchLimit(
                link@,
                crate::text::texts(optouts@),
            ),
            LinkSync::Query { link, sql, binds, optouts, limit } => LinkStage::Query {
                link: link@,
                sql: sql@,
                binds: crate::services::condition_eval::bind_views(binds@),
                optouts: crate::text::texts(optouts@),
                limit,
            },
            LinkSync::Upload { link, ids } => LinkStage::Upload(link@, crate::text::texts(ids@)),
            LinkSync::StoreAssignments { ids } => LinkStage::StoreAssignments(
                crate::text::texts(ids@),
            ),
            LinkSync::DropLink => LinkStage::DropLink,
            LinkSync::Done(r) => LinkStage::Done(outcome(r)),
        }
    }
}

/// What the last request of a role link's sync gave.
#[derive(Debug, PartialEq)]
pub enum LinkAnswer {
    Link(Result<Option<LinkRow>, AppError>),
    Optouts(Result<Vec<String>, AppError>),
    Limit(Result<usize, AppError>),
    Found(Result<Vec<String>, AppError>),
    Uploaded(Result<usize, AppError>),
    Cleared(Result<(), AppError>),
    Stored(Result<(), AppError>),
    Dropped,
}

/// What a `LinkAnswer` stands for.
pub enum LinkFinding {
    Link(Result<Option<Bound>, Failure>),
    Optouts(Result<Seq<Seq<char>>, Failure>),
    Limit(Result<usize, Failure>),
    Found(Result<Seq<Seq<char>>, Failure>),
    Uploaded(Result<usize, Failure>),
    Cleared(Result<(), Failure>),
    Stored(Result<(), Failure>),
    Dropped,
}

impl View for LinkAnswer {
    type V = LinkFinding;

    open spec fn view(&self) -> LinkFinding {
        match *self {
            LinkAnswer::Link(r) => LinkFinding::Link(
                match r {
                    Ok(row) => Ok(bound_link(row)),
                    Err(e) => Err(e@),
                },
            ),
            LinkAnswer::Optouts(r) => LinkFinding::Optouts(text_list(r)),
            LinkAnswer::Limit(r) => LinkFinding::Limit(crate::services::rolelogic::counted(r)),
            LinkAnswer::Found(r) => LinkFinding::Found(text_list(r)),
            LinkAnswer::Uploaded(r) => LinkFinding::Uploaded(
                crate::services::rolelogic::counted(r),
            ),
            LinkAnswer::Cleared(r) => LinkFinding::Cleared(outcome(r)),
            LinkAnswer::Stored(r) => LinkFinding::Stored(outcome(r)),
            LinkAnswer::Dropped => LinkFinding::Dropped,
        }
    }
}

/// Whether a link grants its role to nobody: no conditions, and not open to any
/// submission.
pub open spec fn is_unconfigured(link: Bound) -> bool {
    !link.grant_on_any_submission && link.rules.len() == 0
}

/// How a sync goes on when a call to RoleLogic failed: a link that is gone is
/// deleted, one that is switched off is left alone, any other failure is
/// reported so that the job is retried.
pub open spec fn after_refusal(e: Failure) -> LinkStage {
    match e {
        Failure::RoleLinkNotFound => LinkStage::DropLink,
        Failure::RoleLinkDisabled => LinkStage::Done(Ok(())),
        _ => LinkStage::Done(Err(e)),
    }
}

/// How the sync of a role link goes on. An answer that does not belong to what
/// was asked for changes nothing.
pub open spec fn link_next(at: LinkStage, found: LinkFinding) -> LinkStage {
    match (at, found) {
        (LinkStage::LoadLink, LinkFinding::Link(r)) => match r {
            Err(e) => LinkStage::Done(Err(e)),
            Ok(None) => LinkStage::Done(Ok(())),
            Ok(Some(link)) => if is_unconfigured(link) {
                LinkStage::Drain(link)
            } else {
                LinkStage::FetchOptouts(link)
            },
        },
        (LinkStage::Drain(link), LinkFinding::Uploaded(r)) => match r {
            Err(e) => after_refusal(e),
            Ok(_) => LinkStage::ClearAssignments,
        },
        (LinkStage::ClearAssignments, LinkFinding::Cleared(r)) => LinkStage::Done(r),
        (LinkStage::FetchOptouts(link), LinkFinding::Optouts(r)) => match r {
            Err(e) => LinkStage::Done(Err(e)),
            Ok(optouts) => LinkStage::FetchLimit(link, optouts),
        },
        (LinkStage::FetchLimit(link, optouts), LinkFinding::Limit(r)) => match r {
            Err(e) => after_refusal(e),
            Ok(limit) => LinkStage::Query {
                link,
                sql: candidates_sql(rules_in_force(link)),
                binds: crate::services::condition_eval::where_clause(rules_in_force(link), 2).1,
                optouts,
                limit,
            },
        },
        (LinkStage::Query { link, sql, binds, optouts, limit }, LinkFinding::Found(r)) => match r {
            Err(e) => LinkStage::Done(Err(e)),
            Ok(ids) => LinkStage::Upload(link, ids),
        },
        (LinkStage::Upload(link, ids), LinkFinding::Uploaded(r)) => match r {
            Err(e) => after_refusal(e),
            Ok(_) => LinkStage::StoreAssignments(ids),
        },
        (LinkStage::StoreAssignments(ids), LinkFinding::Stored(r)) => LinkStage::Done(r),
        (LinkStage::DropLink, LinkFinding::Dropped) => LinkStage::Done(Ok(())),
        _ => at,
    }
}

/// How the sync of a role link starts.
pub fn sync_for_role_link() -> (r: LinkSync)
    ensures
        r@ == LinkStage::LoadLink,
{
    LinkSync::LoadLink
}

fn refused(e: AppError) -> (r: LinkSync)
    ensures
        r@ == after_refusal(e@),
{
    match e {
        AppError::RoleLinkNotFound => LinkSync::DropLink,
        AppError::RoleLinkDisabled => LinkSync::Done(Ok(())),
        e => LinkSync::Done(Err(e)),
    }
}

/// How the sync of a role link goes on.
///
/// The candidates are everyone who submitted the form, minus anyone who opted
/// out; RoleLogic's bot is the authority on who is actually in the guild. An
/// opt-out lookup that fails ends the sync, so that a hiccup is never taken for
/// "nobody opted out"; so does a limit that can't be read, since rebuilding with
/// a made-up one would cut the user set.
pub fn link_sync_next(at: LinkSync, answer: LinkAnswer) -> (r: LinkSync)
    requires
        at matches LinkSync::FetchLimit { link, optouts } ==> 3
            + crate::services::condition_eval::all_binds(rules_in_force(link@)).len()
            <= usize::MAX,
    ensures
        r@ == link_next(at@, answer@),
{
    match (at, answer) {
        (LinkSync::LoadLink, LinkAnswer::Link(r)) => match r {
            Err(e) => LinkSync::Done(Err(e)),
            Ok(None) => LinkSync::Done(Ok(())),
            Ok(Some(row)) => match row.form_id {
                None => LinkSync::Done(Ok(())),
                Some(form_id) => {
                    let link = LinkConfig {
                        api_token: row.api_token,
                        form_id,
                        grant_on_any_submission: row.grant_on_any_submission,
                        conditions: row.conditions,
                    };
                    assert(link@.rules.len() == link.conditions.len());
                    if !link.grant_on_any_submission && link.conditions.len() == 0 {
                        LinkSync::Drain { link }
                    } else {
                        LinkSync::FetchOptouts { link }
                    }
                },
            },
        },
        (LinkSync::Drain { link }, LinkAnswer::Uploaded(r)) => match r {
            Err(e) => refused(e),
            Ok(_) => LinkSync::ClearAssignments,
        },
        (LinkSync::ClearAssignments, LinkAnswer::Cleared(r)) => LinkSync::Done(r),
        (LinkSync::FetchOptouts { link }, LinkAnswer::Optouts(r)) => match r {
            Err(e) => LinkSync::Done(Err(e)),
            Ok(optouts) => LinkSync::FetchLimit { link, optouts },
        },
        (LinkSync::FetchLimit { link, optouts }, LinkAnswer::Limit(r)) => match r {
            Err(e) => refused(e),
            Ok(limit) => {
                let none: Vec<Condition> = Vec::new();
                assert(crate::models::condition::rules(none@) =~= Seq::empty());
                let in_force: &Vec<Condition> = if link.grant_on_any_submission {
                    &none
                } else {
                    &link.conditions
                };
                let (sql, binds) = candidates_query(in_force);
                LinkSync::Query { link, sql, binds, optouts, limit }
            },
        },
        (LinkSync::Query { link, sql, binds, optouts, limit }, LinkAnswer::Found(r)) => match r {
            Err(e) => LinkSync::Done(Err(e)),
            Ok(ids) => LinkSync::Upload { link, ids },
        },
        (LinkSync::Upload { link, ids }, LinkAnswer::Uploaded(r)) => match r {
            Err(e) => refused(e),
            Ok(_) => LinkSync::StoreAssignments { ids },
        },
        (LinkSync::StoreAssignments { ids }, LinkAnswer::Stored(r)) => LinkSync::Done(r),
        (LinkSync::DropLink, LinkAnswer::Dropped) => LinkSync::Done(Ok(())),
        (at, _) => at,
    }
}

/// A link without conditions that is not open to any submission is drained: it
/// gets an empty user set and no query is made, and its assignments are deleted.
pub proof fn law_unconfigured_link_is_drained(link: Bound, count: usize)
    requires
        is_unconfigured(link),
    ensures
        link_next(LinkStage::LoadLink, LinkFinding::Link(Ok(Some(link)))) == LinkStage::Drain(link),
        link_next(LinkStage::Drain(link), LinkFinding::Uploaded(Ok(count)))
            == LinkStage::ClearAssignments,
        forall|data: Response| !granted(link.grant_on_any_submission, link.rules, data),
{
}

/// Nothing is uploaded for a configured link unless the opt-outs, the limit and
/// the query all were had: each failure on the way ends the sync, with the link
/// and its assignments as they were, unless RoleLogic says that it is gone.
pub proof fn law_no_upload_after_a_failure(
    link: Bound,
    optouts: Seq<Seq<char>>,
    sql: Seq<char>,
    binds: Seq<Bind>,
    limit: usize,
    e: Failure,
)
    ensures
        link_next(LinkStage::FetchOptouts(link), LinkFinding::Optouts(Err(e))) == LinkStage::Done(
            Err(e),
        ),
        e !is RoleLinkNotFound ==> link_next(
            LinkStage::FetchLimit(link, optouts),
            LinkFinding::Limit(Err(e)),
        ) is Done,
        link_next(
            LinkStage::Query { link, sql, binds, optouts, limit },
            LinkFinding::Found(Err(e)),
        ) == LinkStage::Done(Err(e)),
{
}

/// A link that is gone upstream is deleted and its sync succeeds; one that is
/// switched off is left intact and its sync succeeds; after any other failure of
/// an upload its assignments are left as they were and the failure is reported.
pub proof fn law_refused_uploads(link: Bound, ids: Seq<Seq<char>>, e: Failure)
    ensures
        ({
            let next = link_next(LinkStage::Upload(link, ids), LinkFinding::Uploaded(Err(e)));
            &&& e is RoleLinkNotFound ==> next == LinkStage::DropLink && link_next(
                next,
                LinkFinding::Dropped,
            ) == LinkStage::Done(Ok(()))
            &&& e is RoleLinkDisabled ==> next == LinkStage::Done(Ok(()))
            &&& e !is RoleLinkNotFound && e !is RoleLinkDisabled ==> next == LinkStage::Done(Err(e))
        }),
{
}

/// A link that any submission opens is asked for every respondent: its query has
/// no condition and binds no value of one, whatever conditions are left over. So
/// the sync of the link goes by the rules that the sync of a member goes by.
pub proof fn law_open_links_are_not_filtered(
    link: Bound,
    optouts: Seq<Seq<char>>,
    limit: usize,
    data: Response,
)
    ensures
        link.grant_on_any_submission ==> {
            let asked = link_next(
                LinkStage::FetchLimit(link, optouts),
                LinkFinding::Limit(Ok(limit)),
            );
            &&& asked is Query
            &&& asked->sql == candidates_sql(Seq::empty())
            &&& asked->binds == Seq::<Bind>::empty()
            &&& crate::services::condition_eval::where_clause(Seq::empty(), 2).0 == "TRUE"@
        },
        granted(link.grant_on_any_submission, link.rules, data) == granted(
            link.grant_on_any_submission,
            rules_in_force(link),
            data,
        ),
{
}

/// The assignments that are stored are the user set that was uploaded, and that
/// is what the query found.
pub proof fn law_assignments_are_what_was_uploaded(
    link: Bound,
    sql: Seq<char>,
    binds: Seq<Bind>,
    optouts: Seq<Seq<char>>,
    limit: usize,
    ids: Seq<Seq<char>>,
    count: usize,
)
    ensures
        link_next(
            link_next(
                LinkStage::Query { link, sql, binds, optouts, limit },
                LinkFinding::Found(Ok(ids)),
            ),
            LinkFinding::Uploaded(Ok(count)),
        ) == LinkStage::StoreAssignments(ids),
{
}

} // verus!
