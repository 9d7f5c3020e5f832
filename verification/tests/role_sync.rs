//! The RoleLogic and Auth Gateway clients, and the syncs that use them.

use form_respondent_role::double::Double;
use form_respondent_role::error::AppError;
use form_respondent_role::json::{Number, NumberTable, Real, Value};
use form_respondent_role::models::condition::{Condition, ConditionOperator, ConditionTarget};
use form_respondent_role::services::auth_gateway::{known_name, read_reply, Endpoint, GatewayReply};
use form_respondent_role::services::condition_eval::ConditionBind;
use form_respondent_role::services::rolelogic::{
    added, authorization, classify_failure, parse_user_limit, removed, succeeded, upload_id,
    upload_next, upload_users, user_count, user_limit, Call, RoleLogicClient, Upload, UploadEvent,
};
use form_respondent_role::services::sync::{
    after_call, candidates_query, link_sync_next, plan_action, player_sync_next,
    remove_all_assignments, sum_up_calls, sync_for_player, sync_for_role_link, unlinking_next,
    FollowUp, LinkAnswer, LinkRow, LinkSync, PlayerAnswer, PlayerSync, RoleAction, RoleLink,
    StoredResponse, UnlinkAnswer, Unlinking,
};

fn value_of(v: &serde_json::Value) -> Value {
    match v {
        serde_json::Value::Null => Value::Null,
        serde_json::Value::Bool(b) => Value::Bool(*b),
        serde_json::Value::Number(n) => {
            if let Some(u) = n.as_u64() {
                Value::Number(Number::PosInt(u))
            } else if let Some(i) = n.as_i64() {
                Value::Number(Number::NegInt(i))
            } else {
                let f = n.as_f64().unwrap();
                Value::Number(Number::Float { number: real_of(f), json: n.to_string() })
            }
        }
        serde_json::Value::String(s) => Value::String(s.clone()),
        serde_json::Value::Array(a) => Value::Array(a.iter().map(value_of).collect()),
        serde_json::Value::Object(o) => {
            Value::Object(o.iter().map(|(k, x)| (k.clone(), value_of(x))).collect())
        }
    }
}

/// The value of a JSON text.
fn js(text: &str) -> Value {
    value_of(&serde_json::from_str::<serde_json::Value>(text).unwrap())
}

fn real_of(f: f64) -> Real {
    Real { value: Double { bits: f.to_bits() }, display: f.to_string() }
}

fn s(x: &str) -> String {
    x.to_string()
}

// ---------- RoleLogic ----------

#[test]
fn limits_are_read_from_both_shapes() {
    assert_eq!(parse_user_limit(r#"{"data":{"user_limit":250}}"#), Some(250));
    assert_eq!(
        parse_user_limit(r#"{"errors":"Maximum 100 users per role link on this plan"}"#),
        Some(100)
    );
    assert_eq!(parse_user_limit("Maximum patience"), None);
    assert_eq!(parse_user_limit("Maximum 7 apples"), None);
    assert_eq!(parse_user_limit("Maximum x users per role link"), None);
    assert_eq!(parse_user_limit(""), None);
}

#[test]
fn addresses_have_no_doubled_slash() {
    let c = RoleLogicClient::new("https://api.test//");
    assert_eq!(c.base_url, "https://api.test");
    let users = c.users_url("1", "2");
    assert!(users.starts_with("https://api.test/"), "{users}");
    assert!(c.user_url("1", "2", "3").starts_with(&users));
    assert!(c.commit_url("1", "2", "u").contains("u"));
    assert_eq!(authorization("tok"), "Token tok");
}

#[test]
fn refusals_are_told_apart() {
    let f = |status: u16, body: &str| classify_failure(Call::AddUser, status, "403 Forbidden", body);
    assert_eq!(f(403, "Invalid or revoked token"), AppError::RoleLinkNotFound);
    assert_eq!(f(403, "This role link is disabled"), AppError::RoleLinkDisabled);
    assert_eq!(
        f(403, "Maximum 5 users per role link"),
        AppError::UserLimitReached { limit: 5 }
    );
    assert_eq!(
        classify_failure(Call::AddUser, 500, "500 Internal Server Error", "oops"),
        AppError::RoleLogic(s("Add user failed: 500 Internal Server Error - oops"))
    );
    assert!(succeeded(200) && succeeded(299) && !succeeded(300) && !succeeded(199));
}

#[test]
fn replies_are_read_with_defaults() {
    assert!(added(&js(r#"{"data": {"added": true}}"#)));
    assert!(!added(&js("{}")));
    assert!(removed(&js(r#"{"data": {"removed": true}}"#)));
    assert_eq!(user_count(&js(r#"{"data": {"user_count": 12}}"#)), 12);
    assert_eq!(user_count(&js(r#"{"data": {}}"#)), 0);
    assert_eq!(upload_id(&js(r#"{"data": {"upload_id": "u1"}}"#)), Ok(s("u1")));
    assert!(upload_id(&js("{}")).is_err());
}

#[test]
fn small_sets_go_in_one_request() {
    assert_eq!(upload_users(100_000), Upload::Replace);
    let done = upload_next(Upload::Replace, UploadEvent::Replaced(Ok(3)), 100_000);
    assert_eq!(done, Upload::Done(Ok(3)));
}

#[test]
fn large_sets_go_in_chunks() {
    let total = 250_000;
    let mut at = upload_users(total);
    assert_eq!(at, Upload::Start);
    at = upload_next(at, UploadEvent::Started(Ok(s("u"))), total);
    let mut spans = vec![];
    while let Upload::Chunk { from, to, .. } = at {
        spans.push((from, to));
        at = upload_next(at, UploadEvent::Sent(Ok(())), total);
    }
    assert_eq!(spans, vec![(0, 100_000), (100_000, 200_000), (200_000, 250_000)]);
    assert_eq!(at, Upload::Commit { upload_id: s("u") });
    at = upload_next(at, UploadEvent::Committed(Ok(250_000)), total);
    assert_eq!(at, Upload::Done(Ok(250_000)));
}

#[test]
fn failed_chunks_cancel_the_upload() {
    let total = 150_000;
    let mut at = upload_next(upload_users(total), UploadEvent::Started(Ok(s("u"))), total);
    at = upload_next(at, UploadEvent::Sent(Err(AppError::RoleLinkDisabled)), total);
    assert_eq!(at, Upload::Cancel { upload_id: s("u"), error: AppError::RoleLinkDisabled });
    at = upload_next(at, UploadEvent::Cancelled, total);
    assert_eq!(at, Upload::Done(Err(AppError::RoleLinkDisabled)));
}

// ---------- Auth Gateway ----------

#[test]
fn gateway_requests_name_the_plugin() {
    assert_eq!(
        Endpoint::UserGuildIds.url("http://gw"),
        "http://gw/auth/internal/user_guild_ids"
    );
    assert_eq!(
        Endpoint::UserGuildIds.query("42"),
        vec![(s("discord_id"), s("42")), (s("plugin"), s("form-respondent-role"))]
    );
    assert_eq!(Endpoint::GuildMemberIds.query("7"), vec![(s("guild_id"), s("7"))]);
}

#[test]
fn gateway_failures_are_internal_errors() {
    let e = Endpoint::GuildOptoutIds;
    assert_eq!(read_reply(e, GatewayReply::Read(5)), Ok(5));
    assert_eq!(
        read_reply::<u8>(
            e,
            GatewayReply::Refused { status_text: s("503 Service Unavailable"), body: s("down") }
        ),
        Err(AppError::Internal(s(
            "auth_gateway guild_optout_ids returned 503 Service Unavailable: down"
        )))
    );
    assert_eq!(
        read_reply::<u8>(e, GatewayReply::NoReply { error: s("timeout") }),
        Err(AppError::Internal(s("auth_gateway request failed: timeout")))
    );
    assert_eq!(
        read_reply::<u8>(e, GatewayReply::Unreadable { error: s("eof") }),
        Err(AppError::Internal(s("auth_gateway response not JSON: eof")))
    );
    assert_eq!(known_name(Some(s(""))), None);
    assert_eq!(known_name(Some(s("Guild"))), Some(s("Guild")));
}

// ---------- one member ----------

fn link(role: &str, any: bool, conditions: Vec<Condition>) -> RoleLink {
    RoleLink {
        guild_id: s("g"),
        role_id: s(role),
        api_token: s("t"),
        form_id: s("f"),
        grant_on_any_submission: any,
        conditions,
    }
}

fn response(answers: &str, total_score: Option<i32>) -> StoredResponse {
    StoredResponse { answers: js(answers), total_score, numbers: NumberTable::new() }
}

fn eq(question_id: &str, value: &str) -> Condition {
    Condition {
        target: ConditionTarget::Question { question_id: s(question_id) },
        operator: ConditionOperator::Eq,
        value: Value::String(s(value)),
        value_end: None,
    }
}

#[test]
fn roles_follow_the_response() {
    let l = link("r", false, vec![eq("q", "yes")]);
    let yes = Some(response(r#"{"q": "yes"}"#, None));
    let no = Some(response(r#"{"q": "no"}"#, None));
    let has = vec![(s("g"), s("r"))];
    let add = RoleAction::Add { guild_id: s("g"), role_id: s("r"), api_token: s("t") };
    let remove = RoleAction::Remove { guild_id: s("g"), role_id: s("r"), api_token: s("t") };
    assert_eq!(plan_action(&l, &yes, &vec![]), Some(add));
    assert_eq!(plan_action(&l, &yes, &has), None);
    assert_eq!(plan_action(&l, &no, &vec![]), None);
    assert_eq!(plan_action(&l, &no, &has), Some(remove));
    let remove = RoleAction::Remove { guild_id: s("g"), role_id: s("r"), api_token: s("t") };
    assert_eq!(plan_action(&l, &None, &has), Some(remove));
}

#[test]
fn a_member_is_synced_over_all_links() {
    let mut at = sync_for_player();
    at = player_sync_next(at, PlayerAnswer::Guilds(Ok(vec![s("g")])), "42");
    at = player_sync_next(
        at,
        PlayerAnswer::RespondentGuilds(Ok(vec![s("g"), s("h"), s("i")])),
        "42",
    );
    // The gateway does not know h and i: their opt-outs are asked for.
    assert!(matches!(at, PlayerSync::FetchOptouts { at: 0, .. }));
    at = player_sync_next(at, PlayerAnswer::Optouts(Ok(vec![s("42")])), "42");
    at = player_sync_next(at, PlayerAnswer::Optouts(Ok(vec![s("43")])), "42");
    match &at {
        PlayerSync::LoadLinks { guilds } => assert_eq!(guilds, &vec![s("g"), s("i")]),
        other => panic!("unexpected {other:?}"),
    }
    let links = vec![link("any", true, vec![]), link("none", false, vec![])];
    at = player_sync_next(at, PlayerAnswer::Links(Ok(links)), "42");
    at = player_sync_next(at, PlayerAnswer::Assignments(Ok(vec![(s("g"), s("none"))])), "42");
    at = player_sync_next(at, PlayerAnswer::Response(Ok(Some(response("{}", None)))), "42");
    at = player_sync_next(at, PlayerAnswer::Response(Ok(Some(response("{}", None)))), "42");
    match &at {
        PlayerSync::Apply { actions } => assert_eq!(
            actions,
            &vec![
                RoleAction::Add { guild_id: s("g"), role_id: s("any"), api_token: s("t") },
                RoleAction::Remove { guild_id: s("g"), role_id: s("none"), api_token: s("t") },
            ]
        ),
        other => panic!("unexpected {other:?}"),
    }
    at = player_sync_next(at, PlayerAnswer::Applied(Ok(())), "42");
    assert!(matches!(at, PlayerSync::Done(Ok(()))));
}

#[test]
fn a_failed_lookup_ends_the_sync_of_a_member() {
    let at = player_sync_next(
        sync_for_player(),
        PlayerAnswer::Guilds(Err(AppError::Internal(s("down")))),
        "42",
    );
    assert!(matches!(at, PlayerSync::Done(Err(AppError::Internal(_)))));
}

#[test]
fn links_that_are_gone_are_dropped() {
    assert_eq!(after_call(&Ok(true)), FollowUp::Record);
    assert_eq!(after_call(&Err(AppError::RoleLinkNotFound)), FollowUp::DropLink);
    assert_eq!(after_call(&Err(AppError::RoleLinkDisabled)), FollowUp::Nothing);
}

#[test]
fn a_failed_call_is_what_the_sync_ends_in() {
    let down = || AppError::RoleLogic(s("Add user failed: 503"));
    assert_eq!(after_call(&Err(down())), FollowUp::Nothing);
    let results = vec![
        Ok(true),
        Err(AppError::UserLimitReached { limit: 3 }),
        Err(AppError::RoleLinkDisabled),
        Err(AppError::RoleLinkNotFound),
        Err(down()),
        Err(AppError::Internal(s("later"))),
    ];
    assert_eq!(sum_up_calls(results), Err(down()));
    let actions = vec![RoleAction::Add { guild_id: s("g"), role_id: s("r"), api_token: s("t") }];
    let at = player_sync_next(
        PlayerSync::Apply { actions },
        PlayerAnswer::Applied(sum_up_calls(vec![Err(down())])),
        "42",
    );
    match at {
        PlayerSync::Done(Err(e)) => assert_eq!(e, down()),
        other => panic!("unexpected {other:?}"),
    }
}

#[test]
fn hopeless_calls_do_not_fail_a_sync() {
    assert_eq!(sum_up_calls(vec![]), Ok(()));
    assert_eq!(sum_up_calls(vec![Ok(false), Err(AppError::RoleLinkNotFound)]), Ok(()));
    assert_eq!(sum_up_calls(vec![Err(AppError::UserLimitReached { limit: 1 })]), Ok(()));
}

#[test]
fn unlinking_goes_through_all_roles() {
    assert_eq!(remove_all_assignments(0), Unlinking::ClearAssignments);
    let mut at = remove_all_assignments(2);
    assert_eq!(at, Unlinking::RemoveAt { at: 0, failed: None });
    at = unlinking_next(at, UnlinkAnswer::Removed(Err(AppError::RoleLinkNotFound)), 2);
    assert_eq!(at, Unlinking::DropAt { at: 0, failed: None });
    at = unlinking_next(at, UnlinkAnswer::Dropped, 2);
    assert_eq!(at, Unlinking::RemoveAt { at: 1, failed: None });
    at = unlinking_next(at, UnlinkAnswer::Removed(Err(AppError::RoleLinkDisabled)), 2);
    assert_eq!(at, Unlinking::ClearAssignments);
    at = unlinking_next(at, UnlinkAnswer::Cleared(Ok(())), 2);
    assert_eq!(at, Unlinking::Done(Ok(())));
}

#[test]
fn unlinking_forgets_no_role_that_stays() {
    let down = || AppError::RoleLogic(s("Remove user failed: 503"));
    let mut at = remove_all_assignments(2);
    at = unlinking_next(at, UnlinkAnswer::Removed(Err(down())), 2);
    assert_eq!(at, Unlinking::RemoveAt { at: 1, failed: Some(down()) });
    at = unlinking_next(at, UnlinkAnswer::Removed(Ok(true)), 2);
    assert_eq!(at, Unlinking::Done(Err(down())));
}

#[test]
fn the_user_limit_is_never_made_up() {
    assert_eq!(user_limit(&js(r#"{"data": {"user_limit": 250}}"#)), Ok(250));
    let missing = AppError::RoleLogic(s("User info response missing user_limit"));
    assert_eq!(user_limit(&js(r#"{"data": {}}"#)), Err(missing));
    assert_eq!(
        classify_failure(Call::UserInfo, 500, "500 Internal Server Error", "oops"),
        AppError::RoleLogic(s("Get user info failed: 500 Internal Server Error - oops"))
    );
    assert_eq!(
        classify_failure(Call::UserInfo, 403, "403 Forbidden", "Invalid or revoked token"),
        AppError::RoleLinkNotFound
    );
}

// ---------- one role link ----------

fn row(any: bool, conditions: Vec<Condition>) -> LinkRow {
    LinkRow { api_token: s("t"), form_id: Some(s("f")), grant_on_any_submission: any, conditions }
}

#[test]
fn candidates_are_limited_last() {
    let (sql, binds) = candidates_query(&vec![eq("q", "yes")]);
    assert_eq!(
        sql,
        "SELECT DISTINCT fr.discord_id FROM form_responses fr WHERE fr.form_id = $1 \
         AND fr.discord_id <> '' AND fr.discord_id <> ALL($2::text[]) \
         AND ((fr.answers ->> $3) = $4) ORDER BY fr.discord_id LIMIT $5"
    );
    assert_eq!(binds, vec![ConditionBind::Text(s("q")), ConditionBind::Text(s("yes"))]);
}

#[test]
fn a_role_link_is_rebuilt() {
    let mut at = sync_for_role_link();
    at = link_sync_next(at, LinkAnswer::Link(Ok(Some(row(true, vec![])))));
    assert!(matches!(at, LinkSync::FetchOptouts { .. }));
    at = link_sync_next(at, LinkAnswer::Optouts(Ok(vec![s("9")])));
    at = link_sync_next(at, LinkAnswer::Limit(Ok(100)));
    match &at {
        LinkSync::Query { optouts, limit, .. } => {
            assert_eq!(optouts, &vec![s("9")]);
            assert_eq!(*limit, 100);
        }
        other => panic!("unexpected {other:?}"),
    }
    at = link_sync_next(at, LinkAnswer::Found(Ok(vec![s("1"), s("2")])));
    at = link_sync_next(at, LinkAnswer::Uploaded(Ok(2)));
    assert_eq!(at, LinkSync::StoreAssignments { ids: vec![s("1"), s("2")] });
    at = link_sync_next(at, LinkAnswer::Stored(Ok(())));
    assert_eq!(at, LinkSync::Done(Ok(())));
}

#[test]
fn an_unconfigured_link_is_drained() {
    let mut at = link_sync_next(
        sync_for_role_link(),
        LinkAnswer::Link(Ok(Some(row(false, vec![])))),
    );
    assert!(matches!(at, LinkSync::Drain { .. }));
    at = link_sync_next(at, LinkAnswer::Uploaded(Ok(0)));
    assert_eq!(at, LinkSync::ClearAssignments);
    assert_eq!(link_sync_next(at, LinkAnswer::Cleared(Ok(()))), LinkSync::Done(Ok(())));
}

#[test]
fn links_without_a_form_are_left_alone() {
    let mut unbound = row(true, vec![]);
    unbound.form_id = None;
    let at = link_sync_next(sync_for_role_link(), LinkAnswer::Link(Ok(Some(unbound))));
    assert_eq!(at, LinkSync::Done(Ok(())));
    let at = link_sync_next(sync_for_role_link(), LinkAnswer::Link(Ok(None)));
    assert_eq!(at, LinkSync::Done(Ok(())));
}

#[test]
fn refused_links_are_dropped_skipped_or_retried() {
    for (e, expected) in [
        (AppError::RoleLinkNotFound, LinkSync::DropLink),
        (AppError::RoleLinkDisabled, LinkSync::Done(Ok(()))),
        (AppError::RoleLogic(s("x")), LinkSync::Done(Err(AppError::RoleLogic(s("x"))))),
    ] {
        let at = link_sync_next(
            sync_for_role_link(),
            LinkAnswer::Link(Ok(Some(row(false, vec![])))),
        );
        assert_eq!(link_sync_next(at, LinkAnswer::Uploaded(Err(e))), expected);
    }
}

#[test]
fn an_open_link_is_not_filtered() {
    let mut at = sync_for_role_link();
    at = link_sync_next(at, LinkAnswer::Link(Ok(Some(row(true, vec![eq("q", "yes")])))));
    at = link_sync_next(at, LinkAnswer::Optouts(Ok(vec![])));
    at = link_sync_next(at, LinkAnswer::Limit(Ok(10)));
    match at {
        LinkSync::Query { sql, binds, .. } => {
            assert_eq!(sql, candidates_query(&vec![]).0);
            assert!(sql.contains("AND (TRUE)"));
            assert!(binds.is_empty());
        }
        other => panic!("unexpected {other:?}"),
    }
}
