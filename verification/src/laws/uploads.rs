//! What calls to the role API are for: a whole user set arrives, and a refusal is taken
//! for what it is.

use vstd::prelude::*;

use crate::error::Failure;
use crate::services::rolelogic;
use crate::services::rolelogic::{Call, Report, Transfer};

verus! {

/// A reply that refuses a call. A link is gone or switched off just where the status is
/// 403, the text says so, and the call is one of those whose refusal tells it; a limit is
/// reached just where a call that adds users is refused with 400 or 403 and a limit, and
/// the link is neither gone nor off; and every other refusal is reported as it came.
pub proof fn law_refusals_are_told_apart(
    call: Call,
    status: u16,
    status_text: Seq<char>,
    body: Seq<char>,
)
    ensures
        ({
            let e = rolelogic::call_failure(call, status, status_text, body);
            let inside_upload = call is UploadChunk || call is CommitUpload || call is CancelUpload;
            let gone = !inside_upload && status == 403 && crate::text::has_text(
                body,
                "Invalid or revoked token"@,
            );
            let off = !inside_upload && status == 403 && crate::text::has_text(
                body,
                "This role link is disabled"@,
            );
            let limit = rolelogic::user_limit_in(body);
            let full = (call is AddUser || call is ReplaceUsers) && (status == 400 || status == 403)
                && limit is Some;
            &&& e is RoleLinkNotFound <==> gone
            &&& e is RoleLinkDisabled <==> off && !gone
            &&& e is UserLimitReached <==> full && !gone && !off
            &&& e is UserLimitReached ==> e == Failure::UserLimitReached { limit: limit->0 }
            &&& e is RoleLogic <==> !gone && !off && !full
        }),
{
}

/// The limit of a refusal is the one in its data, and otherwise the number after the word
/// for the largest.
pub proof fn law_limits_are_read_from_refusals(body: Seq<char>)
    ensures
        ({
            let given = crate::outside::json_number_at(body, "data"@, "user_limit"@);
            &&& given is Some ==> rolelogic::user_limit_in(body) == Some(given->0 as usize)
            &&& given is None ==> rolelogic::user_limit_in(body) == rolelogic::limit_in_words(body)
        }),
{
}

/// What a text starts with, as far as it is digits.
pub proof fn law_digits_are_read_to_their_end(digits: Seq<char>, rest: Seq<char>)
    requires
        forall|i: int| 0 <= i < digits.len() ==> '0' <= #[trigger] digits[i] <= '9',
        rest.len() > 0 ==> !('0' <= rest[0] <= '9'),
    ensures
        rolelogic::leading_digits(digits + rest) == digits,
    decreases digits.len(),
{
    let s = digits + rest;
    if digits.len() == 0 {
        assert(s =~= rest);
    } else {
        assert(s[0] == digits[0]);
        assert(s.skip(1) =~= digits.skip(1) + rest);
        assert forall|i: int| 0 <= i < digits.skip(1).len() implies '0' <= #[trigger] digits.skip(
            1,
        )[i] <= '9' by {
            assert(digits.skip(1)[i] == digits[i + 1]);
        }
        law_digits_are_read_to_their_end(digits.skip(1), rest);
        assert(seq![s[0]] + digits.skip(1) =~= digits);
    }
}

/// A refusal in words tells its limit: the digits behind the word for the largest, where
/// it goes on to speak of users.
pub proof fn law_limits_are_told_in_words(
    before: Seq<char>,
    digits: Seq<char>,
    after: Seq<char>,
)
    requires
        !before.contains('M'),
        !after.contains('M'),
        crate::numerals::all_digits(digits),
        after.len() > 0 ==> !('0' <= after[0] <= '9'),
    ensures
        ({
            let body = before + "Maximum "@ + (digits + after);
            let n = crate::numerals::digits_value(digits);
            let r = rolelogic::limit_in_words(body);
            &&& r is Some <==> crate::text::has_text(digits + after, "users per role link"@) && n
                <= usize::MAX
            &&& r is Some ==> r->0 == n
        }),
        rolelogic::limit_in_words(before) is None,
{
    reveal_strlit("Maximum ");
    let word = "Maximum "@;
    assert(word.len() == 8 && word[0] == 'M');
    let rest = digits + after;
    assert(!rest.contains('M')) by {
        if rest.contains('M') {
            let i = choose|i: int| 0 <= i < rest.len() && rest[i] == 'M';
            if i < digits.len() {
                assert(crate::numerals::is_digit(digits[i]));
            } else {
                assert(after[i - digits.len()] == 'M');
            }
        }
    }
    crate::text::lemma_split_without(before, word);
    crate::text::lemma_split_without(rest, word);
    crate::text::lemma_split_after(before, word, rest);
    let parts = crate::text::split_parts(before + word + rest, word);
    assert(parts =~= seq![before, rest]);
    assert forall|i: int| 0 <= i < digits.len() implies '0' <= #[trigger] digits[i] <= '9' by {
        assert(crate::numerals::is_digit(digits[i]));
    }
    law_digits_are_read_to_their_end(digits, after);
}

/// A request succeeded just where its status is one of the 200s.
pub proof fn law_success_is_a_status_of_the_200s(status: u16)
    ensures
        rolelogic::is_success(status) <==> status as int / 100 == 2,
{
}

/// Up to 100 000 users are sent in one request, and its outcome is that of the upload.
pub proof fn law_small_sets_are_sent_at_once(total: nat, r: Result<usize, Failure>)
    ensures
        rolelogic::first_transfer(total) is Replace <==> total <= 100_000,
        rolelogic::first_transfer(total) is Start <==> total > 100_000,
        rolelogic::next_transfer(Transfer::Replace, Report::Replaced(r), total) == Transfer::Done(r),
{
}

/// Where an upload is after so many chunks have arrived.
pub open spec fn after_chunks(upload_id: Seq<char>, chunks: nat, total: nat) -> Transfer
    decreases chunks,
{
    if chunks == 0 {
        rolelogic::next_transfer(Transfer::Start, Report::Started(Ok(upload_id)), total)
    } else {
        rolelogic::next_transfer(
            after_chunks(upload_id, (chunks - 1) as nat, total),
            Report::Sent(Ok(())),
            total,
        )
    }
}

/// A large set is sent in chunks of 100 000, each from where the last one ended, the last
/// one up to the end; only after it the upload is committed, and what the commit reports
/// is what the upload does.
pub proof fn law_large_sets_are_sent_to_the_end(
    upload_id: Seq<char>,
    chunks: nat,
    total: nat,
    e: Failure,
    r: Result<usize, Failure>,
)
    requires
        total > 0,
    ensures
        ({
            let at = after_chunks(upload_id, chunks, total);
            let sent: int = chunks as int * 100_000;
            let end = if sent + 100_000 < total {
                sent + 100_000
            } else {
                total as int
            };
            &&& sent < total ==> at == (Transfer::Chunk {
                upload_id,
                from: sent as nat,
                to: end as nat,
            })
            &&& sent >= total ==> at == Transfer::Commit(upload_id)
            &&& sent < total ==> rolelogic::next_transfer(at, Report::Sent(Err(e)), total)
                == Transfer::Cancel(upload_id, e)
        }),
        rolelogic::next_transfer(Transfer::Commit(upload_id), Report::Committed(r), total)
            == Transfer::Done(r),
        rolelogic::next_transfer(Transfer::Cancel(upload_id, e), Report::Cancelled, total)
            == Transfer::Done(Err(e)),
        rolelogic::next_transfer(Transfer::Start, Report::Started(Err(e)), total) == Transfer::Done(
            Err(e),
        ),
    decreases chunks,
{
    if chunks > 0 {
        law_large_sets_are_sent_to_the_end(upload_id, (chunks - 1) as nat, total, e, r);
    }
}

} // verus!
