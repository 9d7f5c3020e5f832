//! The HTML pages, as fixed texts with places for what varies. What is put in is
//! escaped by the callers where it needs to be.

use vstd::prelude::*;

use crate::text::owned;

verus! {

// The page that asks a member to sign in before a form is shown.

pub const FORM_SIGNIN_0: &'static str = r##"<!DOCTYPE html>
<html><head>
<meta charset="utf-8">
<meta name="viewport" content="width=device-width, initial-scale=1">
<title>"##;

pub const FORM_SIGNIN_1: &'static str = r##"</title>
<link rel="icon" href=""##;

pub const FORM_SIGNIN_2: &'static str = r##"/favicon.ico" type="image/x-icon">
<meta property="og:title" content=""##;

pub const FORM_SIGNIN_3: &'static str = r##"">
<meta property="og:description" content=""##;

pub const FORM_SIGNIN_4: &'static str = r##"">
<meta property="og:url" content=""##;

pub const FORM_SIGNIN_5: &'static str = r##"/f/"##;

pub const FORM_SIGNIN_6: &'static str = r##"">
<meta property="og:type" content="website">
<meta name="theme-color" content="#7c3aed">
<style>
* { box-sizing: border-box; margin: 0; padding: 0; }
body { font-family: system-ui, -apple-system, sans-serif; max-width: 640px; margin: 0 auto; padding: 48px 20px; background: #0e1525; color: #c8ccd4; min-height: 100vh; }
h1 { color: #a78bfa; font-size: 28px; margin-bottom: 12px; }
p { line-height: 1.55; margin: 12px 0; color: #94a3b8; }
.card { background: #161d2e; padding: 28px; border-radius: 12px; border: 1px solid #1e2a3d; margin: 24px 0; }
.btn { display: inline-block; padding: 12px 24px; background: #5865f2; color: white; text-decoration: none; border-radius: 8px; font-weight: 600; font-size: 15px; }
.btn:hover { background: #4752c4; }
</style>
</head><body>
<h1>"##;

pub const FORM_SIGNIN_7: &'static str = r##"</h1>
"##;

pub const FORM_SIGNIN_8: &'static str = r##"
<div class="card">
<p>You need to sign in with Discord to fill out this form.</p>
<p style="margin-top: 16px;"><a class="btn" href="/auth/login?return_to="##;

pub const FORM_SIGNIN_9: &'static str = r##"">Sign in with Discord</a></p>
</div>
</body></html>"##;

/// The page that asks a member to sign in before a form is shown.
pub open spec fn form_signin_page(
    title: Seq<char>,
    base_url: Seq<char>,
    description: Seq<char>,
    slug: Seq<char>,
    desc_block: Seq<char>,
    return_to: Seq<char>,
) -> Seq<char> {
    FORM_SIGNIN_0@ + title + FORM_SIGNIN_1@ + base_url + FORM_SIGNIN_2@ + title + FORM_SIGNIN_3@
        + description + FORM_SIGNIN_4@ + base_url + FORM_SIGNIN_5@ + slug + FORM_SIGNIN_6@
        + title + FORM_SIGNIN_7@ + desc_block + FORM_SIGNIN_8@ + return_to + FORM_SIGNIN_9@
}

/// The page that asks a member to sign in before a form is shown.
pub fn render_form_signin(
    title: &str,
    base_url: &str,
    description: &str,
    slug: &str,
    desc_block: &str,
    return_to: &str,
) -> (r: String)
    ensures
        r@ == form_signin_page(title@, base_url@, description@, slug@, desc_block@, return_to@),
{
    let mut s: String = owned(FORM_SIGNIN_0);
    s.append(title);
    s.append(FORM_SIGNIN_1);
    s.append(base_url);
    s.append(FORM_SIGNIN_2);
    s.append(title);
    s.append(FORM_SIGNIN_3);
    s.append(description);
    s.append(FORM_SIGNIN_4);
    s.append(base_url);
    s.append(FORM_SIGNIN_5);
    s.append(slug);
    s.append(FORM_SIGNIN_6);
    s.append(title);
    s.append(FORM_SIGNIN_7);
    s.append(desc_block);
    s.append(FORM_SIGNIN_8);
    s.append(return_to);
    s.append(FORM_SIGNIN_9);
    s
}

// The page that tells a member why a form is not shown.

pub const STATUS_0: &'static str = r##"<!DOCTYPE html>
<html><head>
<meta charset="utf-8">
<meta name="viewport" content="width=device-width, initial-scale=1">
<title>"##;

pub const STATUS_1: &'static str = r##"</title>
<link rel="icon" href=""##;

pub const STATUS_2: &'static str = r##"/favicon.ico" type="image/x-icon">
<style>
* { box-sizing: border-box; margin: 0; padding: 0; }
body { font-family: system-ui, sans-serif; max-width: 640px; margin: 0 auto; padding: 48px 20px; background: #0e1525; color: #c8ccd4; min-height: 100vh; }
h1 { color: #a78bfa; font-size: 26px; margin-bottom: 12px; }
.card { background: #161d2e; padding: 28px; border-radius: 12px; border: 1px solid #1e2a3d; margin: 24px 0; }
.card p { color: #cbd5e1; line-height: 1.55; }
</style>
</head><body>
<h1>"##;

pub const STATUS_3: &'static str = r##"</h1>
<div class="card"><p>"##;

pub const STATUS_4: &'static str = r##"</p></div>
</body></html>"##;

/// The page that tells a member why a form is not shown.
pub open spec fn status_page(title: Seq<char>, base_url: Seq<char>, msg: Seq<char>) -> Seq<char> {
    STATUS_0@ + title + STATUS_1@ + base_url + STATUS_2@ + title + STATUS_3@
        + msg + STATUS_4@
}

/// The page that tells a member why a form is not shown.
pub fn render_status(title: &str, base_url: &str, msg: &str) -> (r: String)
    ensures
        r@ == status_page(title@, base_url@, msg@),
{
    let mut s: String = owned(STATUS_0);
    s.append(title);
    s.append(STATUS_1);
    s.append(base_url);
    s.append(STATUS_2);
    s.append(title);
    s.append(STATUS_3);
    s.append(msg);
    s.append(STATUS_4);
    s
}

// The page that asks an admin to sign in.

pub const ADMIN_SIGNIN_0: &'static str = r##"<!DOCTYPE html>
<html><head>
<meta charset="utf-8">
<meta name="viewport" content="width=device-width, initial-scale=1">
<title>Sign in — Form Builder</title>
<link rel="icon" href=""##;

pub const ADMIN_SIGNIN_1: &'static str = r##"/favicon.ico" type="image/x-icon">
<style>
* { box-sizing: border-box; margin: 0; padding: 0; }
body { font-family: system-ui, sans-serif; max-width: 560px; margin: 0 auto; padding: 64px 20px; background: #0e1525; color: #d8dde6; min-height: 100vh; }
h1 { color: #a78bfa; font-size: 26px; margin-bottom: 12px; }
p { color: #94a3b8; line-height: 1.55; margin: 12px 0; }
.card { background: #161d2e; padding: 28px; border-radius: 12px; border: 1px solid #1e2a3d; margin: 24px 0; }
.btn { display: inline-block; padding: 12px 24px; background: #5865f2; color: white; text-decoration: none; border-radius: 8px; font-weight: 600; }
.btn:hover { background: #4752c4; }
</style>
</head><body>
<h1>Form Builder</h1>
<div class="card">
<p>Sign in with Discord to manage forms for this server. You'll need <strong>Manage Server</strong> permission.</p>
<p style="margin-top: 16px;"><a class="btn" id="signin">Sign in with Discord</a></p>
</div>
<script>
const ORIGIN = new URL('"##;

pub const ADMIN_SIGNIN_2: &'static str = r##"').origin;
document.getElementById('signin').href = ORIGIN + '/auth/login?return_to=' + encodeURIComponent(location.pathname);
</script>
</body></html>"##;

/// The page that asks an admin to sign in.
pub open spec fn admin_signin_page(base_url: Seq<char>) -> Seq<char> {
    ADMIN_SIGNIN_0@ + base_url + ADMIN_SIGNIN_1@ + base_url + ADMIN_SIGNIN_2@
}

/// The page that asks an admin to sign in.
pub fn render_admin_signin(base_url: &str) -> (r: String)
    ensures
        r@ == admin_signin_page(base_url@),
{
    let mut s: String = owned(ADMIN_SIGNIN_0);
    s.append(base_url);
    s.append(ADMIN_SIGNIN_1);
    s.append(base_url);
    s.append(ADMIN_SIGNIN_2);
    s
}

// The page that tells an admin why access is denied.

pub const DENIED_0: &'static str = r##"<!DOCTYPE html>
<html><head>
<meta charset="utf-8">
<meta name="viewport" content="width=device-width, initial-scale=1">
<title>Access denied — Form Builder</title>
<link rel="icon" href=""##;

pub const DENIED_1: &'static str = r##"/favicon.ico" type="image/x-icon">
<style>
* { box-sizing: border-box; margin: 0; padding: 0; }
body { font-family: system-ui, sans-serif; max-width: 560px; margin: 0 auto; padding: 64px 20px; background: #0e1525; color: #d8dde6; min-height: 100vh; }
h1 { color: #fca5a5; font-size: 24px; margin-bottom: 12px; }
p { color: #94a3b8; line-height: 1.55; margin: 12px 0; }
.card { background: #161d2e; padding: 28px; border-radius: 12px; border: 1px solid #1e2a3d; margin: 24px 0; }
.btn { display: inline-block; padding: 8px 16px; background: transparent; color: #cbd5e1; border: 1px solid #2a3548; text-decoration: none; border-radius: 6px; font-size: 13px; margin-top: 12px; }
.btn:hover { background: #1e293b; }
</style>
</head><body>
<h1>Can't access this form-builder</h1>
<div class="card"><p>"##;

pub const DENIED_2: &'static str = r##"</p>
<p><a class="btn" id="switch">Sign in with a different account</a></p></div>
<script>
const ORIGIN = new URL('"##;

pub const DENIED_3: &'static str = r##"').origin;
document.getElementById('switch').href = ORIGIN + '/auth/login?return_to=' + encodeURIComponent(location.pathname);
</script>
</body></html>"##;

/// The page that tells an admin why access is denied.
pub open spec fn denied_page(base_url: Seq<char>, msg: Seq<char>) -> Seq<char> {
    DENIED_0@ + base_url + DENIED_1@ + msg + DENIED_2@ + base_url + DENIED_3@
}

/// The page that tells an admin why access is denied.
pub fn render_denied(base_url: &str, msg: &str) -> (r: String)
    ensures
        r@ == denied_page(base_url@, msg@),
{
    let mut s: String = owned(DENIED_0);
    s.append(base_url);
    s.append(DENIED_1);
    s.append(msg);
    s.append(DENIED_2);
    s.append(base_url);
    s.append(DENIED_3);
    s
}

// The page that an embedded view shows when it cannot be loaded.

pub const IFRAME_ERROR_0: &'static str = r##"<!DOCTYPE html>
<html><head>
<meta charset="utf-8">
<meta name="viewport" content="width=device-width, initial-scale=1">
<title>Cannot load configuration</title>
<link rel="icon" href=""##;

pub const IFRAME_ERROR_1: &'static str = r##"/favicon.ico" type="image/x-icon">
<style>
body { font-family: system-ui, sans-serif; background: #0e1525; color: #d8dde6; padding: 32px 24px; line-height: 1.5; }
h1 { color: #fca5a5; font-size: 18px; margin-bottom: 10px; }
p { color: #94a3b8; }
</style>
</head><body>
<h1>Cannot load configuration</h1>
<p>"##;

pub const IFRAME_ERROR_2: &'static str = r##"</p>
</body></html>"##;

/// The page that an embedded view shows when it cannot be loaded.
pub open spec fn iframe_error_page(base_url: Seq<char>, msg: Seq<char>) -> Seq<char> {
    IFRAME_ERROR_0@ + base_url + IFRAME_ERROR_1@ + msg + IFRAME_ERROR_2@
}

/// The page that an embedded view shows when it cannot be loaded.
pub fn render_iframe_failure(base_url: &str, msg: &str) -> (r: String)
    ensures
        r@ == iframe_error_page(base_url@, msg@),
{
    let mut s: String = owned(IFRAME_ERROR_0);
    s.append(base_url);
    s.append(IFRAME_ERROR_1);
    s.append(msg);
    s.append(IFRAME_ERROR_2);
    s
}

// The page that lists the respondents of a guild.

pub const RESPONDENTS_0: &'static str = r##"<!DOCTYPE html>
<html>
<head>
    <meta charset="utf-8">
    <meta name="viewport" content="width=device-width, initial-scale=1">
    <title>Respondents</title>
    <link rel="icon" "##;

pub const RESPONDENTS_1: &'static str = r##"href=""##;

pub const RESPONDENTS_2: &'static str = r##"/favicon.ico""##;

pub const RESPONDENTS_3: &'static str = r##" type="image/x-icon">
    <meta name="theme-color" content="#7c3aed">
    <style>
        * { box-sizing: border-box; margin: 0; padding: 0; }
        body { font-family: system-ui, -apple-system, sans-serif; max-width: 920px; margin: 0 auto; padding: 32px 20px; background: #0e1525; color: #c8ccd4; min-height: 100vh; }
        h1 { color: #a78bfa; font-size: 22px; }
        .card { background: #161d2e; padding: 22px; border-radius: 10px; border: 1px solid #1e2a3d; margin: 14px 0; }
        .msg { padding: 10px 14px; border-radius: 6px; margin: 12px 0; font-size: 13px; line-height: 1.5; }
        .msg-error { background: #1c0a0a; color: #fca5a5; border: 1px solid #7f1d1d; }
        .hidden { display: none !important; }
"##;

pub const RESPONDENTS_4: &'static str = r##"        table { width: 100%; border-collapse: collapse; font-size: 13px; }
        th, td { padding: 8px 12px; text-align: left; }
        th { color: #64748b; font-weight: 600; font-size: 11px; text-transform: uppercase; border-bottom: 2px solid #1e2a3d; }
        td { border-bottom: 1px solid #111827; }
        tr:hover td { background: #1a2236; }
"##;

pub const RESPONDENTS_5: &'static str = r##"        .btn { padding: 6px 14px; border-radius: 6px; border: 1px solid #2a3548; background: #0e1525; color: #c8ccd4; cursor: pointer; font-family: inherit; font-size: 13px; text-decoration: none; display: inline-block; }
        .btn:hover { background: #1e293b; }
        .empty { text-align: center; padding: 32px; color: #64748b; }
"##;

pub const RESPONDENTS_6: &'static str = r##"    </style>
</head>
<body>
    <h1 id="title">Respondents</h1>

    <div id="loading" class="card"><p style="color:#64748b;">Loading...</p></div>
    <div id="error" class="card hidden"></div>
    <div id="content" class="card hidden">
        <table>
            <thead><tr><th>Discord</th><th>Submitted</th><th>Last edited</th></tr></thead>
            <tbody id="rows"></tbody>
        </table>
    </div>

    <script>
    "##;

pub const RESPONDENTS_7: &'static str = r##"const API = '"##;

pub const RESPONDENTS_8: &'static str = r##"';"##;

pub const RESPONDENTS_9: &'static str = r##"
    const ORIGIN = new URL(API).origin;
    const guild = location.pathname.split('/').pop();

    async function load() {
        try {
            const res = await fetch(API + '/respondents/' + guild + '/data', { credentials: 'include' });
            const data = await res.json();
            if (!res.ok) {
                showError(data.error || 'HTTP ' + res.status);
                return;
            }
            document.getElementById('title').textContent = 'Respondents — ' + (data.guild_name || guild);
"##;

pub const RESPONDENTS_10: &'static str = r##"            const tbody = document.getElementById('rows');
            if (!data.respondents.length) {
                document.getElementById('content').innerHTML = '<div class="empty">No respondents yet.</div>';
            } else {
                tbody.innerHTML = data.respondents.map(r =>
                    '<tr><td>' + escapeHtml(r.discord_id) + '</td><td>' + escapeHtml(r.submitted_at) + '</td><td>' + escapeHtml(r.last_edited_at) + '</td></tr>'
                ).join('');
            }
"##;

pub const RESPONDENTS_11: &'static str = r##"            document.getElementById('loading').classList.add('hidden');
            document.getElementById('content').classList.remove('hidden');
        } catch (e) {
            showError(e.message);
        }
    }

"##;

pub const RESPONDENTS_12: &'static str = r##"    function showError(msg) {
        const el = document.getElementById('error');
        const loginUrl = ORIGIN + '/auth/login?return_to=' + encodeURIComponent(location.pathname);
        el.innerHTML = '<div class="msg msg-error">' + escapeHtml(msg) + '</div><a class="btn" href="' + loginUrl + '">Sign in with Discord</a>';
        document.getElementById('loading').classList.add('hidden');
        el.classList.remove('hidden');
    }

"##;

pub const RESPONDENTS_13: &'static str = r##"    function escapeHtml(s) {
        return String(s == null ? '' : s).replace(/[&<>"']/g, c => ({
            '&': '&amp;', '<': '&lt;', '>': '&gt;', '"': '&quot;', "'": '&#39;'
        })[c]);
    }

    load();
    </script>
</body>
</html>"##;

/// What stands before the first address in the page that lists the respondents.
pub open spec fn respondents_start() -> Seq<char> {
    RESPONDENTS_0@ + RESPONDENTS_1@
}

/// What stands between the two addresses.
pub open spec fn respondents_middle() -> Seq<char> {
    RESPONDENTS_2@ + RESPONDENTS_3@ + RESPONDENTS_4@ + RESPONDENTS_5@
        + RESPONDENTS_6@ + RESPONDENTS_7@
}

/// What stands after the second address.
pub open spec fn respondents_end() -> Seq<char> {
    RESPONDENTS_8@ + RESPONDENTS_9@ + RESPONDENTS_10@ + RESPONDENTS_11@
        + RESPONDENTS_12@ + RESPONDENTS_13@
}

/// The page that lists the respondents of a guild.
pub open spec fn respondents_page(base_url: Seq<char>) -> Seq<char> {
    respondents_start() + base_url + respondents_middle() + base_url + respondents_end()
}

/// The page that lists the respondents of a guild.
pub fn render_respondents(base_url: &str) -> (r: String)
    ensures
        r@ == respondents_page(base_url@),
{
    let mut s: String = owned(RESPONDENTS_0);
    s.append(RESPONDENTS_1);
    s.append(base_url);
    s.append(RESPONDENTS_2);
    s.append(RESPONDENTS_3);
    s.append(RESPONDENTS_4);
    s.append(RESPONDENTS_5);
    s.append(RESPONDENTS_6);
    s.append(RESPONDENTS_7);
    s.append(base_url);
    s.append(RESPONDENTS_8);
    s.append(RESPONDENTS_9);
    s.append(RESPONDENTS_10);
    s.append(RESPONDENTS_11);
    s.append(RESPONDENTS_12);
    s.append(RESPONDENTS_13);
    assert(s@ =~= respondents_page(base_url@));
    s
}

// ---------------------------------------------------------------------------
// A character that no fixed part of the respondents page holds
// ---------------------------------------------------------------------------

/// Whether none of the characters from `low` up to `high` is `c`.
spec fn free_between(s: Seq<char>, c: char, low: int, high: int) -> bool
    decreases high - low,
{
    if high <= low {
        true
    } else if high == low + 1 {
        s[low] != c
    } else {
        let middle = (low + high) / 2;
        free_between(s, c, low, middle) && free_between(s, c, middle, high)
    }
}

proof fn lemma_free_between(s: Seq<char>, c: char, low: int, high: int)
    requires
        free_between(s, c, low, high),
    ensures
        forall|i: int| low <= i < high ==> #[trigger] s[i] != c,
    decreases high - low,
{
    if high > low + 1 {
        let middle = (low + high) / 2;
        lemma_free_between(s, c, low, middle);
        lemma_free_between(s, c, middle, high);
    }
}

proof fn lemma_respondents_0()
    ensures
        !RESPONDENTS_0@.contains('@'),
{
    reveal_strlit(
        r##"<!DOCTYPE html>
<html>
<head>
    <meta charset="utf-8">
    <meta name="viewport" content="width=device-width, initial-scale=1">
    <title>Respondents</title>
    <link rel="icon" "##,
    );
    let size: int = 182;
    assert(RESPONDENTS_0@.len() == size);
    assert(free_between(RESPONDENTS_0@, '@', 0, 182)) by {
        reveal_with_fuel(free_between, 10);
    }
    lemma_free_between(RESPONDENTS_0@, '@', 0, size);
}

proof fn lemma_respondents_1()
    ensures
        !RESPONDENTS_1@.contains('@'),
{
    reveal_strlit(
        r##"href=""##,
    );
    let size: int = 6;
    assert(RESPONDENTS_1@.len() == size);
    assert(free_between(RESPONDENTS_1@, '@', 0, 6)) by {
        reveal_with_fuel(free_between, 5);
    }
    lemma_free_between(RESPONDENTS_1@, '@', 0, size);
}

proof fn lemma_respondents_2()
    ensures
        !RESPONDENTS_2@.contains('@'),
{
    reveal_strlit(
        r##"/favicon.ico""##,
    );
    let size: int = 13;
    assert(RESPONDENTS_2@.len() == size);
    assert(free_between(RESPONDENTS_2@, '@', 0, 13)) by {
        reveal_with_fuel(free_between, 6);
    }
    lemma_free_between(RESPONDENTS_2@, '@', 0, size);
}

#[verifier::rlimit(30)]
proof fn lemma_respondents_3()
    ensures
        !RESPONDENTS_3@.contains('@'),
{
    reveal_strlit(
        r##" type="image/x-icon">
    <meta name="theme-color" content="#7c3aed">
    <style>
        * { box-sizing: border-box; margin: 0; padding: 0; }
        body { font-family: system-ui, -apple-system, sans-serif; max-width: 920px; margin: 0 auto; padding: 32px 20px; background: #0e1525; color: #c8ccd4; min-height: 100vh; }
        h1 { color: #a78bfa; font-size: 22px; }
        .card { background: #161d2e; padding: 22px; border-radius: 10px; border: 1px solid #1e2a3d; margin: 14px 0; }
        .msg { padding: 10px 14px; border-radius: 6px; margin: 12px 0; font-size: 13px; line-height: 1.5; }
        .msg-error { background: #1c0a0a; color: #fca5a5; border: 1px solid #7f1d1d; }
        .hidden { display: none !important; }
"##,
    );
    let size: int = 728;
    assert(RESPONDENTS_3@.len() == size);
    assert(free_between(RESPONDENTS_3@, '@', 0, 728)) by {
        reveal_with_fuel(free_between, 12);
    }
    lemma_free_between(RESPONDENTS_3@, '@', 0, size);
}

#[verifier::rlimit(30)]
proof fn lemma_respondents_4()
    ensures
        !RESPONDENTS_4@.contains('@'),
{
    reveal_strlit(
        r##"        table { width: 100%; border-collapse: collapse; font-size: 13px; }
        th, td { padding: 8px 12px; text-align: left; }
        th { color: #64748b; font-weight: 600; font-size: 11px; text-transform: uppercase; border-bottom: 2px solid #1e2a3d; }
        td { border-bottom: 1px solid #111827; }
        tr:hover td { background: #1a2236; }
"##,
    );
    let size: int = 352;
    assert(RESPONDENTS_4@.len() == size);
    assert(free_between(RESPONDENTS_4@, '@', 0, 352)) by {
        reveal_with_fuel(free_between, 11);
    }
    lemma_free_between(RESPONDENTS_4@, '@', 0, size);
}

#[verifier::rlimit(30)]
proof fn lemma_respondents_5()
    ensures
        !RESPONDENTS_5@.contains('@'),
{
    reveal_strlit(
        r##"        .btn { padding: 6px 14px; border-radius: 6px; border: 1px solid #2a3548; background: #0e1525; color: #c8ccd4; cursor: pointer; font-family: inherit; font-size: 13px; text-decoration: none; display: inline-block; }
        .btn:hover { background: #1e293b; }
        .empty { text-align: center; padding: 32px; color: #64748b; }
"##,
    );
    let size: int = 336;
    assert(RESPONDENTS_5@.len() == size);
    assert(free_between(RESPONDENTS_5@, '@', 0, 336)) by {
        reveal_with_fuel(free_between, 11);
    }
    lemma_free_between(RESPONDENTS_5@, '@', 0, size);
}

#[verifier::rlimit(30)]
proof fn lemma_respondents_6()
    ensures
        !RESPONDENTS_6@.contains('@'),
{
    reveal_strlit(
        r##"    </style>
</head>
<body>
    <h1 id="title">Respondents</h1>

    <div id="loading" class="card"><p style="color:#64748b;">Loading...</p></div>
    <div id="error" class="card hidden"></div>
    <div id="content" class="card hidden">
        <table>
            <thead><tr><th>Discord</th><th>Submitted</th><th>Last edited</th></tr></thead>
            <tbody id="rows"></tbody>
        </table>
    </div>

    <script>
    "##,
    );
    let size: int = 428;
    assert(RESPONDENTS_6@.len() == size);
    assert(free_between(RESPONDENTS_6@, '@', 0, 428)) by {
        reveal_with_fuel(free_between, 11);
    }
    lemma_free_between(RESPONDENTS_6@, '@', 0, size);
}

proof fn lemma_respondents_7()
    ensures
        !RESPONDENTS_7@.contains('@'),
{
    reveal_strlit(
        r##"const API = '"##,
    );
    let size: int = 13;
    assert(RESPONDENTS_7@.len() == size);
    assert(free_between(RESPONDENTS_7@, '@', 0, 13)) by {
        reveal_with_fuel(free_between, 6);
    }
    lemma_free_between(RESPONDENTS_7@, '@', 0, size);
}

proof fn lemma_respondents_8()
    ensures
        !RESPONDENTS_8@.contains('@'),
{
    reveal_strlit(
        r##"';"##,
    );
    let size: int = 2;
    assert(RESPONDENTS_8@.len() == size);
    assert(free_between(RESPONDENTS_8@, '@', 0, 2)) by {
        reveal_with_fuel(free_between, 3);
    }
    lemma_free_between(RESPONDENTS_8@, '@', 0, size);
}

#[verifier::rlimit(30)]
proof fn lemma_respondents_9()
    ensures
        !RESPONDENTS_9@.contains('@'),
{
    reveal_strlit(
        r##"
    const ORIGIN = new URL(API).origin;
    const guild = location.pathname.split('/').pop();

    async function load() {
        try {
            const res = await fetch(API + '/respondents/' + guild + '/data', { credentials: 'include' });
            const data = await res.json();
            if (!res.ok) {
                showError(data.error || 'HTTP ' + res.status);
                return;
            }
            document.getElementById('title').textContent = 'Respondents — ' + (data.guild_name || guild);
"##,
    );
    let size: int = 521;
    assert(RESPONDENTS_9@.len() == size);
    assert(free_between(RESPONDENTS_9@, '@', 0, 521)) by {
        reveal_with_fuel(free_between, 12);
    }
    lemma_free_between(RESPONDENTS_9@, '@', 0, size);
}

#[verifier::rlimit(30)]
proof fn lemma_respondents_10()
    ensures
        !RESPONDENTS_10@.contains('@'),
{
    reveal_strlit(
        r##"            const tbody = document.getElementById('rows');
            if (!data.respondents.length) {
                document.getElementById('content').innerHTML = '<div class="empty">No respondents yet.</div>';
            } else {
                tbody.innerHTML = data.respondents.map(r =>
                    '<tr><td>' + escapeHtml(r.discord_id) + '</td><td>' + escapeHtml(r.submitted_at) + '</td><td>' + escapeHtml(r.last_edited_at) + '</td></tr>'
                ).join('');
            }
"##,
    );
    let size: int = 498;
    assert(RESPONDENTS_10@.len() == size);
    assert(free_between(RESPONDENTS_10@, '@', 0, 498)) by {
        reveal_with_fuel(free_between, 11);
    }
    lemma_free_between(RESPONDENTS_10@, '@', 0, size);
}

proof fn lemma_respondents_11()
    ensures
        !RESPONDENTS_11@.contains('@'),
{
    reveal_strlit(
        r##"            document.getElementById('loading').classList.add('hidden');
            document.getElementById('content').classList.remove('hidden');
        } catch (e) {
            showError(e.message);
        }
    }

"##,
    );
    let size: int = 220;
    assert(RESPONDENTS_11@.len() == size);
    assert(free_between(RESPONDENTS_11@, '@', 0, 220)) by {
        reveal_with_fuel(free_between, 10);
    }
    lemma_free_between(RESPONDENTS_11@, '@', 0, size);
}

#[verifier::rlimit(30)]
proof fn lemma_respondents_12()
    ensures
        !RESPONDENTS_12@.contains('@'),
{
    reveal_strlit(
        r##"    function showError(msg) {
        const el = document.getElementById('error');
        const loginUrl = ORIGIN + '/auth/login?return_to=' + encodeURIComponent(location.pathname);
        el.innerHTML = '<div class="msg msg-error">' + escapeHtml(msg) + '</div><a class="btn" href="' + loginUrl + '">Sign in with Discord</a>';
        document.getElementById('loading').classList.add('hidden');
        el.classList.remove('hidden');
    }

"##,
    );
    let size: int = 443;
    assert(RESPONDENTS_12@.len() == size);
    assert(free_between(RESPONDENTS_12@, '@', 0, 443)) by {
        reveal_with_fuel(free_between, 11);
    }
    lemma_free_between(RESPONDENTS_12@, '@', 0, size);
}

proof fn lemma_respondents_13()
    ensures
        !RESPONDENTS_13@.contains('@'),
{
    reveal_strlit(
        r##"    function escapeHtml(s) {
        return String(s == null ? '' : s).replace(/[&<>"']/g, c => ({
            '&': '&amp;', '<': '&lt;', '>': '&gt;', '"': '&quot;', "'": '&#39;'
        })[c]);
    }

    load();
    </script>
</body>
</html>"##,
    );
    let size: int = 243;
    assert(RESPONDENTS_13@.len() == size);
    assert(free_between(RESPONDENTS_13@, '@', 0, 243)) by {
        reveal_with_fuel(free_between, 10);
    }
    lemma_free_between(RESPONDENTS_13@, '@', 0, size);
}

/// No fixed part of the respondents page holds an at sign.
pub proof fn lemma_no_at_sign()
    ensures
        !respondents_start().contains('@'),
        !respondents_middle().contains('@'),
        !respondents_end().contains('@'),
{
    lemma_respondents_0();
    lemma_respondents_1();
    lemma_respondents_2();
    lemma_respondents_3();
    lemma_respondents_4();
    lemma_respondents_5();
    lemma_respondents_6();
    lemma_respondents_7();
    lemma_respondents_8();
    lemma_respondents_9();
    lemma_respondents_10();
    lemma_respondents_11();
    lemma_respondents_12();
    lemma_respondents_13();
    lemma_joined_without(RESPONDENTS_0@, RESPONDENTS_1@, '@');
    lemma_joined_without(RESPONDENTS_2@, RESPONDENTS_3@, '@');
    lemma_joined_without(RESPONDENTS_2@ + RESPONDENTS_3@, RESPONDENTS_4@, '@');
    lemma_joined_without(RESPONDENTS_2@ + RESPONDENTS_3@ + RESPONDENTS_4@, RESPONDENTS_5@, '@');
    lemma_joined_without(
        RESPONDENTS_2@ + RESPONDENTS_3@ + RESPONDENTS_4@ + RESPONDENTS_5@,
        RESPONDENTS_6@,
        '@',
    );
    lemma_joined_without(
        RESPONDENTS_2@ + RESPONDENTS_3@ + RESPONDENTS_4@ + RESPONDENTS_5@ + RESPONDENTS_6@,
        RESPONDENTS_7@,
        '@',
    );
    lemma_joined_without(RESPONDENTS_8@, RESPONDENTS_9@, '@');
    lemma_joined_without(RESPONDENTS_8@ + RESPONDENTS_9@, RESPONDENTS_10@, '@');
    lemma_joined_without(RESPONDENTS_8@ + RESPONDENTS_9@ + RESPONDENTS_10@, RESPONDENTS_11@, '@');
    lemma_joined_without(
        RESPONDENTS_8@ + RESPONDENTS_9@ + RESPONDENTS_10@ + RESPONDENTS_11@,
        RESPONDENTS_12@,
        '@',
    );
    lemma_joined_without(
        RESPONDENTS_8@ + RESPONDENTS_9@ + RESPONDENTS_10@ + RESPONDENTS_11@ + RESPONDENTS_12@,
        RESPONDENTS_13@,
        '@',
    );
}

proof fn lemma_joined_without(a: Seq<char>, b: Seq<char>, c: char)
    requires
        !a.contains(c),
        !b.contains(c),
    ensures
        !(a + b).contains(c),
{
    let all = a + b;
    assert forall|i: int| 0 <= i < all.len() implies all[i] != c by {
        if i < a.len() {
            assert(all[i] == a[i]);
        } else {
            assert(all[i] == b[i - a.len()]);
        }
    }
}

} // verus!
