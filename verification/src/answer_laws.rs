//! What holds of answers: what is sent, where it leads, and what is read in it.
use vstd::prelude::*;

use crate::auth::{auth_record, hex_text, law_password_round_trip};
use crate::deployment_laws::{fields_json, is_name, lemma_field_read, lemma_fields_start};
use crate::effects::EffectView;
use crate::escape::{escaped, Escape};
use crate::handlers::{nodename_json, seed_json, wind_tunnel_json};
use crate::happ_handlers::verdict_json;
use crate::happs::CommandOutput;
use crate::http::{error_json, reply_text, response, PlanView, ReplyView};
use crate::json::{after, keyed, quoted, string_field};
use crate::list_laws::{lemma_last_read, lemma_member_plain, lemma_read_behind_brace};
use crate::number::{dec, hex, is_digit, lemma_dec_value, lemma_hex, parse_up_to};
use crate::pages::login_page;
use crate::quadlet::{config_at, SiteView};
use crate::routes::{gate, login_end, route_of, Route};
use crate::sessions::{is_good, law_session_lifetime, sessions_text, SessionSeq};
use crate::split::{is_space, trim, trim_start};
use crate::ssh::{
    is_pubkey, keys_answer, keys_attempted, keys_of, law_removed_key_is_gone, leading_digits,
    ssh_add, ssh_remove,
};
use crate::state::{cookie_text, StateView};
use crate::store::distinct;
use crate::text::{byte_len, occurs, starts_with};
use crate::unit_laws::lemma_in_text;
use crate::update::lemma_first_behind;

verus! {

// ---------------------------------------------------------------------------
// What is sent
// ---------------------------------------------------------------------------

/// A text ends with another.
pub open spec fn ends_with(text: Seq<char>, end: Seq<char>) -> bool {
    end.len() <= text.len() && text.skip(text.len() - end.len()) == end
}

/// A response begins with its status, says of what kind its body is and how many bytes
/// it has, that the connection is closed, and ends with a blank line and the body.
pub open spec fn is_response(
    text: Seq<char>,
    status: nat,
    reason: Seq<char>,
    ctype: Seq<char>,
    body: Seq<char>,
) -> bool {
    &&& starts_with(text, "HTTP/1.1 "@ + dec(status) + " "@ + reason)
    &&& occurs(text, "\r\nContent-Type: "@ + ctype)
    &&& occurs(text, "\r\nContent-Length: "@ + dec(byte_len(body)))
    &&& ends_with(text, "\r\nConnection: close\r\n\r\n"@ + body)
}

proof fn lemma_response(status: nat, reason: Seq<char>, ctype: Seq<char>, body: Seq<char>)
    ensures
        is_response(response(status, reason, ctype, body), status, reason, ctype, body),
{
    let text = response(status, reason, ctype, body);
    let first = "HTTP/1.1 "@ + dec(status) + " "@ + reason;
    let kind = "\r\nContent-Type: "@ + ctype;
    let length = "\r\nContent-Length: "@ + dec(byte_len(body));
    let end = "\r\nConnection: close\r\n\r\n"@ + body;
    assert(text =~= first + kind + length + end);
    assert(text.subrange(0, 0 + first.len() as int) =~= first);
    lemma_in_text(first, kind, length + end);
    assert(text =~= first + kind + (length + end));
    lemma_in_text(first + kind, length, end);
    assert(text.skip(text.len() - end.len()) =~= end);
}

/// Pages and documents are answered with 200 and their kind, errors with their status
/// and a document that holds the message, and an unknown route with 404.
pub proof fn law_replies_are_responses(body: Seq<char>, status: u16, msg: Seq<char>)
    ensures
        is_response(
            reply_text(ReplyView::Html(body)),
            200,
            "OK"@,
            "text/html; charset=utf-8"@,
            body,
        ),
        is_response(reply_text(ReplyView::Json(body)), 200, "OK"@, "application/json"@, body),
        is_response(
            reply_text(ReplyView::Error(status, msg)),
            status as nat,
            "Error"@,
            "application/json"@,
            "{\"error\":\""@ + escaped(msg, Escape::Json) + "\"}"@,
        ),
        is_response(
            reply_text(ReplyView::NotFound),
            404,
            "Not Found"@,
            "text/plain"@,
            "404 Not Found"@,
        ),
{
    lemma_response(200, "OK"@, "text/html; charset=utf-8"@, body);
    lemma_response(200, "OK"@, "application/json"@, body);
    lemma_response(status as nat, "Error"@, "application/json"@, error_json(msg));
    lemma_response(404, "Not Found"@, "text/plain"@, "404 Not Found"@);
}

/// A redirection leads to its location, with a cookie where there is one, and has no
/// body.
pub proof fn law_redirections(location: Seq<char>, cookie: Seq<char>)
    ensures
        starts_with(
            reply_text(ReplyView::Redirect(location)),
            "HTTP/1.1 302 Found\r\nLocation: "@ + location + "\r\n"@,
        ),
        starts_with(
            reply_text(ReplyView::RedirectWithCookie(location, cookie)),
            "HTTP/1.1 302 Found\r\nLocation: "@ + location + "\r\nSet-Cookie: "@ + cookie
                + "\r\n"@,
        ),
        ends_with(
            reply_text(ReplyView::Redirect(location)),
            "\r\nContent-Length: 0\r\nConnection: close\r\n\r\n"@,
        ),
        ends_with(
            reply_text(ReplyView::RedirectWithCookie(location, cookie)),
            "\r\nContent-Length: 0\r\nConnection: close\r\n\r\n"@,
        ),
{
    let head = "HTTP/1.1 302 Found\r\nLocation: "@;
    let end = "\r\nContent-Length: 0\r\nConnection: close\r\n\r\n"@;
    let plain = reply_text(ReplyView::Redirect(location));
    let kept = reply_text(ReplyView::RedirectWithCookie(location, cookie));
    reveal_strlit("\r\nContent-Length: 0\r\nConnection: close\r\n\r\n");
    reveal_strlit("\r\n");
    reveal_strlit("\r\nSet-Cookie: ");
    let a = head + location + "\r\n"@;
    let b = head + location + "\r\nSet-Cookie: "@ + cookie + "\r\n"@;
    assert(plain.subrange(0, 0 + a.len() as int) =~= a);
    assert(kept.subrange(0, 0 + b.len() as int) =~= b);
    assert(plain.skip(plain.len() - end.len()) =~= end);
    assert(kept.skip(kept.len() - end.len()) =~= end);
}

/// The cookie of a session holds the token alone, is kept from scripts and from other
/// sites, and counts for every path.
pub proof fn law_session_cookie(token: Seq<char>)
    ensures
        starts_with(cookie_text(token), "session="@ + token + ";"@),
        occurs(cookie_text(token), "; HttpOnly;"@),
        occurs(cookie_text(token), "; SameSite=Strict;"@),
        ends_with(cookie_text(token), "; Path=/"@),
{
    let text = cookie_text(token);
    let head = "session="@ + token;
    let end = "; HttpOnly; SameSite=Strict; Path=/"@;
    reveal_strlit("; HttpOnly; SameSite=Strict; Path=/");
    reveal_strlit(";");
    reveal_strlit("; HttpOnly;");
    reveal_strlit("; SameSite=Strict;");
    reveal_strlit("; Path=/");
    let none = Seq::<char>::empty();
    assert(text.subrange(0, 0 + (head + ";"@).len() as int) =~= head + ";"@);
    assert(text =~= head + "; HttpOnly;"@ + end.skip(11));
    lemma_in_text(head, "; HttpOnly;"@, end.skip(11));
    assert(text =~= head + end.take(10) + "; SameSite=Strict;"@ + end.skip(28));
    lemma_in_text(head + end.take(10), "; SameSite=Strict;"@, end.skip(28));
    assert(text.skip(text.len() - 8) =~= "; Path=/"@);
}

/// A login with the digest that is kept begins a session: its token is good for a day
/// from then on, no other token is touched, the sessions are written so that only root
/// may read them, and the answer leads to the management page with the token as its
/// cookie. Every other login changes nothing and leads to the login page with a message.
pub proof fn law_login(
    ss: SessionSeq,
    salt: Seq<u8>,
    kept: Seq<char>,
    digest: Option<Seq<char>>,
    token: Seq<char>,
    other: Seq<char>,
    now: nat,
    later: nat,
)
    requires
        distinct(ss),
        now <= later,
        other != token,
        hex_text(kept),
        kept.len() > 0,
    ensures
        ({
            let stored = auth_record(hex(salt), kept);
            let (after, done, reply) = login_end(ss, stored, digest, token, now);
            &&& digest == Some(kept) ==> {
                &&& is_good(after, token, later) <==> later < now + 86400 * 1000000000
                &&& is_good(after, other, later) == is_good(ss, other, later)
                &&& done.len() == 3
                &&& done[0] == EffectView::MakeDir("/etc/node-manager"@)
                &&& done[1] == EffectView::Write(
                    "/etc/node-manager/sessions"@,
                    sessions_text(after),
                )
                &&& done[2] == EffectView::Run(
                    seq!["chmod"@, "600"@, "/etc/node-manager/sessions"@],
                )
                &&& reply == ReplyView::RedirectWithCookie("/manage"@, cookie_text(token))
            }
            &&& digest != Some(kept) ==> after == ss && done.len() == 0 && reply == ReplyView::Html(
                login_page(true),
            )
        }),
{
    lemma_hex(salt);
    law_password_round_trip(hex(salt), kept, Seq::empty());
    law_session_lifetime(ss, token, other, now, later);
}

// ---------------------------------------------------------------------------
// Routes
// ---------------------------------------------------------------------------

/// Every request that is known is asked for by one method and one path alone.
pub proof fn law_routes_are_distinct(
    method: Seq<char>,
    path: Seq<char>,
    method2: Seq<char>,
    path2: Seq<char>,
)
    requires
        route_of(method, path) == route_of(method2, path2),
        route_of(method, path) != Route::Unknown,
    ensures
        method == method2,
        path == path2,
        method == "GET"@ || method == "POST"@,
{
}

/// Pages are got and changes are posted: every known request changes nothing unless it
/// is posted, and the requests that need no session are the first page, the login, the
/// setup and the recovery.
pub proof fn law_methods_of_routes(method: Seq<char>, path: Seq<char>)
    ensures
        ({
            let r = route_of(method, path);
            &&& r == Route::Home || r == Route::LoginPage || r == Route::Manage || r
                == Route::Status || r == Route::HappsList || r == Route::HappsLogs ==> method
                == "GET"@
            &&& r != Route::Unknown && method == "GET"@ ==> r == Route::Home || r
                == Route::LoginPage || r == Route::Manage || r == Route::Status || r
                == Route::HappsList || r == Route::HappsLogs
            &&& gate(r, false) is None ==> r == Route::Unknown || path == "/"@ || path
                == "/login"@ || path == "/submit"@ || path == "/manage/auth/recover"@
            &&& gate(r, true) is None
        }),
{
    reveal_strlit("GET");
    reveal_strlit("POST");
    assert("GET"@.len() == 3);
    assert("POST"@.len() == 4);
}

// ---------------------------------------------------------------------------
// Keys
// ---------------------------------------------------------------------------

/// A text is taken for a public key exactly where, without white space round it, it
/// begins with the name of one of four kinds of keys.
pub proof fn law_public_keys(key: Seq<char>)
    ensures
        is_pubkey(key) <==> starts_with(trim(key), "ssh-ed25519 "@) || starts_with(
            trim(key),
            "ssh-rsa "@,
        ) || starts_with(trim(key), "ecdsa-sha2-"@) || starts_with(trim(key), "sk-ssh-"@),
{
}

/// A request to add a key is refused where it has none, where it is no key and where
/// it is there already; otherwise the keys' file is written.
pub proof fn law_key_to_add(body: Seq<char>, content: Seq<char>)
    ensures
        ({
            let key = string_field(body, "key"@);
            let plan = ssh_add(body, content);
            &&& key.len() == 0 ==> plan == PlanView::Answer(
                ReplyView::Error(400, "key is required"@),
            )
            &&& key.len() > 0 && !is_pubkey(key) ==> plan == PlanView::Answer(
                ReplyView::Error(400, "Invalid SSH public key format"@),
            )
            &&& key.len() > 0 && is_pubkey(key) && keys_of(content).contains(key) ==> plan
                == PlanView::Answer(ReplyView::Error(409, "Key already present"@))
            &&& key.len() > 0 && is_pubkey(key) && !keys_of(content).contains(key) ==> (
            plan matches PlanView::Write(file) && file.dir == "/home/holo/.ssh"@ && file.path
                == "/home/holo/.ssh/authorized_keys"@)
        }),
{
}

proof fn lemma_leading_digits(s: Seq<char>, rest: Seq<char>)
    requires
        forall|i: int| 0 <= i < s.len() ==> is_digit(#[trigger] s[i]),
        rest.len() > 0 ==> !is_digit(rest[0]),
    ensures
        leading_digits(s + rest) == s,
    decreases s.len(),
{
    if s.len() == 0 {
        assert(s + rest =~= rest);
        assert(leading_digits(rest) =~= s);
    } else {
        assert(is_digit(s[0]));
        let more = s.drop_first();
        assert forall|i: int| 0 <= i < more.len() implies is_digit(#[trigger] more[i]) by {
            assert(more[i] == s[i + 1]);
        }
        lemma_leading_digits(more, rest);
        assert((s + rest).drop_first() =~= more + rest);
        assert(seq![s[0]] + more =~= s);
    }
}

proof fn lemma_gap(gap: Seq<char>, s: Seq<char>)
    requires
        forall|i: int| 0 <= i < gap.len() ==> is_space(#[trigger] gap[i]),
        s.len() > 0,
        !is_space(s[0]),
    ensures
        trim_start(gap + s) == s,
    decreases gap.len(),
{
    if gap.len() == 0 {
        assert(gap + s =~= s);
    } else {
        assert(is_space(gap[0]));
        assert((gap + s).drop_first() =~= gap.drop_first() + s);
        assert forall|i: int| 0 <= i < gap.drop_first().len() implies is_space(
            #[trigger] gap.drop_first()[i],
        ) by {
            assert(gap.drop_first()[i] == gap[i + 1]);
        }
        lemma_gap(gap.drop_first(), s);
    }
}

/// A request to remove a key names it by its place, a number behind `"index":`; the
/// keys that are left are written, and a place where there is no key is refused.
pub proof fn law_key_to_remove(
    before: Seq<char>,
    gap: Seq<char>,
    place: nat,
    rest: Seq<char>,
    content: Seq<char>,
)
    requires
        !occurs(before + "\"index\":"@.drop_last(), "\"index\":"@),
        forall|i: int| 0 <= i < gap.len() ==> is_space(#[trigger] gap[i]),
        rest.len() > 0 ==> !('0' <= rest[0] <= '9'),
        place <= usize::MAX,
    ensures
        ({
            let plan = ssh_remove(before + "\"index\":"@ + gap + dec(place) + rest, content);
            &&& place >= keys_of(content).len() ==> plan == PlanView::Answer(
                ReplyView::Error(404, "index out of range"@),
            )
            &&& place < keys_of(content).len() ==> (plan matches PlanView::Write(file) && file.path
                == "/home/holo/.ssh/authorized_keys"@ && keys_of(file.content) == keys_of(
                content,
            ).take(place as int) + keys_of(content).skip(place as int + 1))
        }),
{
    let key = "\"index\":"@;
    let body = before + key + gap + dec(place) + rest;
    let tail = gap + (dec(place) + rest);
    reveal_strlit("\"index\":");
    lemma_first_behind(before, key, tail);
    assert(body =~= before + key + tail);
    assert(body.skip(before.len() as int + key.len()) =~= tail);
    lemma_dec_value(place);
    assert(is_digit(dec(place)[0]));
    lemma_gap(gap, dec(place) + rest);
    lemma_leading_digits(dec(place), rest);
    assert(parse_up_to(dec(place), usize::MAX as nat) == Some(place));
    if place < keys_of(content).len() {
        law_removed_key_is_gone(body, content, place);
        assert(keys_of(content).remove(place as int) =~= keys_of(content).take(place as int)
            + keys_of(content).skip(place as int + 1));
    }
}

/// A request to remove a key that names no place, or something else than a number, is
/// refused.
pub proof fn law_no_key_to_remove(body: Seq<char>, content: Seq<char>)
    ensures
        !occurs(body, "\"index\":"@) ==> ssh_remove(body, content) == PlanView::Answer(
            ReplyView::Error(400, "index is required"@),
        ),
        after(body, "\"index\":"@) matches Some(rest) ==> (trim_start(rest).len() == 0 || !('0'
            <= trim_start(rest)[0] <= '9')) ==> ssh_remove(body, content) == PlanView::Answer(
            ReplyView::Error(400, "invalid index"@),
        ),
{
    match after(body, "\"index\":"@) {
        Some(rest) => {
            let t = trim_start(rest);
            if t.len() == 0 || !('0' <= t[0] <= '9') {
                assert(leading_digits(t) =~= Seq::<char>::empty());
            }
        },
        None => {},
    }
}

/// Once the keys were written they become the user's own and are kept from others, in
/// this order; where writing failed nothing is done and the failure is the answer.
pub proof fn law_after_writing_keys(msg: Seq<char>, done: Seq<char>)
    ensures
        keys_attempted(None) == seq![
            EffectView::Run(seq!["chown"@, "-R"@, "holo:holo"@, "/home/holo/.ssh"@]),
            EffectView::Run(seq!["chmod"@, "700"@, "/home/holo/.ssh"@]),
            EffectView::Run(seq!["chmod"@, "600"@, "/home/holo/.ssh/authorized_keys"@]),
        ],
        keys_attempted(Some(msg)).len() == 0,
        keys_answer(None, done) == ReplyView::Json(done),
        keys_answer(Some(msg), done) == ReplyView::Error(500, msg),
{
}

// ---------------------------------------------------------------------------
// Documents
// ---------------------------------------------------------------------------

proof fn lemma_answer_names()
    ensures
        is_name("status"@),
        is_name("seed_phrase"@),
        is_name("node_name"@),
        is_name("wt_hostname"@),
        is_name("image"@),
        is_name("hostname"@),
        is_name("entrypoint_bind"@),
        "status"@.len() == 6,
        "seed_phrase"@.len() == 11,
        "node_name"@.len() == 9,
        "wt_hostname"@.len() == 11,
        "image"@.len() == 5,
        "hostname"@.len() == 8,
        "entrypoint_bind"@.len() == 15,
        "ok"@.len() == 2,
        !"ok"@.contains('"'),
        "{\"status\":\"ok\","@ == seq!['{'] + (keyed("status"@) + quoted("ok"@)) + seq![','],
        ","@ == seq![','],
        "}"@ == seq!['}'],
{
    reveal_strlit("status");
    reveal_strlit("seed_phrase");
    reveal_strlit("node_name");
    reveal_strlit("wt_hostname");
    reveal_strlit("image");
    reveal_strlit("hostname");
    reveal_strlit("entrypoint_bind");
    reveal_strlit("ok");
    reveal_strlit("{\"status\":\"ok\",");
    reveal_strlit(",");
    reveal_strlit("}");
    assert("{\"status\":\"ok\","@ =~= seq!['{'] + (keyed("status"@) + quoted("ok"@)) + seq![',']);
    assert(","@ =~= seq![',']);
    assert("}"@ =~= seq!['}']);
}

/// The answer that hands out a seed phrase gives it back under its name.
pub proof fn law_seed_phrase_in_answer(phrase: Seq<char>)
    requires
        !phrase.contains('"'),
        !phrase.contains('\\'),
    ensures
        string_field(seed_json(phrase), "seed_phrase"@) == phrase,
        string_field(seed_json(phrase), "status"@) == "ok"@,
{
    lemma_answer_names();
    lemma_member_plain("seed_phrase"@, phrase);
    let fs = seq![("status"@, "ok"@)];
    let tail = keyed("seed_phrase"@) + quoted(phrase) + seq!['}'];
    let fields = fields_json(fs, tail);
    assert(fs.drop_first() =~= Seq::empty());
    assert(fields_json(fs.drop_first(), tail) == tail);
    assert(tail[0] == '"');
    lemma_fields_start(fs, tail);
    assert(seed_json(phrase) =~= seq!['{'] + fields);
    lemma_read_behind_brace(fields, "seed_phrase"@);
    lemma_read_behind_brace(fields, "status"@);
    lemma_last_read(fs, "seed_phrase"@, phrase, seq!['}']);
    lemma_field_read(fs, tail, 0);
}

/// The answer to a new name gives the name back, and the host name that it makes.
pub proof fn law_name_in_answer(name: Seq<char>)
    requires
        !name.contains('"'),
        !name.contains('\\'),
        name != "wt_hostname"@,
    ensures
        string_field(nodename_json(name), "node_name"@) == name,
        string_field(nodename_json(name), "wt_hostname"@) == "nomad-client-"@ + name,
{
    let host = "nomad-client-"@ + name;
    reveal_strlit("nomad-client-");
    assert forall|i: int| 0 <= i < host.len() implies #[trigger] host[i] != '"' && host[i]
        != '\\' by {
        if i >= 13 {
            assert(host[i] == name[i - 13]);
            assert(name.contains(name[i - 13]));
        }
    }
    lemma_answer_names();
    lemma_member_plain("node_name"@, name);
    lemma_member_plain("wt_hostname"@, host);
    let fs = seq![("status"@, "ok"@), ("node_name"@, name)];
    let tail = keyed("wt_hostname"@) + quoted(host) + seq!['}'];
    let fields = fields_json(fs, tail);
    let more = fs.drop_first();
    assert(more =~= seq![("node_name"@, name)]);
    assert(more.drop_first() =~= Seq::empty());
    assert(fields_json(more.drop_first(), tail) == tail);
    assert(fields_json(more, tail) == keyed("node_name"@) + quoted(name) + seq![','] + tail);
    assert(fields == keyed("status"@) + quoted("ok"@) + seq![','] + fields_json(more, tail));
    assert(tail[0] == '"');
    lemma_fields_start(fs, tail);
    assert(nodename_json(name) =~= seq!['{'] + fields);
    lemma_read_behind_brace(fields, "node_name"@);
    lemma_read_behind_brace(fields, "wt_hostname"@);
    lemma_field_read(fs, tail, 1);
    lemma_last_read(fs, "wt_hostname"@, host, seq!['}']);
}

/// The answer to new Wind Tunnel settings gives back what is in force.
#[verifier::spinoff_prover]
pub proof fn law_wind_tunnel_in_answer(state: StateView, site: SiteView)
    requires
        ({
            let cfg = config_at(state, site);
            &&& !cfg.image.contains('"') && !cfg.image.contains('\\')
            &&& !cfg.hostname.contains('"') && !cfg.hostname.contains('\\')
            &&& cfg.entrypoint_bind matches Some(p) ==> !p.contains('"') && !p.contains('\\')
            &&& cfg.image != "hostname"@ && cfg.image != "entrypoint_bind"@
            &&& cfg.hostname != "entrypoint_bind"@
        }),
    ensures
        ({
            let text = wind_tunnel_json(state, site);
            let cfg = config_at(state, site);
            &&& string_field(text, "image"@) == cfg.image
            &&& string_field(text, "hostname"@) == cfg.hostname
            &&& cfg.entrypoint_bind matches Some(p) ==> string_field(text, "entrypoint_bind"@) == p
            &&& cfg.entrypoint_bind is None ==> string_field(text, "entrypoint_bind"@).len() == 0
        }),
{
    let cfg = config_at(state, site);
    let bind = match cfg.entrypoint_bind {
        Some(p) => p,
        None => ""@,
    };
    reveal_strlit("");
    assert(""@.len() == 0);
    lemma_answer_names();
    lemma_member_plain("image"@, cfg.image);
    lemma_member_plain("hostname"@, cfg.hostname);
    lemma_member_plain("entrypoint_bind"@, bind);
    let fs = seq![("status"@, "ok"@), ("image"@, cfg.image), ("hostname"@, cfg.hostname)];
    let tail = keyed("entrypoint_bind"@) + quoted(bind) + seq!['}'];
    let m1 = fs.drop_first();
    let m2 = m1.drop_first();
    assert(m1 =~= seq![("image"@, cfg.image), ("hostname"@, cfg.hostname)]);
    assert(m2 =~= seq![("hostname"@, cfg.hostname)]);
    assert(m2.drop_first() =~= Seq::empty());
    let t2 = keyed("hostname"@) + quoted(cfg.hostname) + seq![','] + tail;
    let t1 = keyed("image"@) + quoted(cfg.image) + seq![','] + t2;
    let t0 = keyed("status"@) + quoted("ok"@) + seq![','] + t1;
    assert(fields_json(m2.drop_first(), tail) == tail);
    assert(fields_json(m2, tail) == t2);
    assert(fields_json(m1, tail) == t1);
    assert(fields_json(fs, tail) == t0);
    assert(tail[0] == '"');
    lemma_fields_start(fs, tail);
    lemma_four_parts(
        keyed("status"@) + quoted("ok"@),
        keyed("image"@) + quoted(cfg.image),
        keyed("hostname"@) + quoted(cfg.hostname),
        keyed("entrypoint_bind"@) + quoted(bind),
    );
    assert(wind_tunnel_json(state, site) == seq!['{'] + t0);
    lemma_read_behind_brace(t0, "image"@);
    lemma_read_behind_brace(t0, "hostname"@);
    lemma_read_behind_brace(t0, "entrypoint_bind"@);
    lemma_field_read(fs, tail, 1);
    lemma_field_read(fs, tail, 2);
    lemma_last_read(fs, "entrypoint_bind"@, bind, seq!['}']);
}

proof fn lemma_four_parts(a: Seq<char>, b: Seq<char>, c: Seq<char>, d: Seq<char>)
    ensures
        seq!['{'] + a + seq![','] + b + seq![','] + c + seq![','] + d + seq!['}'] == seq!['{'] + (a
            + seq![','] + (b + seq![','] + (c + seq![','] + (d + seq!['}'])))),
{
    assert(seq!['{'] + a + seq![','] + b + seq![','] + c + seq![','] + d + seq!['}'] =~= seq!['{']
        + (a + seq![','] + (b + seq![','] + (c + seq![','] + (d + seq!['}'])))));
}

/// The verdict on a manifest is that it is valid exactly where the check passed, with
/// all that was printed, errors last.
pub proof fn law_verdict(out: CommandOutput)
    ensures
        out.code == 0 ==> verdict_json(out) == "{\"valid\":true,\"output\":\""@ + escaped(
            trim(out.stdout@ + out.stderr@),
            Escape::Json,
        ) + "\"}"@,
        out.code != 0 ==> verdict_json(out) == "{\"valid\":false,\"output\":\""@ + escaped(
            trim(out.stdout@ + out.stderr@),
            Escape::Json,
        ) + "\"}"@,
{
}

} // verus!
