//! Errors: what the forge says of a failure is what the client is told.

use crate::api::{authorization, base64_of, error_of, no_credentials, succeeds, ErrorView};
use crate::handlers::{error_object, wire_error, WireErrorView};
use crate::json::{member, text_member, uint_member, JsonView};
use crate::text::{decimal, unsigned};
use vstd::prelude::*;
use vstd::utf8::encode_utf8;

verus! {

/// Every failure is of one kind: 401 and 403 are matters of authorization, 429 a
/// rate limit, 404 something that is not there, 413 this provider's own cap, and
/// everything else, failures without a status included, a fault of the network.
/// Message and time to wait are passed on as they are.
pub proof fn failures_have_one_kind(
    status: u16,
    message: Seq<char>,
    retry_after: Option<u64>,
)
    ensures
        ({
            let e = wire_error(ErrorView::Api { status, message, retry_after });
            &&& e.message == message
            &&& e.retry_after_s == retry_after
            &&& e.kind == "auth"@ <==> status == 401 || status == 403
            &&& e.kind == "rate_limited"@ <==> status == 429
            &&& e.kind == "not_found"@ <==> status == 404
            &&& e.kind == "provider"@ <==> status == 413
            &&& e.kind == "network"@ <==> status != 401 && status != 403 && status != 429 && status
                != 404 && status != 413
        }),
        ({
            let e = wire_error(ErrorView::Network(message));
            &&& e.message == message
            &&& e.retry_after_s is None
            &&& e.kind == "network"@
        }),
{
    reveal_strlit("auth");
    reveal_strlit("rate_limited");
    reveal_strlit("not_found");
    reveal_strlit("provider");
    reveal_strlit("network");
    assert("auth"@.len() == 4 && "rate_limited"@.len() == 12 && "not_found"@.len() == 9
        && "provider"@.len() == 8 && "network"@.len() == 7);
}

/// An error on the wire has its message, and its kind and the seconds to wait,
/// where there are any, in its data.
pub proof fn errors_are_shown(e: WireErrorView)
    ensures
        ({
            let v = error_object(e);
            &&& uint_member(v, "code"@) == Some(1u64)
            &&& text_member(v, "message"@) == Some(e.message)
            &&& member(v, "data"@) matches Some(data)
            &&& text_member(data, "kind"@) == Some(e.kind)
            &&& uint_member(data, "retry_after_s"@) == e.retry_after_s
            &&& e.retry_after_s is None ==> member(data, "retry_after_s"@) is None
        }),
{
    reveal_strlit("code");
    reveal_strlit("message");
    reveal_strlit("data");
    reveal_strlit("kind");
    reveal_strlit("retry_after_s");
    assert("code"@.len() == 4 && "message"@.len() == 7 && "data"@.len() == 4 && "kind"@.len() == 4
        && "retry_after_s"@.len() == 13);
    assert("code"@[0] == 'c' && "data"@[0] == 'd');
}

/// The replies that are read are those whose status is two hundred and something,
/// whatever it is exactly.
pub proof fn replies_in_the_two_hundreds_are_read(status: u16)
    ensures
        succeeds(status) <==> status / 100 == 2,
{
}

/// A reply of the forge that is an error keeps its status. Its message is the one
/// in the body, where there is one, otherwise it names the status; the time to
/// wait is what its header says, where that is a number.
pub proof fn error_replies_are_passed_on(
    status: u16,
    retry_after: Option<Seq<char>>,
    body: Option<JsonView>,
    error: JsonView,
    message: Seq<char>,
)
    ensures
        ({
            let e = error_of(status, retry_after, body);
            let says = body is Some && member(body->0, "error"@) == Some(error) && text_member(
                error,
                "message"@,
            ) == Some(message);
            let silent = body is None || member(body->0, "error"@) is None || text_member(
                member(body->0, "error"@)->0,
                "message"@,
            ) is None;
            &&& e matches ErrorView::Api { status: s, message: m, retry_after: r }
            &&& s == status
            &&& says ==> m == message
            &&& silent ==> m == "bitbucket api: status "@ + decimal(status as nat)
            &&& retry_after is None ==> r is None
            &&& retry_after matches Some(text) ==> r == unsigned(text)
        }),
{
}

/// A token with a user name goes as Basic, a token alone as Bearer; what is empty
/// counts as absent, and without a token there is no authorization, whatever the
/// user name.
pub proof fn tokens_authorize(token: Seq<char>, user: Seq<char>, any: Option<Seq<char>>)
    requires
        token.len() > 0,
        user.len() > 0,
    ensures
        authorization(Some(token), Some(user)) == Some(
            "Basic "@ + base64_of(encode_utf8(user + seq![':'] + token)),
        ),
        authorization(Some(token), None) == Some("Bearer "@ + token),
        authorization(Some(token), Some(Seq::empty())) == Some("Bearer "@ + token),
        authorization(None, any) is None,
        authorization(Some(Seq::empty()), any) is None,
{
}

/// Missing credentials are a matter of authorization, and the error names the
/// variables that would hold them.
pub proof fn missing_credentials_name_the_variables(token_env: Seq<char>, username_env: Seq<char>)
    ensures
        ({
            let e = wire_error(no_credentials(token_env, username_env));
            &&& e.kind == "auth"@
            &&& e.message == "bitbucket needs credentials — set "@ + token_env
                + " (app password) + "@ + username_env + " (username), or "@ + token_env
                + " for a bearer token"@
            &&& e.retry_after_s is None
        }),
{
}

}
