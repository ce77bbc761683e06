//! The errors of the API: code, status and message of each.

use vstd::prelude::*;

use crate::json::{first_entry, json_text, member, member_of, Fields, Json, Value};
use crate::math::MathError;
use crate::text::join;

verus! {

/// Why a request is not answered.
#[derive(Debug, PartialEq, Eq)]
pub enum AppError {
    NotFound(String),
    BadRequest(String),
    ChainNotConfigured,
    /// The caller is not allowed to do this.
    Unauthorized,
    /// The fullnode failed; the text says how.
    Upstream(String),
    /// The database failed; the text is for the log only.
    Db(String),
    Math(MathError),
    /// Something else failed; the text says what.
    Internal(String),
}

/// The code by which a client tells errors apart.
pub open spec fn error_code(e: AppError) -> Seq<char> {
    match e {
        AppError::NotFound(_) => "not_found"@,
        AppError::BadRequest(_) => "bad_request"@,
        AppError::ChainNotConfigured => "chain_not_configured"@,
        AppError::Unauthorized => "unauthorized"@,
        AppError::Upstream(_) => "upstream_error"@,
        AppError::Db(_) => "internal_error"@,
        AppError::Math(_) => "unrepresentable_range"@,
        AppError::Internal(_) => "internal_error"@,
    }
}

/// The HTTP status.
pub open spec fn error_status(e: AppError) -> u16 {
    match e {
        AppError::NotFound(_) => 404,
        AppError::BadRequest(_) => 400,
        AppError::ChainNotConfigured => 503,
        AppError::Unauthorized => 401,
        AppError::Upstream(_) => 502,
        AppError::Db(_) => 500,
        AppError::Math(_) => 422,
        AppError::Internal(_) => 500,
    }
}

/// What a client is told. Nothing about the database gets out.
pub open spec fn error_message(e: AppError) -> Seq<char> {
    match e {
        AppError::NotFound(s) => s@,
        AppError::BadRequest(s) => s@,
        AppError::ChainNotConfigured => "chain integration is not configured on this server"@,
        AppError::Unauthorized => "unauthorized"@,
        AppError::Upstream(s) => "upstream RPC error: "@ + s@,
        AppError::Db(_) => "internal database error"@,
        AppError::Math(m) => "math error: "@ + m.text(),
        AppError::Internal(s) => s@,
    }
}

/// The body of an error answer.
pub open spec fn error_body(e: AppError) -> Json {
    Json::Object(
        seq![
            (
                "error"@,
                Json::Object(
                    seq![
                        ("code"@, json_text(error_code(e))),
                        ("message"@, json_text(error_message(e))),
                    ],
                ),
            ),
        ],
    )
}

impl AppError {
    /// Code and status.
    pub fn code_and_status(&self) -> (r: (&'static str, u16))
        ensures
            r.0@ == error_code(*self),
            r.1 == error_status(*self),
    {
        match self {
            AppError::NotFound(_) => ("not_found", 404),
            AppError::BadRequest(_) => ("bad_request", 400),
            AppError::ChainNotConfigured => ("chain_not_configured", 503),
            AppError::Unauthorized => ("unauthorized", 401),
            AppError::Upstream(_) => ("upstream_error", 502),
            AppError::Db(_) => ("internal_error", 500),
            AppError::Math(_) => ("unrepresentable_range", 422),
            AppError::Internal(_) => ("internal_error", 500),
        }
    }

    /// What a client is told.
    pub fn message(&self) -> (r: String)
        ensures
            r@ == error_message(*self),
    {
        match self {
            AppError::NotFound(s) => s.clone(),
            AppError::BadRequest(s) => s.clone(),
            AppError::ChainNotConfigured =>
                "chain integration is not configured on this server".to_owned(),
            AppError::Unauthorized => "unauthorized".to_owned(),
            AppError::Upstream(s) => join("upstream RPC error: ", s.as_str()),
            AppError::Db(_) => "internal database error".to_owned(),
            AppError::Math(m) => join("math error: ", m.message()),
            AppError::Internal(s) => s.clone(),
        }
    }

    /// The body of the answer.
    pub fn body(&self) -> (r: Value)
        ensures
            r@ == error_body(*self),
    {
        let (code, _) = self.code_and_status();
        let mut inner = Fields::new();
        inner.put_text("code", code);
        inner.put_text("message", self.message().as_str());
        assert(inner@ =~= error_body(*self)->Object_0[0].1->Object_0);
        let mut o = Fields::new();
        o.put("error", inner.build());
        assert(o@ =~= error_body(*self)->Object_0);
        o.build()
    }
}

/// What went wrong in the database does not reach a client.
pub proof fn law_database_errors_stay_inside(a: String, b: String)
    ensures
        error_body(AppError::Db(a)) == error_body(AppError::Db(b)),
{
}

/// A client tells the errors apart by status and code: what it did wrong is in the
/// four hundreds, what the server could not do in the five hundreds.
pub proof fn law_errors_have_their_status(s: String, m: MathError)
    ensures
        error_status(AppError::NotFound(s)) == 404 && error_code(AppError::NotFound(s))
            == "not_found"@,
        error_status(AppError::BadRequest(s)) == 400 && error_code(AppError::BadRequest(s))
            == "bad_request"@,
        error_status(AppError::ChainNotConfigured) == 503 && error_code(
            AppError::ChainNotConfigured,
        ) == "chain_not_configured"@,
        error_status(AppError::Unauthorized) == 401 && error_code(AppError::Unauthorized)
            == "unauthorized"@,
        error_status(AppError::Upstream(s)) == 502 && error_code(AppError::Upstream(s))
            == "upstream_error"@,
        error_status(AppError::Db(s)) == 500 && error_code(AppError::Db(s)) == "internal_error"@,
        error_status(AppError::Math(m)) == 422 && error_code(AppError::Math(m))
            == "unrepresentable_range"@,
        error_status(AppError::Internal(s)) == 500 && error_code(AppError::Internal(s))
            == "internal_error"@,
{
}

/// A client is told what the error says, whole, but for the database, of which it is told
/// nothing.
pub proof fn law_errors_say_what_they_hold(s: String, m: MathError)
    ensures
        error_message(AppError::NotFound(s)) == s@,
        error_message(AppError::BadRequest(s)) == s@,
        error_message(AppError::Internal(s)) == s@,
        s@.is_suffix_of(error_message(AppError::Upstream(s))),
        error_message(AppError::Upstream(s)).len() == 20 + s@.len(),
        m.text().is_suffix_of(error_message(AppError::Math(m))),
        error_message(AppError::Math(m)).len() == 12 + m.text().len(),
        error_message(AppError::Db(s)) == "internal database error"@,
        error_message(AppError::Unauthorized) == "unauthorized"@,
        error_message(AppError::ChainNotConfigured)
            == "chain integration is not configured on this server"@,
{
    reveal_strlit("upstream RPC error: ");
    reveal_strlit("math error: ");
    assert("upstream RPC error: "@.len() == 20);
    assert("math error: "@.len() == 12);
}

/// The body of an error has its code and its message.
pub proof fn law_error_body_has_code_and_message(e: AppError)
    ensures
        member_of(member(error_body(e), "error"@), "code"@) == Some(json_text(error_code(e))),
        member_of(member(error_body(e), "error"@), "message"@) == Some(
            json_text(error_message(e)),
        ),
{
    reveal_strlit("code");
    reveal_strlit("message");
    assert("code"@.len() == 4);
    assert("message"@.len() == 7);
    reveal_with_fuel(first_entry, 3);
}

} // verus!
