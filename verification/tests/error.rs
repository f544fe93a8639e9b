use logpose::error::AppError;
use logpose::rate_limiting::RateLimitError;

#[test]
fn test_app_error_status_codes() {
    let not_found_res = AppError::NotFound("URL not found".into()).into_response_parts();
    assert_eq!(not_found_res.0, 404);

    let unauthorized_res = AppError::Unauthorized.into_response_parts();
    assert_eq!(unauthorized_res.0, 401);

    let forbidden_res = AppError::Forbidden("Denied".into()).into_response_parts();
    assert_eq!(forbidden_res.0, 403);

    let bad_req_res = AppError::BadRequest("Invalid payload".into()).into_response_parts();
    assert_eq!(bad_req_res.0, 400);

    let internal_res = AppError::Internal("Something broke".into()).into_response_parts();
    assert_eq!(internal_res.0, 500);
}

#[test]
fn internal_failures_are_not_disclosed() {
    let (status, body) = AppError::Database("connection reset".into()).into_response_parts();
    assert_eq!(status, 500);
    assert_eq!(body.error, "Database error");
    let (status, body) = AppError::Pool("timeout".into()).into_response_parts();
    assert_eq!(status, 500);
    assert_eq!(body.error, "Service temporarily unavailable");
    let (status, body) = AppError::Redis("down".into()).into_response_parts();
    assert_eq!(status, 500);
    assert_eq!(body.error, "Cache error");
    let (status, body) = AppError::Jwt("expired".into()).into_response_parts();
    assert_eq!(status, 401);
    assert_eq!(body.error, "Invalid authentication token");
    let (_, body) = AppError::Unauthorized.into_response_parts();
    assert_eq!(body.error, "Unauthorized access");
    let (status, body) =
        AppError::RateLimitError(RateLimitError { msg: "slow down".into() }).into_response_parts();
    assert_eq!(status, 429);
    assert_eq!(body.error, "slow down");
}

#[test]
fn descriptions_name_the_kind_of_failure() {
    assert_eq!(AppError::NotFound("x".into()).description(), "Not found: x");
    assert_eq!(AppError::Database("e".into()).description(), "Database error: e");
    assert_eq!(AppError::Unauthorized.description(), "Unauthorized");
    assert_eq!(AppError::BadRequest("b".into()).description(), "Bad request: b");
    assert_eq!(
        AppError::from(RateLimitError { msg: "m".into() }).description(),
        "Rate limit error m"
    );
}
