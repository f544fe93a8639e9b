use logpose::billing::{BillingError, BillingInterval, PaymentStatus, Plan, SubscriptionStatus, UserSubscription, cancellation_status, checkout_order_id, checkout_payment, order_request, ensure_payment_owner, order_response, receipt_for, reconciled_status, signature_failure_code_str, starts_with_test_prefix, subscription_after_payment, subscription_period_end, subscription_summary, subscription_to_cancel, webhook_request_complete, check_payment_signature, webhook_status, VerifyPaymentPayload};
use logpose::error::AppError;

fn plan(interval: BillingInterval) -> Plan {
    Plan {
        id: 3,
        name: "Pro".into(),
        code: "plan_pro".into(),
        description: None,
        amount: 49900,
        currency: "INR".into(),
        interval,
        max_urls_limit: 2,
        custom_alias_allowed: true,
        analytics_retention_days: 90,
        features: "[]".into(),
        is_active: true,
        created_at: 0,
        updated_at: 0,
    }
}

const DAY: i64 = 86_400_000_000;

#[test]
fn plan_periods() {
    assert_eq!(subscription_period_end(BillingInterval::Monthly, 10), Some(10 + 30 * DAY));
    assert_eq!(subscription_period_end(BillingInterval::Yearly, 10), Some(10 + 365 * DAY));
    assert_eq!(subscription_period_end(BillingInterval::OneTime, 0), Some(30 * DAY));
    assert_eq!(subscription_period_end(BillingInterval::Lifetime, 0), None);
    let s = subscription_after_payment(9, &plan(BillingInterval::Yearly), 5);
    assert_eq!(s.status, SubscriptionStatus::Active);
    assert_eq!(s.current_period_start, Some(5));
    assert_eq!(s.current_period_end, Some(5 + 365 * DAY));
    assert!(!s.cancel_at_period_end);
}

#[test]
fn cancelling_and_reconciling() {
    assert_eq!(cancellation_status(true), SubscriptionStatus::Active);
    assert_eq!(cancellation_status(false), SubscriptionStatus::Canceled);
    let mut sub = UserSubscription {
        id: 1,
        user_id: 2,
        plan_id: 3,
        status: SubscriptionStatus::Active,
        razorpay_subscription_id: None,
        razorpay_customer_id: None,
        current_period_start: Some(0),
        current_period_end: Some(100),
        cancel_at_period_end: true,
        canceled_at: None,
        created_at: 0,
        updated_at: 0,
    };
    assert_eq!(reconciled_status(&sub, 50), SubscriptionStatus::Active);
    assert_eq!(reconciled_status(&sub, 101), SubscriptionStatus::Canceled);
    sub.cancel_at_period_end = false;
    assert_eq!(reconciled_status(&sub, 101), SubscriptionStatus::Active);
    match subscription_to_cancel(None) {
        Err(AppError::BadRequest(m)) => assert_eq!(m, "No active subscription found to cancel"),
        _ => panic!("expected a bad request"),
    }
}

#[test]
fn checkout_order_ids() {
    let ok = checkout_order_id(Ok("order_live".into()), "rzp_live_1", 1);
    assert_eq!(ok.ok().unwrap(), "order_live");
    let dev = checkout_order_id(Err(BillingError::Provider("down".into())), "rzp_test_abc", 0xff);
    assert_eq!(dev.ok().unwrap(), "order_000000000000000000000000000000ff");
    match checkout_order_id(Err(BillingError::Provider("down".into())), "rzp_live_1", 1) {
        Err(AppError::Internal(m)) => assert_eq!(m, "razorpay error: down"),
        _ => panic!("expected an internal error"),
    }
    assert_eq!(receipt_for(1), "rcpt_00000000000000000000000000000001");
    assert!(starts_with_test_prefix("rzp_test"));
    assert!(!starts_with_test_prefix("rzp_tes"));
}

#[test]
fn payments_and_answers() {
    let p = checkout_payment(7, &plan(BillingInterval::Monthly), "order_1".into());
    assert_eq!(p.status, PaymentStatus::Created);
    assert_eq!(p.amount, 49900);
    assert_eq!(p.razorpay_order_id, "order_1");
    assert!(ensure_payment_owner(7, 7).is_ok());
    assert!(ensure_payment_owner(7, 8).is_err());
    let r = order_response("order_1".into(), plan(BillingInterval::Monthly), "key".into());
    assert_eq!(r.plan_name, "Pro");
    let summary = subscription_summary(None, plan(BillingInterval::Monthly));
    assert!(!summary.is_active);
    assert!(webhook_request_complete(Some("e"), Some("s"), true));
    assert!(!webhook_request_complete(None, Some("s"), true));
    assert!(!webhook_request_complete(Some("e"), Some("s"), false));
    assert_eq!(signature_failure_code_str(), "SIGNATURE_VERIFICATION_FAILED");
    assert_eq!(
        BillingError::NotFound("pay_1".into()).description(),
        "payment not found: pay_1"
    );
}

fn payload(signature: &str) -> VerifyPaymentPayload {
    VerifyPaymentPayload {
        razorpay_order_id: "order_ABC".to_string(),
        razorpay_payment_id: "pay_XYZ".to_string(),
        razorpay_signature: signature.to_string(),
    }
}

#[test]
fn checkout_signatures() {
    // HMAC-SHA256 of "order_ABC|pay_XYZ" under "test_secret", in hex.
    let good = "15656b40fea6f2159b578efa459e969de9f5e223fb8a08393e274ac578d9d005";
    assert_eq!(check_payment_signature(&payload(good), "test_secret"), Ok(()));
    assert_eq!(
        check_payment_signature(&payload(good), "other_secret"),
        Err("webhook/payment signature did not match".to_string())
    );
    assert_eq!(
        check_payment_signature(&payload("deadbeef"), "test_secret"),
        Err("webhook/payment signature did not match".to_string())
    );
}

#[test]
fn webhook_answers() {
    let body = "{\"event\":\"payment.captured\"}";
    let sig = "4673dd707ef4c41b987cb7fefe1583142dc702388c93145b7814b9ad3d3c183e";
    assert_eq!(webhook_status(Some("evt_1"), Some(sig), Some(body), "whsec"), 200);
    assert_eq!(webhook_status(Some("evt_1"), Some(sig), Some(body), "other"), 400);
    assert_eq!(webhook_status(None, Some(sig), Some(body), "whsec"), 400);
    assert_eq!(webhook_status(Some("evt_1"), None, Some(body), "whsec"), 400);
    assert_eq!(webhook_status(Some("evt_1"), Some(sig), None, "whsec"), 400);
}

#[test]
fn the_provider_is_asked_for_the_plan_amount() {
    let p = plan(BillingInterval::Monthly);
    let o = order_request(&p, 0xabc);
    assert_eq!(o.amount, p.amount as u64);
    assert_eq!(o.currency, p.currency);
    assert_eq!(o.receipt.as_deref(), Some("rcpt_00000000000000000000000000000abc"));
    assert_eq!(o.partial_payment, Some(false));
}
