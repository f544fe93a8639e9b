//! Plans, subscriptions and payments: what a checkout records, how long a
//! paid plan runs, and what cancelling does. Times are microseconds since
//! the Unix epoch; ids of users and subscriptions are UUID numbers.
use vstd::prelude::*;

use crate::error::{AppError, STATUS_BAD_REQUEST, STATUS_OK};
use crate::ids::{uuid_simple, uuid_simple_string};
use crate::text::{chars_of, concat};

verus! {

broadcast use vstd::string::group_string_axioms;

#[derive(Clone, Copy, Debug, PartialEq, Eq, Structural)]
pub enum BillingInterval {
    Monthly,
    Yearly,
    Lifetime,
    OneTime,
}

#[derive(Clone, Copy, Debug, PartialEq, Eq, Structural)]
pub enum SubscriptionStatus {
    Created,
    Active,
    PastDue,
    Canceled,
    Expired,
}

#[derive(Clone, Copy, Debug, PartialEq, Eq, Structural)]
pub enum PaymentStatus {
    Created,
    Authorized,
    Captured,
    Failed,
    Refunded,
}

#[derive(Clone, Copy, Debug, PartialEq, Eq, Structural)]
pub enum WebhookProcessingStatus {
    Pending,
    Processed,
    Failed,
    Ignored,
}

#[derive(Clone, Copy, Debug, PartialEq, Eq, Structural)]
pub enum TransactionStatus {
    Failed,
    Pending,
    Success,
}

/// A plan; `features` holds the plan's feature list as JSON text.
pub struct Plan {
    pub id: i32,
    pub name: String,
    pub code: String,
    pub description: Option<String>,
    pub amount: i32,
    pub currency: String,
    pub interval: BillingInterval,
    pub max_urls_limit: i32,
    pub custom_alias_allowed: bool,
    pub analytics_retention_days: i32,
    pub features: String,
    pub is_active: bool,
    pub created_at: i64,
    pub updated_at: i64,
}

pub struct NewPlan {
    pub name: String,
    pub code: String,
    pub description: Option<String>,
    pub amount: i32,
    pub currency: String,
    pub interval: BillingInterval,
    pub max_urls_limit: i32,
    pub custom_alias_allowed: bool,
    pub analytics_retention_days: i32,
    pub features: String,
    pub is_active: bool,
}

pub struct UserSubscription {
    pub id: u128,
    pub user_id: u128,
    pub plan_id: i32,
    pub status: SubscriptionStatus,
    pub razorpay_subscription_id: Option<String>,
    pub razorpay_customer_id: Option<String>,
    pub current_period_start: Option<i64>,
    pub current_period_end: Option<i64>,
    pub cancel_at_period_end: bool,
    pub canceled_at: Option<i64>,
    pub created_at: i64,
    pub updated_at: i64,
}

pub struct NewUserSubscription {
    pub user_id: u128,
    pub plan_id: i32,
    pub status: SubscriptionStatus,
    pub razorpay_subscription_id: Option<String>,
    pub razorpay_customer_id: Option<String>,
    pub current_period_start: Option<i64>,
    pub current_period_end: Option<i64>,
    pub cancel_at_period_end: bool,
}

pub struct Payment {
    pub id: u128,
    pub user_id: u128,
    pub plan_id: i32,
    pub subscription_id: Option<u128>,
    pub amount: i32,
    pub currency: String,
    pub status: PaymentStatus,
    pub razorpay_order_id: String,
    pub razorpay_payment_id: Option<String>,
    pub razorpay_signature: Option<String>,
    pub error_code: Option<String>,
    pub error_description: Option<String>,
    pub created_at: i64,
    pub updated_at: i64,
}

pub struct NewPayment {
    pub user_id: u128,
    pub plan_id: i32,
    pub subscription_id: Option<u128>,
    pub amount: i32,
    pub currency: String,
    pub status: PaymentStatus,
    pub razorpay_order_id: String,
    pub razorpay_payment_id: Option<String>,
    pub razorpay_signature: Option<String>,
}

/// A webhook event; `payload` holds the event as JSON text.
pub struct WebhookEvent {
    pub id: u128,
    pub event_id: String,
    pub event_type: String,
    pub status: WebhookProcessingStatus,
    pub payload: String,
    pub error_log: Option<String>,
    pub processed_at: Option<i64>,
    pub created_at: i64,
}

pub struct NewWebhookEvent {
    pub event_id: String,
    pub event_type: String,
    pub status: WebhookProcessingStatus,
    pub payload: String,
}

pub struct Transactions {
    pub id: u128,
    pub amount: i32,
    pub status: TransactionStatus,
    pub user_id: u128,
    pub timestamp: i64,
    pub reference_id: Option<u128>,
    pub currency_code: String,
}

pub struct CreateOrderPayload {
    pub plan_id: i32,
}

pub struct CreateOrderResponse {
    pub order_id: String,
    pub amount: i32,
    pub currency: String,
    pub razorpay_key_id: String,
    pub plan_id: i32,
    pub plan_name: String,
}

pub struct VerifyPaymentPayload {
    pub razorpay_order_id: String,
    pub razorpay_payment_id: String,
    pub razorpay_signature: String,
}

pub struct VerifyPaymentResponse {
    pub success: bool,
    pub message: String,
    pub payment: Payment,
    pub subscription: UserSubscription,
}

pub struct UserSubscriptionResponse {
    pub subscription: Option<UserSubscription>,
    pub plan: Plan,
    pub is_active: bool,
}

/// A failure reported by the payment provider.
pub enum BillingError {
    NotFound(String),
    Provider(String),
}

impl BillingError {
    /// The description of the failure.
    pub fn description(&self) -> (d: String)
        ensures
            d@ == match self {
                BillingError::NotFound(m) => "payment not found: "@ + m@,
                BillingError::Provider(m) => "razorpay error: "@ + m@,
            },
    {
        match self {
            BillingError::NotFound(m) => concat("payment not found: ", m.as_str()),
            BillingError::Provider(m) => concat("razorpay error: ", m.as_str()),
        }
    }
}

/// The code of the plan every user without a subscription is on.
pub open spec fn free_plan_code() -> Seq<char> {
    "plan_free"@
}

/// The id of the plan used when the free plan cannot be found by its code.
pub const FALLBACK_PLAN_ID: i32 = 1;

/// Where the plan that governs a user comes from.
pub enum PlanSource {
    /// The plan of the user's active subscription.
    Subscription(i32),
    /// The free plan, found by its code, else by `FALLBACK_PLAN_ID`.
    Free,
}

/// The plan that governs a user with the given active subscription.
pub fn plan_source(active: &Option<UserSubscription>) -> (p: PlanSource)
    ensures
        match active {
            Some(sub) => p == PlanSource::Subscription(sub.plan_id),
            None => p == PlanSource::Free,
        },
{
    match active {
        Some(sub) => PlanSource::Subscription(sub.plan_id),
        None => PlanSource::Free,
    }
}

/// The free plan's code.
pub fn free_plan_code_str() -> (s: &'static str)
    ensures
        s@ == free_plan_code(),
{
    "plan_free"
}

/// A user's subscription as shown to them: active exactly when there is an
/// active subscription.
pub fn subscription_summary(active: Option<UserSubscription>, plan: Plan) -> (r: UserSubscriptionResponse)
    ensures
        r.is_active == active is Some,
        r.subscription == active,
        r.plan == plan,
{
    let is_active = active.is_some();
    UserSubscriptionResponse { subscription: active, plan, is_active }
}

pub const MICROS_PER_DAY: i64 = 86_400_000_000;

/// When a plan bought at `start` runs out: monthly and one-time plans after 30
/// days, yearly plans after 365 days, lifetime plans never.
pub open spec fn period_end(interval: BillingInterval, start: int) -> Option<int> {
    match interval {
        BillingInterval::Monthly => Some(start + 30 * MICROS_PER_DAY),
        BillingInterval::Yearly => Some(start + 365 * MICROS_PER_DAY),
        BillingInterval::Lifetime => None,
        BillingInterval::OneTime => Some(start + 30 * MICROS_PER_DAY),
    }
}

/// When a plan bought at `start` runs out.
pub fn subscription_period_end(interval: BillingInterval, start: i64) -> (end: Option<i64>)
    requires
        start + 365 * MICROS_PER_DAY <= i64::MAX,
    ensures
        match end {
            Some(e) => period_end(interval, start as int) == Some(e as int),
            None => period_end(interval, start as int) is None,
        },
{
    match interval {
        BillingInterval::Monthly => Some(start + 30 * MICROS_PER_DAY),
        BillingInterval::Yearly => Some(start + 365 * MICROS_PER_DAY),
        BillingInterval::Lifetime => None,
        BillingInterval::OneTime => Some(start + 30 * MICROS_PER_DAY),
    }
}

/// The subscription a verified payment for `plan` at `start` opens: active,
/// from `start` for the plan's period, not set to end early.
pub fn subscription_after_payment(user_id: u128, plan: &Plan, start: i64) -> (s: NewUserSubscription)
    requires
        start + 365 * MICROS_PER_DAY <= i64::MAX,
    ensures
        s.user_id == user_id,
        s.plan_id == plan.id,
        s.status == SubscriptionStatus::Active,
        s.razorpay_subscription_id is None,
        s.razorpay_customer_id is None,
        s.current_period_start == Some(start),
        match s.current_period_end {
            Some(e) => period_end(plan.interval, start as int) == Some(e as int),
            None => period_end(plan.interval, start as int) is None,
        },
        !s.cancel_at_period_end,
{
    NewUserSubscription {
        user_id,
        plan_id: plan.id,
        status: SubscriptionStatus::Active,
        razorpay_subscription_id: None,
        razorpay_customer_id: None,
        current_period_start: Some(start),
        current_period_end: subscription_period_end(plan.interval, start),
        cancel_at_period_end: false,
    }
}

/// The status a cancelled subscription is left in: cancelling at the end of
/// the period keeps it active until then.
pub fn cancellation_status(at_period_end: bool) -> (s: SubscriptionStatus)
    ensures
        s == if at_period_end { SubscriptionStatus::Active } else { SubscriptionStatus::Canceled },
{
    if at_period_end {
        SubscriptionStatus::Active
    } else {
        SubscriptionStatus::Canceled
    }
}

/// The status the periodic reconciliation gives a subscription at `now`: an
/// active subscription set to end with its period is cancelled once the
/// period has ended; every other subscription keeps its status.
pub open spec fn reconciled(status: SubscriptionStatus, cancel_at_period_end: bool, period_end: Option<i64>, now: i64) -> SubscriptionStatus {
    if status == SubscriptionStatus::Active && cancel_at_period_end && (period_end matches Some(e)
        && e < now) {
        SubscriptionStatus::Canceled
    } else {
        status
    }
}

/// The status the periodic reconciliation gives `sub` at `now`.
pub fn reconciled_status(sub: &UserSubscription, now: i64) -> (s: SubscriptionStatus)
    ensures
        s == reconciled(sub.status, sub.cancel_at_period_end, sub.current_period_end, now),
{
    if sub.status == SubscriptionStatus::Active && sub.cancel_at_period_end {
        match sub.current_period_end {
            Some(e) => if e < now {
                return SubscriptionStatus::Canceled;
            },
            None => {},
        }
    }
    sub.status
}

/// Only the user who started a payment may verify it.
pub fn ensure_payment_owner(payment_user: u128, user_id: u128) -> (r: Result<(), AppError>)
    ensures
        payment_user == user_id <==> r is Ok,
        r matches Err(e) ==> e matches AppError::Forbidden(m)
            && m@ == "Unauthorized payment verification"@,
{
    if payment_user != user_id {
        return Err(AppError::Forbidden("Unauthorized payment verification".to_string()));
    }
    Ok(())
}

/// The receipt number of a new order: `rcpt_` and a fresh UUID in simple form.
pub fn receipt_for(fresh: u128) -> (s: String)
    ensures
        s@ == "rcpt_"@ + uuid_simple(fresh),
{
    let id = uuid_simple_string(fresh);
    concat("rcpt_", id.as_str())
}

/// What the payment provider is asked for when a checkout starts.
pub struct OrderRequest {
    /// The amount in the currency's smallest unit.
    pub amount: u64,
    pub currency: String,
    pub receipt: Option<String>,
    pub partial_payment: Option<bool>,
}

/// The order a checkout for `plan` asks the provider for: the plan's amount
/// (as the provider's unsigned amount) and currency, a fresh receipt, and no
/// partial payment.
pub fn order_request(plan: &Plan, fresh: u128) -> (r: OrderRequest)
    ensures
        r.amount == plan.amount as u64,
        r.currency == plan.currency,
        r.receipt matches Some(rc) && rc@ == "rcpt_"@ + uuid_simple(fresh),
        r.partial_payment == Some(false),
{
    OrderRequest {
        amount: plan.amount as u64,
        currency: plan.currency.clone(),
        receipt: Some(receipt_for(fresh)),
        partial_payment: Some(false),
    }
}

/// Whether `key` is a Razorpay test key (it starts with `rzp_test`).
pub open spec fn is_test_key(key: Seq<char>) -> bool {
    key.len() >= 8 && key.subrange(0, 8) == "rzp_test"@
}

/// Whether `key` starts with `rzp_test`.
pub fn starts_with_test_prefix(key: &str) -> (b: bool)
    ensures
        b == is_test_key(key@),
{
    let k = chars_of(key);
    let p = chars_of("rzp_test");
    if k.len() < p.len() {
        return false;
    }
    proof {
        reveal_strlit("rzp_test");
    }
    let head = crate::text::sub_chars(k.as_slice(), 0, p.len());
    crate::text::chars_eq(head.as_slice(), p.as_slice())
}

/// The order id of a checkout: the provider's, or, where the provider failed
/// and the key is a test key, a development order id `order_<uuid>`; with a
/// live key the provider's failure is the answer.
pub fn checkout_order_id(gateway: Result<String, BillingError>, key_id: &str, fresh: u128) -> (r: Result<String, AppError>)
    ensures
        gateway matches Ok(id) ==> r == Ok::<String, AppError>(id),
        gateway is Err && is_test_key(key_id@) ==> (r matches Ok(id) && id@ == "order_"@
            + uuid_simple(fresh)),
        gateway is Err && !is_test_key(key_id@) ==> (r matches Err(AppError::Internal(m))
            && m@ == match gateway->Err_0 {
                BillingError::NotFound(m) => "payment not found: "@ + m@,
                BillingError::Provider(m) => "razorpay error: "@ + m@,
            }),
{
    match gateway {
        Ok(id) => Ok(id),
        Err(e) => {
            if starts_with_test_prefix(key_id) {
                let id = uuid_simple_string(fresh);
                Ok(concat("order_", id.as_str()))
            } else {
                Err(AppError::Internal(e.description()))
            }
        },
    }
}

/// The payment a checkout records before the customer pays.
pub fn checkout_payment(user_id: u128, plan: &Plan, order_id: String) -> (p: NewPayment)
    ensures
        p.user_id == user_id,
        p.plan_id == plan.id,
        p.subscription_id is None,
        p.amount == plan.amount,
        p.currency == plan.currency,
        p.status == PaymentStatus::Created,
        p.razorpay_order_id == order_id,
        p.razorpay_payment_id is None,
        p.razorpay_signature is None,
{
    NewPayment {
        user_id,
        plan_id: plan.id,
        subscription_id: None,
        amount: plan.amount,
        currency: plan.currency.clone(),
        status: PaymentStatus::Created,
        razorpay_order_id: order_id,
        razorpay_payment_id: None,
        razorpay_signature: None,
    }
}

/// What the client needs to pay an order.
pub fn order_response(order_id: String, plan: Plan, key_id: String) -> (r: CreateOrderResponse)
    ensures
        r.order_id == order_id,
        r.amount == plan.amount,
        r.currency == plan.currency,
        r.razorpay_key_id == key_id,
        r.plan_id == plan.id,
        r.plan_name == plan.name,
{
    CreateOrderResponse {
        order_id,
        amount: plan.amount,
        currency: plan.currency,
        razorpay_key_id: key_id,
        plan_id: plan.id,
        plan_name: plan.name,
    }
}

/// The error code recorded on a payment whose signature does not verify.
pub open spec fn signature_failure_code() -> Seq<char> {
    "SIGNATURE_VERIFICATION_FAILED"@
}

/// The error code recorded on a payment whose signature does not verify.
pub fn signature_failure_code_str() -> (s: &'static str)
    ensures
        s@ == signature_failure_code(),
{
    "SIGNATURE_VERIFICATION_FAILED"
}

/// The refusal of a payment whose signature does not verify.
pub fn invalid_signature_error() -> (e: AppError)
    ensures
        e matches AppError::BadRequest(m) && m@ == "Invalid payment signature"@,
{
    AppError::BadRequest("Invalid payment signature".to_string())
}

/// The answer to a verified payment.
pub fn payment_verified(payment: Payment, subscription: UserSubscription) -> (r: VerifyPaymentResponse)
    ensures
        r.success,
        r.message@ == "Payment verified and plan activated successfully"@,
        r.payment == payment,
        r.subscription == subscription,
{
    VerifyPaymentResponse {
        success: true,
        message: "Payment verified and plan activated successfully".to_string(),
        payment,
        subscription,
    }
}

/// Cancelling needs an active subscription.
pub fn subscription_to_cancel(active: Option<UserSubscription>) -> (r: Result<UserSubscription, AppError>)
    ensures
        match active {
            Some(s) => r == Ok::<UserSubscription, AppError>(s),
            None => r matches Err(AppError::BadRequest(m))
                && m@ == "No active subscription found to cancel"@,
        },
{
    match active {
        Some(s) => Ok(s),
        None => Err(AppError::BadRequest("No active subscription found to cancel".to_string())),
    }
}

/// The message of a successful cancellation.
pub fn cancellation_message() -> (s: &'static str)
    ensures
        s@ == "Subscription cancelled. Access remains active until the end of the current billing cycle."@,
{
    "Subscription cancelled. Access remains active until the end of the current billing cycle."
}

/// The signature Razorpay's checkout gives a genuine payment: the lowercase hex
/// HMAC-SHA256, keyed with the API key secret, of `order_id|payment_id`.
pub uninterp spec fn payment_signature_expected(order_id: Seq<char>, payment_id: Seq<char>, secret: Seq<char>) -> Seq<char>;

/// The signature Razorpay sends with a genuine webhook: the lowercase hex
/// HMAC-SHA256 of the raw body, keyed with the webhook secret.
pub uninterp spec fn webhook_signature_expected(body: Seq<char>, secret: Seq<char>) -> Seq<char>;

/// What the gateway's signature-mismatch error says of itself.
pub open spec fn signature_mismatch_text() -> Seq<char> {
    "webhook/payment signature did not match"@
}

/// `razorpay::webhooks::verify_payment_signature`: succeeds exactly when
/// `signature` is the expected checkout signature (the HMAC key may have any
/// length, so the only error is the mismatch); the error is given as its text.
#[verifier::external_body]
fn razorpay_verify_payment_signature(order_id: &str, payment_id: &str, signature: &str, secret: &str) -> (r: Result<(), String>)
    ensures
        r is Ok <==> signature@ == payment_signature_expected(order_id@, payment_id@, secret@),
        r matches Err(m) ==> m@ == signature_mismatch_text(),
{
    razorpay::webhooks::verify_payment_signature(order_id, payment_id, signature, secret).map_err(|e| e.to_string())
}

/// `razorpay::webhooks::verify_webhook_signature`: succeeds exactly when
/// `signature` is the expected signature of `body`.
#[verifier::external_body]
fn razorpay_verify_webhook_signature(body: &str, signature: &str, secret: &str) -> (r: Result<(), String>)
    ensures
        r is Ok <==> signature@ == webhook_signature_expected(body@, secret@),
        r matches Err(m) ==> m@ == signature_mismatch_text(),
{
    razorpay::webhooks::verify_webhook_signature(body, signature, secret).map_err(|e| e.to_string())
}

/// Checks the signature a client returns after checkout. On a mismatch the
/// error is the reason recorded on the failed payment.
pub fn check_payment_signature(payload: &VerifyPaymentPayload, key_secret: &str) -> (r: Result<(), String>)
    ensures
        r is Ok <==> payload.razorpay_signature@ == payment_signature_expected(
            payload.razorpay_order_id@,
            payload.razorpay_payment_id@,
            key_secret@,
        ),
        r matches Err(reason) ==> reason@ == signature_mismatch_text(),
{
    razorpay_verify_payment_signature(
        payload.razorpay_order_id.as_str(),
        payload.razorpay_payment_id.as_str(),
        payload.razorpay_signature.as_str(),
        key_secret,
    )
}

/// The status a webhook call is answered with: 400 where the event id, the
/// signature or a UTF-8 body is missing, or the signature does not match the
/// body; 200 where the event is accepted for processing.
pub fn webhook_status(event_id: Option<&str>, signature: Option<&str>, body: Option<&str>, secret: &str) -> (status: u16)
    ensures
        status == match (event_id, signature, body) {
            (Some(_), Some(sig), Some(b)) => if sig@ == webhook_signature_expected(b@, secret@) {
                STATUS_OK
            } else {
                STATUS_BAD_REQUEST
            },
            _ => STATUS_BAD_REQUEST,
        },
{
    if !webhook_request_complete(event_id, signature, body.is_some()) {
        return STATUS_BAD_REQUEST;
    }
    match (signature, body) {
        (Some(sig), Some(b)) => match razorpay_verify_webhook_signature(b, sig, secret) {
            Ok(()) => STATUS_OK,
            Err(_) => STATUS_BAD_REQUEST,
        },
        _ => STATUS_BAD_REQUEST,
    }
}

/// Whether a webhook call carries what it needs to be checked: an event id, a
/// signature and a UTF-8 body; otherwise it is answered with 400.
pub fn webhook_request_complete(event_id: Option<&str>, signature: Option<&str>, body_is_utf8: bool) -> (b: bool)
    ensures
        b == (event_id is Some && signature is Some && body_is_utf8),
{
    event_id.is_some() && signature.is_some() && body_is_utf8
}

} // verus!
