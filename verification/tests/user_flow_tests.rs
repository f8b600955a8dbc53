use mento_core::auth::{
    issue_login_tokens,
    refresh_access_token,
    resend_otp_request,
    send_otp_request,
    RefreshTokenDto,
    ResendOtpDto,
    SendOtpDto,
};
use mento_core::config::Config;
use mento_core::errors::{
    ApiError,
    ApiResponse,
    STATUS_BAD_REQUEST,
    STATUS_TOO_MANY_REQUESTS,
    STATUS_UNAUTHORIZED,
};
use mento_core::kyc::{DocumentType, KycBook, KycStatusEnum, SubmitKycDto, UpdateKycStatusDto};
use mento_core::ratelimit::RateLimiter;
use mento_core::token::JwtService;
use mento_core::users::{
    apply_profile_update,
    deactivate_user,
    login_user,
    register_user,
    update_fcm_token,
    KycStatus,
    UpdateFcmTokenDto,
    UpdateProfileDto,
    User,
    UserResponse,
};

const UF_OID: &[u8] = b"0123456789abcdef01234567";
const UF_ADMIN: &[u8] = b"aaaaaaaaaaaaaaaaaaaaaaaa";

fn flow_config() -> Config {
    Config::new(
        b"access-secret".to_vec(),
        b"refresh-secret".to_vec(),
        900,
        604800,
        b"gateway-secret".to_vec(),
    )
}

fn stored_user() -> User {
    let mut u = register_user(b"9876543210".to_vec(), 1000);
    u.id = Some(UF_OID.to_vec());
    u
}

fn empty_profile_update() -> UpdateProfileDto {
    UpdateProfileDto { name: None, email: None, city: None, pincode: None, profile_photo: None }
}

fn kyc_dto() -> SubmitKycDto {
    SubmitKycDto {
        full_name: "Asha Patel".to_string(),
        date_of_birth: b"1990-05-17".to_vec(),
        address: "12 Ring Road".to_string(),
        city: "Surat".to_string(),
        state: "Gujarat".to_string(),
        pincode: b"395007".to_vec(),
        document_type: DocumentType::Aadhaar,
        document_number: "XXXX-1234".to_string(),
        document_front_image: "/uploads/front.jpg".to_string(),
        document_back_image: None,
        selfie_image: "/uploads/selfie.jpg".to_string(),
    }
}

fn kyc_record_id(n: u8) -> Vec<u8> {
    let mut id = b"bbbbbbbbbbbbbbbbbbbbbbb".to_vec();
    id.push(b'0' + n);
    id
}

#[test]
fn registration_initializes_the_identity() {
    let u = register_user(b"9876543210".to_vec(), 42);
    assert!(u.id.is_none());
    assert!(matches!(u.kyc_status, KycStatus::Pending));
    assert!(u.is_active);
    assert_eq!(u.created_at, 42);
}

#[test]
fn login_stamps_the_time() {
    let mut u = stored_user();
    login_user(&mut u, 777);
    assert_eq!(u.last_login_at, 777);
}

#[test]
fn profile_updates_validate_before_changing_anything() {
    let mut u = stored_user();
    let mut dto = empty_profile_update();
    dto.name = Some("Asha".to_string());
    dto.email = Some(b"not-an-email".to_vec());
    let err = apply_profile_update(&mut u, dto, 5000).unwrap_err();
    assert_eq!(err.status, STATUS_BAD_REQUEST);
    assert!(u.name.is_none());

    let mut dto = empty_profile_update();
    dto.pincode = Some(b"12".to_vec());
    assert!(apply_profile_update(&mut u, dto, 5000).is_err());

    let mut dto = empty_profile_update();
    dto.name = Some("Asha".to_string());
    dto.email = Some(b"asha@example.co".to_vec());
    dto.pincode = Some(b"395007".to_vec());
    apply_profile_update(&mut u, dto, 5000).unwrap();
    assert_eq!(u.name, Some("Asha".to_string()));
    assert_eq!(u.email, Some(b"asha@example.co".to_vec()));
    assert_eq!(u.updated_at, 5000);
}

#[test]
fn fcm_tokens_are_stored_per_platform() {
    let mut u = stored_user();
    update_fcm_token(
        &mut u,
        UpdateFcmTokenDto { token: "android-token".to_string(), platform: b"android".to_vec() },
    )
    .unwrap();
    update_fcm_token(
        &mut u,
        UpdateFcmTokenDto { token: "ios-token".to_string(), platform: b"ios".to_vec() },
    )
    .unwrap();
    let fcm = u.fcm_token.as_ref().unwrap();
    assert_eq!(fcm.android, Some("android-token".to_string()));
    assert_eq!(fcm.ios, Some("ios-token".to_string()));
    let err = update_fcm_token(
        &mut u,
        UpdateFcmTokenDto { token: "x".to_string(), platform: b"web".to_vec() },
    )
    .unwrap_err();
    assert_eq!(err.status, STATUS_BAD_REQUEST);
}

#[test]
fn deactivation_is_a_soft_delete() {
    let mut u = stored_user();
    deactivate_user(&mut u);
    assert!(!u.is_active);
    assert!(u.id.is_some());
}

#[test]
fn user_response_mirrors_the_record() {
    let u = stored_user();
    let r = UserResponse::from_user(u);
    assert_eq!(r.id, UF_OID.to_vec());
    assert_eq!(r.mobile, b"9876543210".to_vec());
    assert!(matches!(r.kyc_status, KycStatus::Pending));
}

#[test]
fn kyc_submission_and_decision_flow() {
    let mut book = KycBook::new();
    let mut u = stored_user();
    book.submit(&mut u, kyc_record_id(1), UF_OID.to_vec(), kyc_dto(), 9000).unwrap();
    assert!(matches!(u.kyc_status, KycStatus::Submitted));
    assert!(matches!(book.kycs[0].status, KycStatusEnum::Submitted));
    // 1990-05-17 at midnight UTC
    assert_eq!(book.kycs[0].date_of_birth, 642_902_400_000);

    // a second submission while one is in flight is refused
    let err = book
        .submit(&mut u, kyc_record_id(2), UF_OID.to_vec(), kyc_dto(), 9100)
        .unwrap_err();
    assert_eq!(err.status, STATUS_BAD_REQUEST);

    // rejection mirrors onto the user
    let dto = UpdateKycStatusDto {
        status: b"rejected".to_vec(),
        rejection_reason: Some("blurry document".to_string()),
    };
    let (owner, status) = book.decide(&kyc_record_id(1), dto, UF_ADMIN.to_vec(), 9200).unwrap();
    assert_eq!(owner, UF_OID.to_vec());
    assert!(matches!(status, KycStatus::Rejected));
    assert!(matches!(book.kycs[0].status, KycStatusEnum::Rejected));
    assert_eq!(book.kycs[0].rejection_reason, Some("blurry document".to_string()));

    // after a rejection the user may resubmit; the old record is replaced
    book.submit(&mut u, kyc_record_id(3), UF_OID.to_vec(), kyc_dto(), 9300).unwrap();
    assert_eq!(book.kycs.len(), 1);
    assert_eq!(book.kycs[0].id, kyc_record_id(3));

    // approval mirrors onto the user too
    let dto = UpdateKycStatusDto { status: b"approved".to_vec(), rejection_reason: None };
    let (_, status) = book.decide(&kyc_record_id(3), dto, UF_ADMIN.to_vec(), 9400).unwrap();
    assert!(matches!(status, KycStatus::Approved));
}

#[test]
fn kyc_rejects_bad_dates_and_statuses() {
    let mut book = KycBook::new();
    let mut u = stored_user();
    let mut dto = kyc_dto();
    dto.date_of_birth = b"1990-02-30".to_vec();
    let err = book.submit(&mut u, kyc_record_id(1), UF_OID.to_vec(), dto, 0).unwrap_err();
    assert_eq!(err.status, STATUS_BAD_REQUEST);
    assert!(matches!(u.kyc_status, KycStatus::Pending));

    book.submit(&mut u, kyc_record_id(1), UF_OID.to_vec(), kyc_dto(), 0).unwrap();
    let bad = UpdateKycStatusDto { status: b"maybe".to_vec(), rejection_reason: None };
    let err = book.decide(&kyc_record_id(1), bad, UF_ADMIN.to_vec(), 0).unwrap_err();
    assert_eq!(err.status, STATUS_BAD_REQUEST);
}

#[test]
fn otp_requests_validate_and_rate_limit() {
    let mut limiter = RateLimiter::new(3, 600_000);
    let bad = SendOtpDto { mobile: b"12345".to_vec(), email: b"a@b.co".to_vec() };
    assert_eq!(send_otp_request(&mut limiter, &bad, 0).unwrap_err().status, STATUS_BAD_REQUEST);
    let bad_email = SendOtpDto { mobile: b"9876543210".to_vec(), email: b"nope".to_vec() };
    assert_eq!(
        send_otp_request(&mut limiter, &bad_email, 0).unwrap_err().status,
        STATUS_BAD_REQUEST
    );
    let good = SendOtpDto { mobile: b"9876543210".to_vec(), email: b"a@b.co".to_vec() };
    assert!(send_otp_request(&mut limiter, &good, 0).is_ok());
    assert!(send_otp_request(&mut limiter, &good, 1).is_ok());
    let resend = ResendOtpDto { mobile: b"9876543210".to_vec(), email: b"a@b.co".to_vec() };
    assert!(resend_otp_request(&mut limiter, &resend, 2).is_ok());
    // the same key backs send and resend, so the fourth try is blocked
    assert_eq!(
        send_otp_request(&mut limiter, &good, 3).unwrap_err().status,
        STATUS_TOO_MANY_REQUESTS
    );
}

#[test]
fn silent_refresh_issues_a_working_access_token() {
    let config = flow_config();
    let mut limiter = RateLimiter::new(10, 60_000);
    let user = stored_user();
    let now: i64 = 1_700_000_000;
    let tokens = issue_login_tokens(&config, &user, now);
    assert!(JwtService::verify_token(&tokens.access_token, false, &config, now).is_some());

    let dto = RefreshTokenDto { refresh_token: tokens.refresh_token };
    let access = refresh_access_token(&mut limiter, &config, &dto, now + 5).unwrap();
    let claims = JwtService::verify_token(&access, false, &config, now + 6).unwrap();
    assert_eq!(claims.sub, UF_OID.to_vec());
    assert_eq!(claims.mobile, b"9876543210".to_vec());

    let bogus = RefreshTokenDto { refresh_token: b"junk".to_vec() };
    assert_eq!(
        refresh_access_token(&mut limiter, &config, &bogus, now).unwrap_err().status,
        STATUS_UNAUTHORIZED
    );
}

#[test]
fn error_constructors_carry_their_statuses() {
    assert_eq!(ApiError::bad_request("x".to_string()).status, 400);
    assert_eq!(ApiError::unauthorized("x".to_string()).status, 401);
    assert_eq!(ApiError::forbidden("x".to_string()).status, 403);
    assert_eq!(ApiError::not_found("x".to_string()).status, 404);
    assert_eq!(ApiError::too_many_requests("x".to_string()).status, 429);
    assert_eq!(ApiError::internal_error("x".to_string()).status, 500);
    let ok: ApiResponse<u32> = ApiResponse::success(7);
    assert!(ok.success);
    assert_eq!(ok.data, Some(7));
    let with_msg = ApiResponse::success_with_message("done".to_string(), 1u8);
    assert_eq!(with_msg.message, Some("done".to_string()));
    let err = ApiResponse::<()>::error("boom".to_string());
    assert!(!err.success);
}

#[test]
fn silent_refresh_is_rate_limited_under_the_shared_key() {
    let config = flow_config();
    let mut limiter = RateLimiter::new(1, 60_000);
    let user = stored_user();
    let now: i64 = 1_700_000_000;
    let tokens = issue_login_tokens(&config, &user, now);
    let dto = RefreshTokenDto { refresh_token: tokens.refresh_token };
    assert!(refresh_access_token(&mut limiter, &config, &dto, now + 1).is_ok());
    // the second call in the same window is blocked before verification
    let err = refresh_access_token(&mut limiter, &config, &dto, now + 2).unwrap_err();
    assert_eq!(err.status, STATUS_TOO_MANY_REQUESTS);
    // a fresh window admits the same, still-valid refresh token again
    assert!(refresh_access_token(&mut limiter, &config, &dto, now + 60_002).is_ok());
}
