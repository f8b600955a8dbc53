//! The user record: the identity anchor created on first OTP verification.
//! It carries the KYC standing the gates consult and the profile fields a
//! user may update.

use vstd::prelude::*;
use crate::errors::{ApiError, STATUS_BAD_REQUEST};
use crate::ids::is_oid;
use crate::validation::{is_valid_email, is_valid_pincode, validate_email, validate_pincode};

verus! {

/// KYC standing of a user, as the gates see it.
#[derive(Clone, Copy, PartialEq, Eq, Structural, Debug)]
pub enum KycStatus {
    Pending,
    Submitted,
    Approved,
    Rejected,
}

/// Push-notification tokens per platform.
pub struct FcmToken {
    pub android: Option<String>,
    pub ios: Option<String>,
}

/// A user record.  `id` is `None` until the store assigns one.
pub struct User {
    pub id: Option<Vec<u8>>,
    pub mobile: Vec<u8>,
    pub email: Option<Vec<u8>>,
    pub name: Option<String>,
    pub profile_photo: Option<String>,
    pub city: Option<String>,
    pub pincode: Option<Vec<u8>>,
    pub kyc_status: KycStatus,
    pub is_active: bool,
    pub fcm_token: Option<FcmToken>,
    pub last_login_at: i64,
    pub created_at: i64,
    pub updated_at: i64,
}

impl User {
    /// A stored record: its id is assigned and canonical.
    pub open spec fn stored(&self) -> bool {
        self.id matches Some(id) && is_oid(id@)
    }
}

/// Fields a user may change on their profile; absent fields stay as they
/// are.
pub struct UpdateProfileDto {
    pub name: Option<String>,
    pub email: Option<Vec<u8>>,
    pub city: Option<String>,
    pub pincode: Option<Vec<u8>>,
    pub profile_photo: Option<String>,
}

/// The record made for a mobile number seen for the first time: KYC
/// pending, active, timestamps at `now`, no id until the store assigns one.
pub fn register_user(mobile: Vec<u8>, now: i64) -> (u: User)
    ensures
        u.id is None,
        u.mobile == mobile,
        u.email is None,
        u.name is None,
        u.profile_photo is None,
        u.city is None,
        u.pincode is None,
        u.kyc_status == KycStatus::Pending,
        u.is_active,
        u.fcm_token is None,
        u.last_login_at == now,
        u.created_at == now,
        u.updated_at == now,
{
    User {
        id: None,
        mobile,
        email: None,
        name: None,
        profile_photo: None,
        city: None,
        pincode: None,
        kyc_status: KycStatus::Pending,
        is_active: true,
        fcm_token: None,
        last_login_at: now,
        created_at: now,
        updated_at: now,
    }
}

/// Stamps a successful login on an existing record.
pub fn login_user(user: &mut User, now: i64)
    ensures
        final(user).last_login_at == now,
        final(user).id == old(user).id,
        final(user).mobile == old(user).mobile,
        final(user).email == old(user).email,
        final(user).name == old(user).name,
        final(user).profile_photo == old(user).profile_photo,
        final(user).city == old(user).city,
        final(user).pincode == old(user).pincode,
        final(user).kyc_status == old(user).kyc_status,
        final(user).is_active == old(user).is_active,
        final(user).fcm_token == old(user).fcm_token,
        final(user).created_at == old(user).created_at,
        final(user).updated_at == old(user).updated_at,
{
    user.last_login_at = now;
}

/// Applies a profile update: validates email and pincode first and mutates
/// nothing on rejection; on success each given field replaces the stored
/// one and `updated_at` is stamped.
pub fn apply_profile_update(user: &mut User, dto: UpdateProfileDto, now: i64) -> (r: Result<
    (),
    ApiError,
>)
    ensures
        r is Ok <==> ((dto.email matches Some(e) ==> is_valid_email(e@)) && (
        dto.pincode matches Some(p) ==> is_valid_pincode(p@))),
        r matches Err(e) ==> e.status == STATUS_BAD_REQUEST && *final(user) == *old(user),
        r is Ok ==> {
            &&& final(user).name == (if dto.name is Some { dto.name } else { old(user).name })
            &&& final(user).email == (if dto.email is Some { dto.email } else { old(user).email })
            &&& final(user).city == (if dto.city is Some { dto.city } else { old(user).city })
            &&& final(user).pincode == (if dto.pincode is Some {
                dto.pincode
            } else {
                old(user).pincode
            })
            &&& final(user).profile_photo == (if dto.profile_photo is Some {
                dto.profile_photo
            } else {
                old(user).profile_photo
            })
            &&& final(user).updated_at == now
            &&& final(user).id == old(user).id
            &&& final(user).mobile == old(user).mobile
            &&& final(user).kyc_status == old(user).kyc_status
            &&& final(user).is_active == old(user).is_active
            &&& final(user).fcm_token == old(user).fcm_token
            &&& final(user).last_login_at == old(user).last_login_at
            &&& final(user).created_at == old(user).created_at
        },
{
    if let Some(ref email) = dto.email {
        if !validate_email(email.as_slice()) {
            return Err(ApiError {
                status: STATUS_BAD_REQUEST,
                message: "Invalid email address".to_owned(),
            });
        }
    }
    if let Some(ref pincode) = dto.pincode {
        if !validate_pincode(pincode.as_slice()) {
            return Err(ApiError {
                status: STATUS_BAD_REQUEST,
                message: "Invalid pincode".to_owned(),
            });
        }
    }
    if let Some(name) = dto.name {
        user.name = Some(name);
    }
    if let Some(email) = dto.email {
        user.email = Some(email);
    }
    if let Some(city) = dto.city {
        user.city = Some(city);
    }
    if let Some(pincode) = dto.pincode {
        user.pincode = Some(pincode);
    }
    if let Some(photo) = dto.profile_photo {
        user.profile_photo = Some(photo);
    }
    user.updated_at = now;
    Ok(())
}

/// A push-token update: the token and the platform it belongs to.
pub struct UpdateFcmTokenDto {
    pub token: String,
    pub platform: Vec<u8>,
}

/// Stores a push token under the named platform; only `android` and `ios`
/// are accepted.
pub fn update_fcm_token(user: &mut User, dto: UpdateFcmTokenDto) -> (r: Result<(), ApiError>)
    ensures
        r is Ok <==> (dto.platform@ == "android"@.map_values(|c: char| c as u8) || dto.platform@
            == "ios"@.map_values(|c: char| c as u8)),
        r matches Err(e) ==> e.status == STATUS_BAD_REQUEST && *final(user) == *old(user),
        r is Ok ==> final(user).fcm_token is Some,
        r is Ok && dto.platform@ == "android"@.map_values(|c: char| c as u8) ==> ({
            &&& final(user).fcm_token matches Some(t) && t.android == Some(dto.token)
            &&& (old(user).fcm_token matches Some(t0) ==> final(user).fcm_token matches Some(t)
                && t.ios == t0.ios)
        }),
        r is Ok && dto.platform@ == "ios"@.map_values(|c: char| c as u8) ==> ({
            &&& final(user).fcm_token matches Some(t) && t.ios == Some(dto.token)
            &&& (old(user).fcm_token matches Some(t0) ==> final(user).fcm_token matches Some(t)
                && t.android == t0.android)
        }),
{
    let platform = dto.platform;
    let token = dto.token;
    proof {
        reveal_strlit("android");
        reveal_strlit("ios");
    }
    let is_android = platform.len() == 7 && platform[0] == 0x61 && platform[1] == 0x6e && platform[2]
        == 0x64 && platform[3] == 0x72 && platform[4] == 0x6f && platform[5] == 0x69 && platform[6]
        == 0x64;
    let is_ios = platform.len() == 3 && platform[0] == 0x69 && platform[1] == 0x6f && platform[2]
        == 0x73;
    proof {
        assert(is_android == (platform@ =~= "android"@.map_values(|c: char| c as u8)));
        assert(is_ios == (platform@ =~= "ios"@.map_values(|c: char| c as u8)));
    }
    if !is_android && !is_ios {
        return Err(ApiError {
            status: STATUS_BAD_REQUEST,
            message: "Invalid platform. Use 'android' or 'ios'".to_owned(),
        });
    }
    let old_token = user.fcm_token.take();
    let (prev_android, prev_ios) = match old_token {
        Some(t) => (t.android, t.ios),
        None => (None, None),
    };
    if is_android {
        user.fcm_token = Some(FcmToken { android: Some(token), ios: prev_ios });
    } else {
        user.fcm_token = Some(FcmToken { android: prev_android, ios: Some(token) });
    }
    Ok(())
}

/// The user's public view.
pub struct UserResponse {
    pub id: Vec<u8>,
    pub mobile: Vec<u8>,
    pub email: Option<Vec<u8>>,
    pub name: Option<String>,
    pub profile_photo: Option<String>,
    pub city: Option<String>,
    pub pincode: Option<Vec<u8>>,
    pub kyc_status: KycStatus,
}

impl UserResponse {
    /// Shapes a stored user record for a client.
    pub fn from_user(user: User) -> (r: UserResponse)
        requires
            user.stored(),
        ensures
            r.id == user.id.unwrap(),
            r.mobile == user.mobile,
            r.email == user.email,
            r.name == user.name,
            r.profile_photo == user.profile_photo,
            r.city == user.city,
            r.pincode == user.pincode,
            r.kyc_status == user.kyc_status,
    {
        let id = match user.id {
            Some(id) => id,
            None => Vec::new(),
        };
        UserResponse {
            id,
            mobile: user.mobile,
            email: user.email,
            name: user.name,
            profile_photo: user.profile_photo,
            city: user.city,
            pincode: user.pincode,
            kyc_status: user.kyc_status,
        }
    }
}

/// Everything the profile endpoint reports: the user's view plus the
/// active subscription and worker profile, when they exist.
pub struct ProfileOverview {
    pub user: UserResponse,
    pub subscription_id: Option<Vec<u8>>,
    pub subscription_plan: Option<Vec<u8>>,
    pub subscription_expires_at: Option<i64>,
    pub worker_profile_id: Option<Vec<u8>>,
    pub worker_is_verified: Option<bool>,
}

/// Assembles the profile response from the user record and whatever the
/// store found for the caller's active subscription and worker profile.
pub fn build_profile_overview(
    user: User,
    subscription: Option<&crate::subscription::Subscription>,
    worker: Option<&crate::workers::WorkerProfile>,
) -> (r: ProfileOverview)
    requires
        user.stored(),
    ensures
        r.user.mobile == user.mobile,
        r.user.kyc_status == user.kyc_status,
        subscription matches Some(s) ==> ({
            &&& (r.subscription_id matches Some(id) && id@ == s.id@)
            &&& (r.subscription_plan matches Some(p) && p@ == s.plan_name@)
            &&& r.subscription_expires_at == Some(s.expires_at)
        }),
        subscription is None ==> r.subscription_id is None && r.subscription_plan is None
            && r.subscription_expires_at is None,
        worker matches Some(w) ==> ({
            &&& (r.worker_profile_id matches Some(id) && id@ == w.id@)
            &&& r.worker_is_verified == Some(w.is_verified)
        }),
        worker is None ==> r.worker_profile_id is None && r.worker_is_verified is None,
{
    let (sub_id, sub_plan, sub_expires) = match subscription {
        Some(s) => {
            let mut id_copy: Vec<u8> = Vec::new();
            crate::text::append_bytes(&mut id_copy, s.id.as_slice());
            let mut plan_copy: Vec<u8> = Vec::new();
            crate::text::append_bytes(&mut plan_copy, s.plan_name.as_slice());
            proof {
                assert(id_copy@ =~= s.id@);
                assert(plan_copy@ =~= s.plan_name@);
            }
            (Some(id_copy), Some(plan_copy), Some(s.expires_at))
        },
        None => (None, None, None),
    };
    let (worker_id, worker_verified) = match worker {
        Some(w) => {
            let mut id_copy: Vec<u8> = Vec::new();
            crate::text::append_bytes(&mut id_copy, w.id.as_slice());
            proof {
                assert(id_copy@ =~= w.id@);
            }
            (Some(id_copy), Some(w.is_verified))
        },
        None => (None, None),
    };
    ProfileOverview {
        user: UserResponse::from_user(user),
        subscription_id: sub_id,
        subscription_plan: sub_plan,
        subscription_expires_at: sub_expires,
        worker_profile_id: worker_id,
        worker_is_verified: worker_verified,
    }
}

/// Soft delete: the record stays, marked inactive.
pub fn deactivate_user(user: &mut User)
    ensures
        !final(user).is_active,
        final(user).id == old(user).id,
        final(user).mobile == old(user).mobile,
        final(user).kyc_status == old(user).kyc_status,
{
    user.is_active = false;
}

} // verus!
