//! Users, their settings and their login records.
use crate::codec::{Field, FieldVal, fields_view};
use crate::record::{
    Identity, Record, copy_bytes, flag, flag_at, flag_val, identity_at, nat_at, opt_nat,
    opt_nat_at, opt_nat_val, opt_text, opt_text_at, opt_text_val, text_at, u8_at,
};
use vstd::prelude::*;

verus! {

/// A user of the platform, keyed by its identity. `role` is "user", "tutor" or "admin"; `status` is "active", "inactive" or "suspended"; `subscription` is "free", "pro" or "enterprise".
pub struct User {
    pub id: Identity,
    pub public_id: String,
    pub email: String,
    pub username: String,
    pub first_name: Option<String>,
    pub last_name: Option<String>,
    pub is_active: bool,
    pub is_verified: bool,
    pub created_at: u64,
    pub updated_at: u64,
    pub last_login: Option<u64>,
    pub oauth_provider: Option<String>,
    pub oauth_id: Option<String>,
    pub avatar_url: Option<String>,
    pub bio: Option<String>,
    pub blockchain_wallet_address: Option<String>,
    pub blockchain_wallet_type: Option<String>,
    pub blockchain_wallet_connected_at: Option<u64>,
    pub wallet_address: Option<String>,
    pub public_key: Option<String>,
    pub role: String,
    pub status: String,
    pub location: Option<String>,
    pub subscription: String,
    pub last_active: u64,
    pub settings: UserSettings,
}
/// Learning, security, accessibility, assistant and privacy preferences of a user.
pub struct UserSettings {
    pub learning_style: String,
    pub preferred_language: String,
    pub difficulty_level: String,
    pub daily_goal_hours: u8,
    pub two_factor_enabled: bool,
    pub font_size: String,
    pub contrast: String,
    pub ai_interaction_style: String,
    pub profile_visibility: String,
    pub activity_sharing: String,
}
/// One sign-in attempt.
pub struct LoginHistory {
    pub timestamp: u64,
    pub ip_address: String,
    pub location: Option<String>,
    pub device: Option<String>,
    pub status: String,
}
/// One signed-in session.
pub struct LoginSession {
    pub device: Option<String>,
    pub ip_address: String,
    pub location: Option<String>,
    pub created_at: u64,
    pub last_active: u64,
    pub is_active: bool,
}
impl Record for User {
    open spec fn fields(&self) -> Seq<Field> {
        seq![
            Field::Bytes(self.id@),
            Field::Text(self.public_id@),
            Field::Text(self.email@),
            Field::Text(self.username@),
            opt_text(self.first_name),
            opt_text(self.last_name),
            flag(self.is_active),
            flag(self.is_verified),
            Field::Nat(self.created_at),
            Field::Nat(self.updated_at),
            opt_nat(self.last_login),
            opt_text(self.oauth_provider),
            opt_text(self.oauth_id),
            opt_text(self.avatar_url),
            opt_text(self.bio),
            opt_text(self.blockchain_wallet_address),
            opt_text(self.blockchain_wallet_type),
            opt_nat(self.blockchain_wallet_connected_at),
            opt_text(self.wallet_address),
            opt_text(self.public_key),
            Field::Text(self.role@),
            Field::Text(self.status@),
            opt_text(self.location),
            Field::Text(self.subscription@),
            Field::Nat(self.last_active),
            Field::Text(self.settings.learning_style@),
            Field::Text(self.settings.preferred_language@),
            Field::Text(self.settings.difficulty_level@),
            Field::Nat(self.settings.daily_goal_hours as u64),
            flag(self.settings.two_factor_enabled),
            Field::Text(self.settings.font_size@),
            Field::Text(self.settings.contrast@),
            Field::Text(self.settings.ai_interaction_style@),
            Field::Text(self.settings.profile_visibility@),
            Field::Text(self.settings.activity_sharing@),
        ]
    }

    fn to_fields(&self) -> (r: Vec<FieldVal>) {
        let r = vec![
            FieldVal::Bytes(copy_bytes(&self.id.bytes)),
            FieldVal::Text(self.public_id.clone()),
            FieldVal::Text(self.email.clone()),
            FieldVal::Text(self.username.clone()),
            opt_text_val(&self.first_name),
            opt_text_val(&self.last_name),
            flag_val(self.is_active),
            flag_val(self.is_verified),
            FieldVal::Nat(self.created_at),
            FieldVal::Nat(self.updated_at),
            opt_nat_val(self.last_login),
            opt_text_val(&self.oauth_provider),
            opt_text_val(&self.oauth_id),
            opt_text_val(&self.avatar_url),
            opt_text_val(&self.bio),
            opt_text_val(&self.blockchain_wallet_address),
            opt_text_val(&self.blockchain_wallet_type),
            opt_nat_val(self.blockchain_wallet_connected_at),
            opt_text_val(&self.wallet_address),
            opt_text_val(&self.public_key),
            FieldVal::Text(self.role.clone()),
            FieldVal::Text(self.status.clone()),
            opt_text_val(&self.location),
            FieldVal::Text(self.subscription.clone()),
            FieldVal::Nat(self.last_active),
            FieldVal::Text(self.settings.learning_style.clone()),
            FieldVal::Text(self.settings.preferred_language.clone()),
            FieldVal::Text(self.settings.difficulty_level.clone()),
            FieldVal::Nat(self.settings.daily_goal_hours as u64),
            flag_val(self.settings.two_factor_enabled),
            FieldVal::Text(self.settings.font_size.clone()),
            FieldVal::Text(self.settings.contrast.clone()),
            FieldVal::Text(self.settings.ai_interaction_style.clone()),
            FieldVal::Text(self.settings.profile_visibility.clone()),
            FieldVal::Text(self.settings.activity_sharing.clone()),
        ];
        assert(fields_view(r@) =~= self.fields());
        r
    }

    fn from_fields(fs: &Vec<FieldVal>) -> (r: Option<Self>) {
        if fs.len() != 35 {
            proof {
                assert forall|x: Self| #[trigger] x.fields() != fields_view(fs@) by {
                    assert(x.fields().len() == 35);
                }
            }
            return None;
        }
        let v_id = match identity_at(fs, 0) {
            Some(v) => v,
            None => {
                return None;
            },
        };
        let v_public_id = match text_at(fs, 1) {
            Some(v) => v,
            None => {
                return None;
            },
        };
        let v_email = match text_at(fs, 2) {
            Some(v) => v,
            None => {
                return None;
            },
        };
        let v_username = match text_at(fs, 3) {
            Some(v) => v,
            None => {
                return None;
            },
        };
        let v_first_name = match opt_text_at(fs, 4) {
            Some(v) => v,
            None => {
                return None;
            },
        };
        let v_last_name = match opt_text_at(fs, 5) {
            Some(v) => v,
            None => {
                return None;
            },
        };
        let v_is_active = match flag_at(fs, 6) {
            Some(v) => v,
            None => {
                return None;
            },
        };
        let v_is_verified = match flag_at(fs, 7) {
            Some(v) => v,
            None => {
                return None;
            },
        };
        let v_created_at = match nat_at(fs, 8) {
            Some(v) => v,
            None => {
                return None;
            },
        };
        let v_updated_at = match nat_at(fs, 9) {
            Some(v) => v,
            None => {
                return None;
            },
        };
        let v_last_login = match opt_nat_at(fs, 10) {
            Some(v) => v,
            None => {
                return None;
            },
        };
        let v_oauth_provider = match opt_text_at(fs, 11) {
            Some(v) => v,
            None => {
                return None;
            },
        };
        let v_oauth_id = match opt_text_at(fs, 12) {
            Some(v) => v,
            None => {
                return None;
            },
        };
        let v_avatar_url = match opt_text_at(fs, 13) {
            Some(v) => v,
            None => {
                return None;
            },
        };
        let v_bio = match opt_text_at(fs, 14) {
            Some(v) => v,
            None => {
                return None;
            },
        };
        let v_blockchain_wallet_address = match opt_text_at(fs, 15) {
            Some(v) => v,
            None => {
                return None;
            },
        };
        let v_blockchain_wallet_type = match opt_text_at(fs, 16) {
            Some(v) => v,
            None => {
                return None;
            },
        };
        let v_blockchain_wallet_connected_at = match opt_nat_at(fs, 17) {
            Some(v) => v,
            None => {
                return None;
            },
        };
        let v_wallet_address = match opt_text_at(fs, 18) {
            Some(v) => v,
            None => {
                return None;
            },
        };
        let v_public_key = match opt_text_at(fs, 19) {
            Some(v) => v,
            None => {
                return None;
            },
        };
        let v_role = match text_at(fs, 20) {
            Some(v) => v,
            None => {
                return None;
            },
        };
        let v_status = match text_at(fs, 21) {
            Some(v) => v,
            None => {
                return None;
            },
        };
        let v_location = match opt_text_at(fs, 22) {
            Some(v) => v,
            None => {
                return None;
            },
        };
        let v_subscription = match text_at(fs, 23) {
            Some(v) => v,
            None => {
                return None;
            },
        };
        let v_last_active = match nat_at(fs, 24) {
            Some(v) => v,
            None => {
                return None;
            },
        };
        let v_settings_learning_style = match text_at(fs, 25) {
            Some(v) => v,
            None => {
                return None;
            },
        };
        let v_settings_preferred_language = match text_at(fs, 26) {
            Some(v) => v,
            None => {
                return None;
            },
        };
        let v_settings_difficulty_level = match text_at(fs, 27) {
            Some(v) => v,
            None => {
                return None;
            },
        };
        let v_settings_daily_goal_hours = match u8_at(fs, 28) {
            Some(v) => v,
            None => {
                return None;
            },
        };
        let v_settings_two_factor_enabled = match flag_at(fs, 29) {
            Some(v) => v,
            None => {
                return None;
            },
        };
        let v_settings_font_size = match text_at(fs, 30) {
            Some(v) => v,
            None => {
                return None;
            },
        };
        let v_settings_contrast = match text_at(fs, 31) {
            Some(v) => v,
            None => {
                return None;
            },
        };
        let v_settings_ai_interaction_style = match text_at(fs, 32) {
            Some(v) => v,
            None => {
                return None;
            },
        };
        let v_settings_profile_visibility = match text_at(fs, 33) {
            Some(v) => v,
            None => {
                return None;
            },
        };
        let v_settings_activity_sharing = match text_at(fs, 34) {
            Some(v) => v,
            None => {
                return None;
            },
        };
        let r = User {
            id: v_id,
            public_id: v_public_id,
            email: v_email,
            username: v_username,
            first_name: v_first_name,
            last_name: v_last_name,
            is_active: v_is_active,
            is_verified: v_is_verified,
            created_at: v_created_at,
            updated_at: v_updated_at,
            last_login: v_last_login,
            oauth_provider: v_oauth_provider,
            oauth_id: v_oauth_id,
            avatar_url: v_avatar_url,
            bio: v_bio,
            blockchain_wallet_address: v_blockchain_wallet_address,
            blockchain_wallet_type: v_blockchain_wallet_type,
            blockchain_wallet_connected_at: v_blockchain_wallet_connected_at,
            wallet_address: v_wallet_address,
            public_key: v_public_key,
            role: v_role,
            status: v_status,
            location: v_location,
            subscription: v_subscription,
            last_active: v_last_active,
            settings: UserSettings {
                learning_style: v_settings_learning_style,
                preferred_language: v_settings_preferred_language,
                difficulty_level: v_settings_difficulty_level,
                daily_goal_hours: v_settings_daily_goal_hours,
                two_factor_enabled: v_settings_two_factor_enabled,
                font_size: v_settings_font_size,
                contrast: v_settings_contrast,
                ai_interaction_style: v_settings_ai_interaction_style,
                profile_visibility: v_settings_profile_visibility,
                activity_sharing: v_settings_activity_sharing,
            },
        };
        assert(r.fields() =~= fields_view(fs@));
        Some(r)
    }
}
impl User {
    /// The same user with its status replaced.
    pub fn with_status(self, status: String) -> (r: User)
        ensures
            r.fields() == self.fields().update(21, Field::Text(status@)),
    {
        let ghost before = self.fields();
        let mut u = self;
        u.status = status;
        assert(u.fields() =~= before.update(21, Field::Text(status@)));
        u
    }
}

} // verus!
