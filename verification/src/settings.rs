//! The settings of the user.

use vstd::prelude::*;

verus! {

/// A notification that the user can switch on or off.
#[derive(Clone, Debug)]
pub struct NotificationSetting {
    pub id: i64,
    pub user_setting_id: i64,
    pub name: String,
    pub enabled: bool,
}

/// New values for the settings.
#[derive(Clone, Debug)]
pub struct UpdateUserSettings {
    pub home_page: String,
    pub page_size: i64,
    pub color_scheme: String,
    pub button_variant: String,
    pub gradient_to: String,
    pub gradient_from: String,
    pub gradient_degrees: i64,
    pub navbar_opened: bool,
    pub notification_settings: Vec<NotificationSetting>,
}

/// The settings as they are stored.
#[derive(Clone, Debug)]
pub struct UserSetting {
    pub id: i64,
    pub page_size: i64,
    pub home_page: String,
    pub color_scheme: String,
    pub button_variant: String,
    pub gradient_to: String,
    pub gradient_from: String,
    pub gradient_degrees: i64,
    pub navbar_opened: bool,
}

/// The settings as they are shown, with the notifications.
#[derive(Clone, Debug)]
pub struct UserSettingRead {
    pub id: i64,
    pub page_size: i64,
    pub home_page: String,
    pub color_scheme: String,
    pub button_variant: String,
    pub gradient_to: String,
    pub gradient_from: String,
    pub gradient_degrees: i64,
    pub navbar_opened: bool,
    pub notification_settings: Vec<NotificationSetting>,
}

/// The stored settings with the new values: the id stays, everything else
/// is taken from `update`.
pub open spec fn updated(setting: UserSetting, update: UpdateUserSettings) -> UserSetting {
    UserSetting {
        id: setting.id,
        page_size: update.page_size,
        home_page: update.home_page,
        color_scheme: update.color_scheme,
        button_variant: update.button_variant,
        gradient_to: update.gradient_to,
        gradient_from: update.gradient_from,
        gradient_degrees: update.gradient_degrees,
        navbar_opened: update.navbar_opened,
    }
}

impl UserSetting {
    /// The settings with the new values; the id stays.
    pub fn with_update(self, update: UpdateUserSettings) -> (r: UserSetting)
        ensures
            r == updated(self, update),
    {
        UserSetting {
            id: self.id,
            page_size: update.page_size,
            home_page: update.home_page,
            color_scheme: update.color_scheme,
            button_variant: update.button_variant,
            gradient_to: update.gradient_to,
            gradient_from: update.gradient_from,
            gradient_degrees: update.gradient_degrees,
            navbar_opened: update.navbar_opened,
        }
    }
}

impl UserSettingRead {
    /// The stored settings as they are shown, with no notifications yet.
    pub fn from_setting(value: UserSetting) -> (r: Self)
        ensures
            r.id == value.id,
            r.page_size == value.page_size,
            r.home_page == value.home_page,
            r.color_scheme == value.color_scheme,
            r.button_variant == value.button_variant,
            r.gradient_to == value.gradient_to,
            r.gradient_from == value.gradient_from,
            r.gradient_degrees == value.gradient_degrees,
            r.navbar_opened == value.navbar_opened,
            r.notification_settings@ == Seq::<NotificationSetting>::empty(),
    {
        Self {
            id: value.id,
            page_size: value.page_size,
            home_page: value.home_page,
            color_scheme: value.color_scheme,
            button_variant: value.button_variant,
            gradient_to: value.gradient_to,
            gradient_from: value.gradient_from,
            gradient_degrees: value.gradient_degrees,
            notification_settings: Vec::new(),
            navbar_opened: value.navbar_opened,
        }
    }
}

impl From<UserSettingRead> for UserSetting {
    fn from(value: UserSettingRead) -> (r: Self) {
        Self {
            id: value.id,
            page_size: value.page_size,
            home_page: value.home_page,
            color_scheme: value.color_scheme,
            button_variant: value.button_variant,
            gradient_to: value.gradient_to,
            gradient_from: value.gradient_from,
            gradient_degrees: value.gradient_degrees,
            navbar_opened: value.navbar_opened,
        }
    }
}

impl vstd::std_specs::convert::FromSpecImpl<UserSettingRead> for UserSetting {
    open spec fn obeys_from_spec() -> bool {
        true
    }

    /// The settings shown, without the notifications.
    open spec fn from_spec(value: UserSettingRead) -> Self {
        UserSetting {
            id: value.id,
            page_size: value.page_size,
            home_page: value.home_page,
            color_scheme: value.color_scheme,
            button_variant: value.button_variant,
            gradient_to: value.gradient_to,
            gradient_from: value.gradient_from,
            gradient_degrees: value.gradient_degrees,
            navbar_opened: value.navbar_opened,
        }
    }
}

} // verus!
