use vstd::prelude::*;

verus! {

/// Name shown for an author that cannot be resolved or is absent.
pub const UNKNOWN_NAME: &'static str = "UNKNOWN";

/// The name fields of a user's profile.
#[derive(Clone, Debug)]
pub struct Profile {
    pub real_name_normalized: String,
    pub display_name_normalized: String,
}

/// A user as the user-info call describes it.
#[derive(Clone, Debug)]
pub struct User {
    pub profile: Profile,
}

/// Answer of the user-info call.
#[derive(Clone, Debug)]
pub struct InfoResponse {
    pub ok: bool,
    pub user: Option<User>,
}

/// The name of a user: its display name, or its real name where the display
/// name is empty; `UNKNOWN` where the answer names no user.
pub open spec fn display_name_of(info: InfoResponse) -> Seq<char> {
    match info.user {
        Some(u) => if u.profile.display_name_normalized@.len() == 0 {
            u.profile.real_name_normalized@
        } else {
            u.profile.display_name_normalized@
        },
        None => UNKNOWN_NAME@,
    }
}

/// Picks the name to show for the user that `info` describes.
pub fn display_name(info: InfoResponse) -> (r: String)
    ensures
        r@ == display_name_of(info),
{
    match info.user {
        Some(u) => if u.profile.display_name_normalized.as_str().is_empty() {
            u.profile.real_name_normalized
        } else {
            u.profile.display_name_normalized
        },
        None => UNKNOWN_NAME.to_owned(),
    }
}

} // verus!
