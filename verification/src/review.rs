//! The user profile attached to a review.

use vstd::prelude::*;

verus! {

/// Mathematical content of a [`UserProfile`].
#[verifier::ext_equal]
pub struct UserProfileView {
    pub name: Seq<char>,
    pub avatar: Seq<char>,
    pub user_name: Option<Seq<char>>,
    pub is_verified: bool,
}

/// The author shown beside a review.
pub struct UserProfile {
    pub name: String,
    pub avatar: String,
    pub user_name: Option<String>,
    pub is_verified: bool,
}

impl View for UserProfile {
    type V = UserProfileView;

    open spec fn view(&self) -> UserProfileView {
        UserProfileView {
            name: self.name@,
            avatar: self.avatar@,
            user_name: self.user_name.deep_view(),
            is_verified: self.is_verified,
        }
    }
}

} // verus!
