pub mod claims;
pub mod jwt;
pub mod middleware;
pub mod utils;

pub use claims::{Claims, RefreshClaims};
pub use utils::{
    can_view_quiz_attempt, can_view_quiz_results, require_admin, require_owner_or_admin,
    require_quiz_owner, require_user_owner,
};
