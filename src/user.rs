//! A user record with a sign-in counter.
use vstd::prelude::*;

verus! {

#[derive(Debug)]
pub struct User {
    pub name: String,
    pub email: String,
    pub sign_in_count: u64,
    pub active: bool,
}

/// A new, active user who has not signed in yet.
pub fn build_user(name: String, email: String) -> (r: User)
    ensures
        r.name@ == name@,
        r.email@ == email@,
        r.active,
        r.sign_in_count == 0,
{
    User { name, email, active: true, sign_in_count: 0 }
}

impl User {
    /// The built-in default user.
    #[allow(non_snake_case)]
    pub fn buildDefault() -> (r: User)
        ensures
            r.name@ == "xiaoguo"@,
            r.email@ == "1@123.com"@,
            r.active,
            r.sign_in_count == 0,
    {
        build_user(String::from_str("xiaoguo"), String::from_str("1@123.com"))
    }

    /// Counts one more sign-in.
    #[allow(non_snake_case)]
    pub fn incrSignInCount(&mut self)
        requires
            old(self).sign_in_count < u64::MAX,
        ensures
            final(self).sign_in_count == old(self).sign_in_count + 1,
            final(self).name@ == old(self).name@,
            final(self).email@ == old(self).email@,
            final(self).active == old(self).active,
    {
        self.sign_in_count = self.sign_in_count + 1;
    }
}

} // verus!
