use vstd::prelude::*;

use crate::store::Role;
use crate::transport::{UserInfo, UserInfoV};

verus! {

/// The principal attached to an authenticated request: the resolved
/// user and their role set.
#[derive(Debug)]
pub struct AuthenticatedUser {
    pub user_info: UserInfo,
    pub roles: Vec<Role>,
}

/// Mathematical image of an `AuthenticatedUser`.
pub struct AuthenticatedUserV {
    pub user_info: UserInfoV,
    pub roles: Seq<Role>,
}

impl View for AuthenticatedUser {
    type V = AuthenticatedUserV;

    open spec fn view(&self) -> AuthenticatedUserV {
        AuthenticatedUserV { user_info: self.user_info@, roles: self.roles@ }
    }
}

impl AuthenticatedUser {
    /// The principal a resolved account stands for.
    pub fn from_user(user: &crate::auth::User) -> (r: AuthenticatedUser)
        ensures
            r@.user_info.id == user@.id,
            r@.user_info.username == user@.username,
            r@.roles == user@.roles,
    {
        AuthenticatedUser {
            user_info: UserInfo { id: user.id, username: user.username.clone() },
            roles: copy_roles(&user.roles),
        }
    }

    /// Whether the principal holds the role.
    pub fn has_role(&self, role: Role) -> (r: bool)
        ensures
            r == self@.roles.contains(role),
    {
        roles_contain(&self.roles, role)
    }
}

/// An element-wise copy of a role list.
fn copy_roles(v: &Vec<Role>) -> (r: Vec<Role>)
    ensures
        r@ == v@,
{
    let mut r: Vec<Role> = Vec::new();
    let n = v.len();
    let mut i: usize = 0;
    while i < n
        invariant
            n == v.len(),
            i <= n,
            r@ == v@.subrange(0, i as int),
        decreases n - i,
    {
        r.push(v[i]);
        proof {
            assert(r@ =~= v@.subrange(0, i + 1));
        }
        i += 1;
    }
    proof {
        assert(r@ =~= v@);
    }
    r
}

/// Whether the role list holds the role.
fn roles_contain(v: &Vec<Role>, role: Role) -> (r: bool)
    ensures
        r == v@.contains(role),
{
    let n = v.len();
    let mut i: usize = 0;
    while i < n
        invariant
            n == v.len(),
            i <= n,
            forall|k: int| 0 <= k < i ==> v@[k] != role,
        decreases n - i,
    {
        if v[i] == role {
            return true;
        }
        i += 1;
    }
    proof {
        assert(!v@.contains(role));
    }
    false
}

/// A principal that has passed the teacher check.
pub struct Teacher {
    user: AuthenticatedUser,
}

impl View for Teacher {
    type V = AuthenticatedUserV;

    closed spec fn view(&self) -> AuthenticatedUserV {
        self.user@
    }
}

impl Teacher {
    /// Every value of this type passed the role check.
    #[verifier::type_invariant]
    closed spec fn inv(self) -> bool {
        self.user@.roles.contains(Role::Teacher)
    }

    /// Admit a principal holding the teacher role; anyone else is
    /// turned away.
    pub fn from_user(user: AuthenticatedUser) -> (r: Result<Teacher, AuthenticatedUser>)
        ensures
            match r {
                Result::Ok(t) => user@.roles.contains(Role::Teacher) && t@ == user@,
                Result::Err(u) => !user@.roles.contains(Role::Teacher) && u@ == user@,
            },
    {
        if user.has_role(Role::Teacher) {
            Ok(Teacher { user })
        } else {
            Err(user)
        }
    }

    /// The principal behind the check.
    pub fn into_inner(self) -> (r: AuthenticatedUser)
        ensures
            r@ == self@,
            r@.roles.contains(Role::Teacher),
    {
        proof {
            use_type_invariant(&self);
        }
        let Teacher { user } = self;
        user
    }
}

/// A principal that has passed the student check.
pub struct Student {
    user: AuthenticatedUser,
}

impl View for Student {
    type V = AuthenticatedUserV;

    closed spec fn view(&self) -> AuthenticatedUserV {
        self.user@
    }
}

impl Student {
    /// Every value of this type passed the role check.
    #[verifier::type_invariant]
    closed spec fn inv(self) -> bool {
        self.user@.roles.contains(Role::Student)
    }

    /// Admit a principal holding the student role; anyone else is
    /// turned away.
    pub fn from_user(user: AuthenticatedUser) -> (r: Result<Student, AuthenticatedUser>)
        ensures
            match r {
                Result::Ok(s) => user@.roles.contains(Role::Student) && s@ == user@,
                Result::Err(u) => !user@.roles.contains(Role::Student) && u@ == user@,
            },
    {
        if user.has_role(Role::Student) {
            Ok(Student { user })
        } else {
            Err(user)
        }
    }

    /// The principal behind the check.
    pub fn into_inner(self) -> (r: AuthenticatedUser)
        ensures
            r@ == self@,
            r@.roles.contains(Role::Student),
    {
        proof {
            use_type_invariant(&self);
        }
        let Student { user } = self;
        user
    }
}

} // verus!
