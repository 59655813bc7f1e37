use vstd::prelude::*;

use crate::validation::Validate;

verus! {

/// The minimal owner information embedded in sheet and solution
/// metadata: id and username.
#[derive(Debug)]
pub struct UserTransport {
    pub id: i32,
    pub username: String,
}

/// Mathematical image of a `UserTransport`.
pub struct UserTransportV {
    pub id: i32,
    pub username: Seq<char>,
}

impl View for UserTransport {
    type V = UserTransportV;

    open spec fn view(&self) -> UserTransportV {
        UserTransportV { id: self.id, username: self.username@ }
    }
}

/// The user information carried by an authenticated principal.
#[derive(Debug)]
pub struct UserInfo {
    pub id: i32,
    pub username: String,
}

/// Mathematical image of a `UserInfo`.
pub struct UserInfoV {
    pub id: i32,
    pub username: Seq<char>,
}

impl View for UserInfo {
    type V = UserInfoV;

    open spec fn view(&self) -> UserInfoV {
        UserInfoV { id: self.id, username: self.username@ }
    }
}

/// A submitted login form; the routing layer rejects empty fields
/// before it reaches the service.
#[derive(Debug)]
pub struct LoginForm {
    pub username: String,
    pub password: String,
}


/// A sheet as submitted or exported: title and the content payload as
/// serialized text.
#[derive(Debug)]
pub struct SheetTransport {
    pub title: String,
    pub content: String,
}

/// Why a submitted sheet was rejected.
#[derive(Clone, Copy, PartialEq, Eq, Structural, Debug)]
pub enum SheetTransportValidationError {
    TitleEmpty,
}

impl SheetTransport {
    /// A submitted sheet must carry a title.
    pub fn check(&self) -> (r: Result<(), SheetTransportValidationError>)
        ensures
            r matches Ok(()) <==> self.title@.len() > 0,
            r matches Err(SheetTransportValidationError::TitleEmpty) <==> self.title@.len()
                == 0,
    {
        if self.title.as_str().unicode_len() == 0 {
            Err(SheetTransportValidationError::TitleEmpty)
        } else {
            Ok(())
        }
    }
}

impl Validate for SheetTransport {
    type ValidationError = SheetTransportValidationError;

    fn validate(&self) -> Result<(), SheetTransportValidationError> {
        self.check()
    }
}

/// The form that creates a fresh, empty sheet; the routing layer
/// rejects an empty title before it reaches the service.
#[derive(Debug)]
pub struct NewSheetForm {
    pub title: String,
}

/// The form that imports a serialized sheet.
#[derive(Debug)]
pub struct ImportSheetForm {
    pub file: String,
}

} // verus!
