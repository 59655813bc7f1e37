use vstd::prelude::*;

use crate::flash::FlashRedirect;
use crate::guards::AuthenticatedUser;

verus! {

/// A URI under the sheet management mount point.
pub fn sheets_uri(uri: &str) -> (r: String)
    ensures
        r@ == "/sheets"@ + uri@,
{
    let mut s = String::from_str("/sheets");
    s.append(uri);
    s
}

/// The flash redirect that sends an anonymous caller to the login
/// page, asking them to sign in first.
pub open spec fn is_login_redirect(r: FlashRedirect) -> bool {
    r matches FlashRedirect::Flash(u, k, m) && u@ == "/login"@ && k@ == "danger"@ && m@
        == "Anmeldung erforderlich"@
}

/// The redirect an unauthenticated request is answered with.
pub fn redirect_to_login() -> (r: FlashRedirect)
    ensures
        is_login_redirect(r),
{
    FlashRedirect::with_flash(
        String::from_str("/login"),
        String::from_str("danger"),
        String::from_str("Anmeldung erforderlich"),
    )
}

/// A route was reached without the role it needs: a logged-in caller is
/// refused outright, an anonymous one is sent to the login page.
pub fn handle_insufficient_permissions(user: Option<&AuthenticatedUser>) -> (r: Result<
    FlashRedirect,
    u16,
>)
    ensures
        match user {
            Option::Some(_) => r matches Err(s) && s == 403,
            Option::None => r matches Ok(f) && is_login_redirect(f),
        },
{
    match user {
        Some(_) => Err(403),
        None => Ok(redirect_to_login()),
    }
}

/// A logged-in visitor of the login page is sent to the sheet overview.
pub fn already_logged_in(_user: &AuthenticatedUser) -> (r: String)
    ensures
        r@ == "/sheets"@ + "/"@,
{
    sheets_uri("/")
}

/// The sheet overview route itself renders a template; nothing is
/// decided here.
pub fn sheet_overview() {
}

/// The solution overview route itself renders a template; nothing is
/// decided here.
pub fn solution_overview() {
}

/// The per-sheet solution listing route itself renders a template;
/// nothing is decided here.
pub fn sheet_solutions(_sheet_id: u64) {
}

/// The sheet overview asks for a login first.
pub fn sheets_login_req() -> (r: FlashRedirect)
    ensures
        is_login_redirect(r),
{
    redirect_to_login()
}

/// The trash listing asks for a login first.
pub fn trashed_sheets_login_req() -> (r: FlashRedirect)
    ensures
        is_login_redirect(r),
{
    redirect_to_login()
}

/// The recency listing asks for a login first.
pub fn recent_sheets_login_req() -> (r: FlashRedirect)
    ensures
        is_login_redirect(r),
{
    redirect_to_login()
}

/// The sheet editor asks for a login first.
pub fn edit_login_req() -> (r: FlashRedirect)
    ensures
        is_login_redirect(r),
{
    redirect_to_login()
}

/// The sheet editor asks for a login first.
pub fn login_edit_sheet(_id: u64) -> (r: FlashRedirect)
    ensures
        is_login_redirect(r),
{
    redirect_to_login()
}

/// The assignment overview without the teacher role.
pub fn login_assignment_overview(user: Option<&AuthenticatedUser>) -> (r: Result<
    FlashRedirect,
    u16,
>)
    ensures
        match user {
            Option::Some(_) => r matches Err(s) && s == 403,
            Option::None => r matches Ok(f) && is_login_redirect(f),
        },
{
    handle_insufficient_permissions(user)
}

/// The sheet trash without the teacher role.
pub fn login_trashed_sheets(user: Option<&AuthenticatedUser>) -> (r: Result<FlashRedirect, u16>)
    ensures
        match user {
            Option::Some(_) => r matches Err(s) && s == 403,
            Option::None => r matches Ok(f) && is_login_redirect(f),
        },
{
    handle_insufficient_permissions(user)
}

/// The recent sheets without the teacher role.
pub fn login_recent_sheets(user: Option<&AuthenticatedUser>) -> (r: Result<FlashRedirect, u16>)
    ensures
        match user {
            Option::Some(_) => r matches Err(s) && s == 403,
            Option::None => r matches Ok(f) && is_login_redirect(f),
        },
{
    handle_insufficient_permissions(user)
}

/// The solution overview without the teacher role.
pub fn login_solution_overview(user: Option<&AuthenticatedUser>) -> (r: Result<FlashRedirect, u16>)
    ensures
        match user {
            Option::Some(_) => r matches Err(s) && s == 403,
            Option::None => r matches Ok(f) && is_login_redirect(f),
        },
{
    handle_insufficient_permissions(user)
}

/// The student's solution overview without the student role.
pub fn login_my_solution_overview(user: Option<&AuthenticatedUser>) -> (r: Result<
    FlashRedirect,
    u16,
>)
    ensures
        match user {
            Option::Some(_) => r matches Err(s) && s == 403,
            Option::None => r matches Ok(f) && is_login_redirect(f),
        },
{
    handle_insufficient_permissions(user)
}

/// The solution trash without the student role.
pub fn login_trashed_solutions(user: Option<&AuthenticatedUser>) -> (r: Result<FlashRedirect, u16>)
    ensures
        match user {
            Option::Some(_) => r matches Err(s) && s == 403,
            Option::None => r matches Ok(f) && is_login_redirect(f),
        },
{
    handle_insufficient_permissions(user)
}

/// The recent solutions without the student role.
pub fn login_recent_solutions(user: Option<&AuthenticatedUser>) -> (r: Result<FlashRedirect, u16>)
    ensures
        match user {
            Option::Some(_) => r matches Err(s) && s == 403,
            Option::None => r matches Ok(f) && is_login_redirect(f),
        },
{
    handle_insufficient_permissions(user)
}

/// A sheet's solutions without the teacher role.
pub fn login_sheet_solutions(user: Option<&AuthenticatedUser>, _id: u64) -> (r: Result<
    FlashRedirect,
    u16,
>)
    ensures
        match user {
            Option::Some(_) => r matches Err(s) && s == 403,
            Option::None => r matches Ok(f) && is_login_redirect(f),
        },
{
    handle_insufficient_permissions(user)
}

/// The student's solutions for a sheet without the student role.
pub fn login_my_sheet_solutions(user: Option<&AuthenticatedUser>, _id: u64) -> (r: Result<
    FlashRedirect,
    u16,
>)
    ensures
        match user {
            Option::Some(_) => r matches Err(s) && s == 403,
            Option::None => r matches Ok(f) && is_login_redirect(f),
        },
{
    handle_insufficient_permissions(user)
}

/// The latest solution without the student role.
pub fn login_latest_solution(user: Option<&AuthenticatedUser>, _sheet_id: u64) -> (r: Result<
    FlashRedirect,
    u16,
>)
    ensures
        match user {
            Option::Some(_) => r matches Err(s) && s == 403,
            Option::None => r matches Ok(f) && is_login_redirect(f),
        },
{
    handle_insufficient_permissions(user)
}

/// One of the student's own solutions without the student role.
pub fn login_my_solution(
    user: Option<&AuthenticatedUser>,
    _sheet_id: u64,
    _solution_id: u64,
) -> (r: Result<FlashRedirect, u16>)
    ensures
        match user {
            Option::Some(_) => r matches Err(s) && s == 403,
            Option::None => r matches Ok(f) && is_login_redirect(f),
        },
{
    handle_insufficient_permissions(user)
}

/// A student's latest solution without the teacher role.
pub fn login_latest_student_solution(
    user: Option<&AuthenticatedUser>,
    _sheet_id: u64,
    _student_id: i32,
) -> (r: Result<FlashRedirect, u16>)
    ensures
        match user {
            Option::Some(_) => r matches Err(s) && s == 403,
            Option::None => r matches Ok(f) && is_login_redirect(f),
        },
{
    handle_insufficient_permissions(user)
}

/// A student's solution without the teacher role.
pub fn login_student_solution(
    user: Option<&AuthenticatedUser>,
    _sheet_id: u64,
    _student_id: i32,
) -> (r: Result<FlashRedirect, u16>)
    ensures
        match user {
            Option::Some(_) => r matches Err(s) && s == 403,
            Option::None => r matches Ok(f) && is_login_redirect(f),
        },
{
    handle_insufficient_permissions(user)
}

} // verus!
