use vstd::prelude::*;

verus! {

/// A redirect handed back to the routing layer, optionally carrying a
/// one-shot flash message to show on the target page.
#[derive(Debug)]
pub enum FlashRedirect {
    Redirect(String),
    Flash(String, String, String),
}

impl FlashRedirect {
    /// A redirect to `uri` carrying a flash message of the given kind.
    pub fn with_flash(uri: String, kind: String, message: String) -> (r: FlashRedirect)
        ensures
            r matches FlashRedirect::Flash(u, k, m) && u@ == uri@ && k@ == kind@ && m@
                == message@,
    {
        FlashRedirect::Flash(uri, kind, message)
    }

    /// A plain redirect to `uri`.
    pub fn no_flash(uri: String) -> (r: FlashRedirect)
        ensures
            r matches FlashRedirect::Redirect(u) && u@ == uri@,
    {
        FlashRedirect::Redirect(uri)
    }
}

/// A flash message as handed to the template context.
pub struct FlashContext {
    pub kind: String,
    pub message: String,
}

impl FlashContext {
    /// The context a received flash message renders as.
    pub fn from_parts(kind: String, message: String) -> (r: FlashContext)
        ensures
            r.kind@ == kind@,
            r.message@ == message@,
    {
        FlashContext { kind, message }
    }
}

} // verus!
