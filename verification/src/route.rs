//! The frontend's routes and the dialog each one opens, together with the
//! predicate that picks which route paths may be offered for navigation.

use vstd::prelude::*;
use vstd::string::StrSliceExecFns;

verus! {

/// A page route of the frontend. Parameterized routes carry their
/// parameter as a plain value: an invitation by its numeric id, a referrer
/// by its name.
#[derive(Clone, Debug, PartialEq, Eq)]
pub enum Route {
    /// An invitation link.
    Invitation { invitation_id: u32 },
    /// A referrer link.
    Referrer { referrer: String },
    /// The privacy policy page.
    Privacy,
    /// The terms of service page.
    Terms,
    /// The default route, also used when no other matches.
    Home,
}

/// The dialog a route opens over the game view.
#[derive(Clone, Copy, Debug, PartialEq, Eq, Structural)]
pub enum RouteDialog {
    /// No dialog: the plain game view.
    Hidden,
    /// The privacy policy dialog.
    Privacy,
    /// The terms of service dialog.
    Terms,
}

/// The dialog shown for each route: only the privacy and terms routes open
/// one; the home, invitation and referrer routes show the plain view.
pub open spec fn dialog_for(route: Route) -> RouteDialog {
    match route {
        Route::Privacy => RouteDialog::Privacy,
        Route::Terms => RouteDialog::Terms,
        Route::Home | Route::Invitation { .. } | Route::Referrer { .. } => RouteDialog::Hidden,
    }
}

/// Which dialog to render for the current route.
pub fn switch(route: &Route) -> (d: RouteDialog)
    ensures
        d == dialog_for(*route),
{
    match route {
        Route::Home | Route::Invitation { .. } | Route::Referrer { .. } => RouteDialog::Hidden,
        Route::Privacy => RouteDialog::Privacy,
        Route::Terms => RouteDialog::Terms,
    }
}

/// How often `c` occurs in `s`.
pub open spec fn count_char(s: Seq<char>, c: char) -> nat
    decreases s.len(),
{
    if s.len() == 0 {
        0
    } else {
        count_char(s.drop_last(), c) + (if s.last() == c {
            1nat
        } else {
            0nat
        })
    }
}

/// A route path may be offered for navigation when it carries no path
/// parameter (no `:`) and sits exactly one level deep (two `/`, as in
/// `/privacy/`).
pub open spec fn spec_selectable_route(s: Seq<char>) -> bool {
    count_char(s, ':') == 0 && count_char(s, '/') == 2
}

/// Whether a route path template may be offered for navigation.
pub fn is_selectable_route(s: &str) -> (r: bool)
    ensures
        r == spec_selectable_route(s@),
{
    let len = s.unicode_len();
    let mut i: usize = 0;
    let mut colons: usize = 0;
    let mut slashes: usize = 0;
    while i < len
        invariant
            i <= len,
            len == s@.len(),
            colons <= i,
            slashes <= i,
            colons == count_char(s@.subrange(0, i as int), ':'),
            slashes == count_char(s@.subrange(0, i as int), '/'),
        decreases len - i,
    {
        let c = s.get_char(i);
        proof {
            let pre = s@.subrange(0, i as int);
            let post = s@.subrange(0, i + 1 as int);
            assert(post.drop_last() =~= pre);
            assert(post.last() == s@[i as int]);
        }
        if c == ':' {
            colons = colons + 1;
        }
        if c == '/' {
            slashes = slashes + 1;
        }
        i = i + 1;
    }
    proof {
        assert(s@.subrange(0, len as int) =~= s@);
    }
    colons == 0 && slashes == 2
}

} // verus!
