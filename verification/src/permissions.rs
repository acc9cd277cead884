//! Guards: the conditions on the authenticated caller that a route states.

use vstd::prelude::*;
use crate::middleware::auth::AuthContext;
use crate::text::string_views;

verus! {

/// A condition that a route puts on its caller.
#[derive(Debug)]
pub enum Guard {
    /// Anyone may call.
    AllowAny,
    /// The caller must be authenticated.
    IsAuthenticated,
    /// The caller must be an administrator.
    IsAdmin,
    /// The caller must be staff.
    IsStaff,
    /// The caller must hold the permission.
    HasPermission(String),
    /// The caller must hold one of the permissions.
    HasAnyPermission(Vec<String>),
    /// The caller must hold each of the permissions.
    HasAllPermissions(Vec<String>),
}

/// What a guard, or a list of guards, says of a caller.
#[derive(Debug, Clone, Copy, PartialEq, Eq, Structural)]
pub enum GuardResult {
    Allow,
    /// Nobody is authenticated.
    Unauthorized,
    /// The authenticated caller does not meet the condition.
    Forbidden,
}

/// What is known of an authenticated caller, as far as guards look at it.
pub struct Caller {
    pub is_staff: bool,
    pub is_admin: bool,
    pub permissions: Seq<Seq<char>>,
}

/// The caller that an authentication context describes.
pub open spec fn caller_of(ctx: Option<AuthContext>) -> Option<Caller> {
    match ctx {
        Some(c) => Some(
            Caller {
                is_staff: c.is_staff,
                is_admin: c.is_admin,
                permissions: string_views(c.permissions@),
            },
        ),
        None => None,
    }
}

/// Whether an authenticated caller meets the condition of a guard.
pub open spec fn guard_met(g: Guard, c: Caller) -> bool {
    match g {
        Guard::AllowAny => true,
        Guard::IsAuthenticated => true,
        Guard::IsAdmin => c.is_admin,
        Guard::IsStaff => c.is_staff,
        Guard::HasPermission(p) => c.permissions.contains(p@),
        Guard::HasAnyPermission(ps) => exists|i: int|
            0 <= i < ps@.len() && c.permissions.contains((#[trigger] ps@[i])@),
        Guard::HasAllPermissions(ps) => forall|i: int|
            0 <= i < ps@.len() ==> c.permissions.contains((#[trigger] ps@[i])@),
    }
}

/// What one guard says: anyone passes `AllowAny`; every other guard turns
/// away an unauthenticated caller as unauthorized and an authenticated one
/// who does not meet its condition as forbidden.
pub open spec fn guard_verdict(g: Guard, caller: Option<Caller>) -> GuardResult {
    if g is AllowAny {
        GuardResult::Allow
    } else {
        match caller {
            None => GuardResult::Unauthorized,
            Some(c) => if guard_met(g, c) {
                GuardResult::Allow
            } else {
                GuardResult::Forbidden
            },
        }
    }
}

/// What a list of guards says: the verdict of the first guard that does not
/// allow, or `Allow` if every guard allows.
pub open spec fn guards_verdict(guards: Seq<Guard>, caller: Option<Caller>) -> GuardResult
    decreases guards.len(),
{
    if guards.len() == 0 {
        GuardResult::Allow
    } else if guard_verdict(guards[0], caller) != GuardResult::Allow {
        guard_verdict(guards[0], caller)
    } else {
        guards_verdict(guards.drop_first(), caller)
    }
}

/// Whether the list holds the text.
fn holds(list: &Vec<String>, wanted: &str) -> (r: bool)
    ensures
        r == string_views(list@).contains(wanted@),
{
    let mut i: usize = 0;
    while i < list.len()
        invariant
            i <= list.len(),
            forall|j: int| 0 <= j < i ==> (#[trigger] list@[j])@ != wanted@,
        decreases list.len() - i,
    {
        if list[i].as_str().eq(wanted) {
            assert(string_views(list@)[i as int] == wanted@);
            return true;
        }
        i += 1;
    }
    assert forall|j: int| 0 <= j < string_views(list@).len() implies string_views(list@)[j]
        != wanted@ by {}
    false
}

/// Decides whether an authenticated caller meets the condition of a guard.
fn meets(g: &Guard, ctx: &AuthContext) -> (r: bool)
    ensures
        r == guard_met(*g, caller_of(Some(*ctx))->0),
{
    match g {
        Guard::AllowAny => true,
        Guard::IsAuthenticated => true,
        Guard::IsAdmin => ctx.is_admin,
        Guard::IsStaff => ctx.is_staff,
        Guard::HasPermission(p) => holds(&ctx.permissions, p.as_str()),
        Guard::HasAnyPermission(ps) => holds_any(&ctx.permissions, ps),
        Guard::HasAllPermissions(ps) => holds_all(&ctx.permissions, ps),
    }
}

/// Whether the list holds one of the wanted texts.
fn holds_any(list: &Vec<String>, wanted: &Vec<String>) -> (r: bool)
    ensures
        r == exists|i: int|
            0 <= i < wanted@.len() && string_views(list@).contains((#[trigger] wanted@[i])@),
{
    let mut i: usize = 0;
    while i < wanted.len()
        invariant
            i <= wanted.len(),
            forall|j: int|
                0 <= j < i ==> !string_views(list@).contains((#[trigger] wanted@[j])@),
        decreases wanted.len() - i,
    {
        if holds(list, wanted[i].as_str()) {
            assert(string_views(list@).contains(wanted@[i as int]@));
            return true;
        }
        i += 1;
    }
    false
}

/// Whether the list holds each of the wanted texts.
fn holds_all(list: &Vec<String>, wanted: &Vec<String>) -> (r: bool)
    ensures
        r == forall|i: int|
            0 <= i < wanted@.len() ==> string_views(list@).contains((#[trigger] wanted@[i])@),
{
    let mut i: usize = 0;
    while i < wanted.len()
        invariant
            i <= wanted.len(),
            forall|j: int| 0 <= j < i ==> string_views(list@).contains((#[trigger] wanted@[j])@),
        decreases wanted.len() - i,
    {
        if !holds(list, wanted[i].as_str()) {
            assert(!string_views(list@).contains(wanted@[i as int]@));
            return false;
        }
        i += 1;
    }
    true
}

/// Evaluates the guards of a route in order against the caller.
pub fn evaluate_guards(guards: &Vec<Guard>, auth_ctx: Option<&AuthContext>) -> (r: GuardResult)
    ensures
        r == guards_verdict(guards@, caller_of(opt_context(auth_ctx))),
{
    let ghost caller = caller_of(opt_context(auth_ctx));
    let mut i: usize = 0;
    assert(guards@.skip(0) =~= guards@);
    while i < guards.len()
        invariant
            i <= guards.len(),
            caller == caller_of(opt_context(auth_ctx)),
            guards_verdict(guards@, caller) == guards_verdict(guards@.skip(i as int), caller),
        decreases guards.len() - i,
    {
        let ghost rest = guards@.skip(i as int);
        assert(rest.drop_first() =~= guards@.skip(i + 1));
        assert(rest[0] == guards@[i as int]);
        let g = &guards[i];
        let verdict = match g {
            Guard::AllowAny => GuardResult::Allow,
            _ => match auth_ctx {
                None => GuardResult::Unauthorized,
                Some(ctx) => if meets(g, ctx) {
                    GuardResult::Allow
                } else {
                    GuardResult::Forbidden
                },
            },
        };
        match verdict {
            GuardResult::Allow => {},
            _ => {
                return verdict;
            },
        }
        i += 1;
    }
    GuardResult::Allow
}

/// The context behind an optional reference.
pub open spec fn opt_context(ctx: Option<&AuthContext>) -> Option<AuthContext> {
    match ctx {
        Some(c) => Some(*c),
        None => None,
    }
}

} // verus!
