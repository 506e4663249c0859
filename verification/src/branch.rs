//! Sequences of branches: each branch may have a next and a previous branch, recorded as
//! symbolic references `refs/pipe-next/<branch>` and `refs/pipe-prev/<branch>`.
use crate::git::{local_full_spec, BranchName, LocalBranchName, LocalBranchNameView, ReferenceSpec};
use crate::repo::{
    delete_reference, error_text, find_reference, is_branch, reference_symbolic,
    follow_symbolic, resolve_symbolic_reference, shorthand, RefErr,
};
use crate::text::{str_eq, string_views, strip_prefix, strip_prefix_spec};
use vstd::prelude::*;

verus! {

/// The reference that names the branch after `name`.
pub open spec fn pipe_next_spec(name: Seq<char>) -> Seq<char> {
    "refs/pipe-next/"@ + name
}

/// The reference that names the branch before `name`.
pub open spec fn pipe_prev_spec(name: Seq<char>) -> Seq<char> {
    "refs/pipe-prev/"@ + name
}

/// A branch that stands next to another one in a sequence.
pub trait SiblingBranch: ReferenceSpec + Sized {
    /// The error reported when the sibling cannot be followed.
    type BranchError;

    /// The sibling reference of `name`.
    fn of(name: LocalBranchName) -> (r: Self)
        ensures
            r.branch_spec() == name@,
            r.full_spec() == Self::prefix() + name@.name,
    ;

    /// The branch whose sibling this is.
    spec fn branch_spec(&self) -> LocalBranchNameView;

    /// The prefix of the sibling references of this kind.
    spec fn prefix() -> Seq<char>;

    /// Wrap an error of following the sibling reference.
    fn wrap(err: RefErr) -> Self::BranchError;

    /// The message for an error of following the sibling reference.
    fn describe(err: RefErr) -> String;
}

/// The reference to the branch after `name`.
#[derive(Debug)]
pub struct PipeNext {
    pub name: LocalBranchName,
}

/// The reference to the branch before `name`.
#[derive(Debug)]
pub struct PipePrev {
    pub name: LocalBranchName,
}

impl ReferenceSpec for PipeNext {
    open spec fn full_spec(&self) -> Seq<char> {
        pipe_next_spec(self.name@.name)
    }

    fn full(&self) -> (r: String) {
        let mut r = String::from_str("refs/pipe-next/");
        r.append(self.name.branch_name());
        r
    }
}

impl ReferenceSpec for PipePrev {
    open spec fn full_spec(&self) -> Seq<char> {
        pipe_prev_spec(self.name@.name)
    }

    fn full(&self) -> (r: String) {
        let mut r = String::from_str("refs/pipe-prev/");
        r.append(self.name.branch_name());
        r
    }
}

impl From<LocalBranchName> for PipeNext {
    fn from(name: LocalBranchName) -> (r: PipeNext) {
        PipeNext { name }
    }
}

impl vstd::std_specs::convert::FromSpecImpl<LocalBranchName> for PipeNext {
    open spec fn obeys_from_spec() -> bool {
        true
    }

    open spec fn from_spec(name: LocalBranchName) -> PipeNext {
        PipeNext { name }
    }
}

impl From<LocalBranchName> for PipePrev {
    fn from(name: LocalBranchName) -> (r: PipePrev) {
        PipePrev { name }
    }
}

impl vstd::std_specs::convert::FromSpecImpl<LocalBranchName> for PipePrev {
    open spec fn obeys_from_spec() -> bool {
        true
    }

    open spec fn from_spec(name: LocalBranchName) -> PipePrev {
        PipePrev { name }
    }
}

/// An error of following the reference to the next branch.
#[derive(Debug)]
pub struct NextRefErr(pub RefErr);

/// An error of following the reference to the previous branch.
#[derive(Debug)]
pub struct PrevRefErr(pub RefErr);

impl NextRefErr {
    /// The message shown for the error.
    pub fn message(&self) -> (r: String)
        ensures
            self.0 is NotFound ==> r@ == "No next branch."@,
            self.0 is NotBranch ==> r@ == "Next entry is not a branch."@,
            self.0 is NotUtf8 ==> r@ == "Next entry is not valid utf-8."@,
    {
        match &self.0 {
            RefErr::NotFound(_) => String::from_str("No next branch."),
            RefErr::NotBranch => String::from_str("Next entry is not a branch."),
            RefErr::NotUtf8 => String::from_str("Next entry is not valid utf-8."),
            RefErr::Other(err) => error_text(err),
        }
    }
}

impl PrevRefErr {
    /// The message shown for the error.
    pub fn message(&self) -> (r: String)
        ensures
            self.0 is NotFound ==> r@ == "No previous branch."@,
            self.0 is NotBranch ==> r@ == "Previous entry is not a branch."@,
            self.0 is NotUtf8 ==> r@ == "Previous entry is not valid utf-8."@,
    {
        match &self.0 {
            RefErr::NotFound(_) => String::from_str("No previous branch."),
            RefErr::NotBranch => String::from_str("Previous entry is not a branch."),
            RefErr::NotUtf8 => String::from_str("Previous entry is not valid utf-8."),
            RefErr::Other(err) => error_text(err),
        }
    }
}

impl SiblingBranch for PipeNext {
    type BranchError = NextRefErr;

    fn of(name: LocalBranchName) -> (r: PipeNext) {
        PipeNext { name }
    }

    open spec fn branch_spec(&self) -> LocalBranchNameView {
        self.name@
    }

    open spec fn prefix() -> Seq<char> {
        "refs/pipe-next/"@
    }

    fn wrap(err: RefErr) -> (r: NextRefErr)
        ensures
            r.0 == err,
    {
        NextRefErr(err)
    }

    fn describe(err: RefErr) -> (r: String)
        ensures
            err is NotFound ==> r@ == "No next branch."@,
            err is NotBranch ==> r@ == "Next entry is not a branch."@,
            err is NotUtf8 ==> r@ == "Next entry is not valid utf-8."@,
    {
        NextRefErr(err).message()
    }
}

impl SiblingBranch for PipePrev {
    type BranchError = PrevRefErr;

    fn of(name: LocalBranchName) -> (r: PipePrev) {
        PipePrev { name }
    }

    open spec fn branch_spec(&self) -> LocalBranchNameView {
        self.name@
    }

    open spec fn prefix() -> Seq<char> {
        "refs/pipe-prev/"@
    }

    fn wrap(err: RefErr) -> (r: PrevRefErr)
        ensures
            r.0 == err,
    {
        PrevRefErr(err)
    }

    fn describe(err: RefErr) -> (r: String)
        ensures
            err is NotFound ==> r@ == "No previous branch."@,
            err is NotBranch ==> r@ == "Previous entry is not a branch."@,
            err is NotUtf8 ==> r@ == "Previous entry is not valid utf-8."@,
    {
        PrevRefErr(err).message()
    }
}

/// A reference that is not a usable local branch.
pub enum BranchValidationError<'repo> {
    NotLocalBranch(&'repo git2::Reference<'repo>),
    NotUtf8(&'repo git2::Reference<'repo>),
}

impl<'repo> BranchValidationError<'repo> {
    /// The message shown for the error.
    pub fn message(&self) -> (r: String)
        ensures
            self is NotLocalBranch ==> r@ == "Not local branch"@,
            self is NotUtf8 ==> r@ == "Not UTF-8"@,
    {
        match self {
            BranchValidationError::NotLocalBranch(_) => String::from_str("Not local branch"),
            BranchValidationError::NotUtf8(_) => String::from_str("Not UTF-8"),
        }
    }
}

/// Why two branches could not be linked.
pub enum LinkFailure<'repo> {
    BranchValidationError(BranchValidationError<'repo>),
    PrevReferenceExists,
    NextReferenceExists,
    SameReference,
    Git2Error(git2::Error),
}

impl<'repo> LinkFailure<'repo> {
    /// The message shown for the failure.
    pub fn message(&self) -> (r: String)
        ensures
            self is PrevReferenceExists ==> r@ == "Previous reference exists"@,
            self is NextReferenceExists ==> r@ == "NextReferenceExists"@,
            self is SameReference ==> r@ == "Previous and next are the same."@,
            self matches LinkFailure::BranchValidationError(BranchValidationError::NotLocalBranch(
                _,
            )) ==> r@ == "Not local branch"@,
            self matches LinkFailure::BranchValidationError(BranchValidationError::NotUtf8(_))
                ==> r@ == "Not UTF-8"@,
    {
        match self {
            LinkFailure::BranchValidationError(err) => err.message(),
            LinkFailure::PrevReferenceExists => String::from_str("Previous reference exists"),
            LinkFailure::NextReferenceExists => String::from_str("NextReferenceExists"),
            LinkFailure::SameReference => String::from_str("Previous and next are the same."),
            LinkFailure::Git2Error(err) => error_text(err),
        }
    }
}

impl LocalBranchName {
    /// The local branch that a reference is, given whether it is a local branch and its
    /// shorthand (none when that is not UTF-8).
    pub fn from_reference_parts<'repo>(
        reference: &'repo git2::Reference<'repo>,
        branch: bool,
        short: Option<String>,
    ) -> (r: Result<LocalBranchName, BranchValidationError<'repo>>)
        ensures
            !branch ==> r matches Err(BranchValidationError::NotLocalBranch(_)),
            branch && short is None ==> r matches Err(BranchValidationError::NotUtf8(_)),
            branch && short is Some ==> (r matches Ok(b) && b@ == (LocalBranchNameView {
                name: short->0@,
                is_shorthand: None,
            })),
    {
        if !branch {
            return Err(BranchValidationError::NotLocalBranch(reference));
        }
        match short {
            Some(n) => Ok(LocalBranchName::new(n, None)),
            None => Err(BranchValidationError::NotUtf8(reference)),
        }
    }

    /// The local branch that a reference is; an error when it is not a local branch or
    /// its name is not UTF-8.
    pub fn try_from_reference<'repo>(reference: &'repo git2::Reference<'repo>) -> (r: Result<
        LocalBranchName,
        BranchValidationError<'repo>,
    >)
        ensures
            r matches Ok(b) ==> b@.is_shorthand is None,
    {
        let branch = is_branch(reference);
        let short = if branch {
            match shorthand(reference) {
                Ok(s) => Some(s),
                Err(_) => None,
            }
        } else {
            None
        };
        LocalBranchName::from_reference_parts(reference, branch, short)
    }
}

/// libgit2's shorthand of a reference name: the name without the first of `refs/heads/`,
/// `refs/tags/`, `refs/remotes/` and `refs/` that starts it, else the whole name.
pub open spec fn shorthand_spec(name: Seq<char>) -> Seq<char> {
    match strip_prefix_spec(name, "refs/heads/"@) {
        Some(rest) => rest,
        None => match strip_prefix_spec(name, "refs/tags/"@) {
            Some(rest) => rest,
            None => match strip_prefix_spec(name, "refs/remotes/"@) {
                Some(rest) => rest,
                None => match strip_prefix_spec(name, "refs/"@) {
                    Some(rest) => rest,
                    None => name,
                },
            },
        },
    }
}

/// libgit2's shorthand of a reference name (`git_reference_shorthand`, which depends on the
/// name alone).
pub fn shorthand_of(name: &str) -> (r: String)
    ensures
        r@ == shorthand_spec(name@),
{
    if let Some(rest) = strip_prefix(name, "refs/heads/") {
        return rest.to_owned();
    }
    if let Some(rest) = strip_prefix(name, "refs/tags/") {
        return rest.to_owned();
    }
    if let Some(rest) = strip_prefix(name, "refs/remotes/") {
        return rest.to_owned();
    }
    if let Some(rest) = strip_prefix(name, "refs/") {
        return rest.to_owned();
    }
    name.to_owned()
}

/// The shortest name of a reference of full name `full`, given whether the repository
/// has it: its shorthand when it does, else the full name.
pub fn shortest_name(full: String, found: bool) -> (r: String)
    ensures
        found ==> r@ == shorthand_spec(full@),
        !found ==> r@ == full@,
{
    if found {
        shorthand_of(full.as_str())
    } else {
        full
    }
}

/// The shortest name of a reference: its shorthand when the repository has it, else its
/// full name.  A reference found under a full name has that name, so its shorthand is
/// [`shorthand_spec`] of the full name.
pub fn find_shortest<T: ReferenceSpec>(spec: &T, repo: &git2::Repository) -> (r: String)
    ensures
        r@ == shorthand_spec(spec.full_spec()) || r@ == spec.full_spec(),
{
    let full = spec.full();
    let found = find_reference(repo, full.as_str()).is_ok();
    shortest_name(full, found)
}

/// Whether two branches may be linked, given whether the previous-branch reference of
/// `next_name` and the next-branch reference of `prev_name` already exist.
pub fn check_link<'repo>(
    prev_name: &LocalBranchName,
    next_name: &LocalBranchName,
    prev_ref_exists: bool,
    next_ref_exists: bool,
) -> (r: Result<(), LinkFailure<'repo>>)
    ensures
        prev_name@ == next_name@ ==> r matches Err(LinkFailure::SameReference),
        prev_name@ != next_name@ && prev_ref_exists ==> r matches Err(
            LinkFailure::PrevReferenceExists,
        ),
        prev_name@ != next_name@ && !prev_ref_exists && next_ref_exists ==> r matches Err(
            LinkFailure::NextReferenceExists,
        ),
        prev_name@ != next_name@ && !prev_ref_exists && !next_ref_exists ==> r is Ok,
{
    if str_eq(prev_name.branch_name(), next_name.branch_name()) && prev_name.is_shorthand()
        == next_name.is_shorthand() {
        proof {
            assert(prev_name@ == next_name@);
        }
        return Err(LinkFailure::SameReference);
    }
    if prev_ref_exists {
        return Err(LinkFailure::PrevReferenceExists);
    }
    if next_ref_exists {
        return Err(LinkFailure::NextReferenceExists);
    }
    Ok(())
}

/// The symbolic references that link `prev` and `next`, each with the reference it points
/// at: `refs/pipe-next/<prev>` to `refs/heads/<next>`, then `refs/pipe-prev/<next>` to
/// `refs/heads/<prev>`.
pub fn link_plan(prev: &LocalBranchName, next: &LocalBranchName) -> (r: Vec<(String, String)>)
    ensures
        r@.len() == 2,
        r@[0].0@ == pipe_next_spec(prev@.name) && r@[0].1@ == local_full_spec(next@.name),
        r@[1].0@ == pipe_prev_spec(next@.name) && r@[1].1@ == local_full_spec(prev@.name),
{
    let mut r: Vec<(String, String)> = Vec::new();
    r.push((PipeNext { name: prev.duplicate() }.full(), next.full()));
    r.push((PipePrev { name: next.duplicate() }.full(), prev.full()));
    r
}

/// The (reference, target) pairs of [`link_plan`], as views.
pub open spec fn link_plan_spec(prev: Seq<char>, next: Seq<char>) -> Seq<(Seq<char>, Seq<char>)> {
    seq![(pipe_next_spec(prev), local_full_spec(next)), (pipe_prev_spec(next), local_full_spec(prev))]
}

/// Link two branches: `next_name` becomes the branch after `prev_name`, by the symbolic
/// references of [`link_plan`].  Refused when the branches are the same or either link
/// exists.
pub fn link_branches<'repo>(
    repo: &git2::Repository,
    prev_name: &LocalBranchName,
    next_name: &LocalBranchName,
) -> (r: Result<(), LinkFailure<'repo>>)
    ensures
        r matches Err(LinkFailure::SameReference) <==> prev_name@ == next_name@,
        !(r matches Err(LinkFailure::BranchValidationError(_))),
{
    link_branches_planned(repo, prev_name, next_name).1
}

/// Link two branches as [`link_branches`] does, and give the links that it checks for and
/// writes, as (reference, target) pairs.
pub fn link_branches_planned<'repo>(
    repo: &git2::Repository,
    prev_name: &LocalBranchName,
    next_name: &LocalBranchName,
) -> (r: (Vec<(String, String)>, Result<(), LinkFailure<'repo>>))
    ensures
        crate::git::pair_views(r.0@) == link_plan_spec(prev_name@.name, next_name@.name),
        r.1 matches Err(LinkFailure::SameReference) <==> prev_name@ == next_name@,
        !(r.1 matches Err(LinkFailure::BranchValidationError(_))),
{
    let plan = link_plan(prev_name, next_name);
    proof {
        assert(crate::git::pair_views(plan@) =~= link_plan_spec(prev_name@.name, next_name@.name));
    }
    if str_eq(prev_name.branch_name(), next_name.branch_name()) && prev_name.is_shorthand()
        == next_name.is_shorthand() {
        proof {
            assert(prev_name@ == next_name@);
        }
        return (plan, Err(LinkFailure::SameReference));
    }
    let prev_exists = find_reference(repo, plan[1].0.as_str()).is_ok();
    let next_exists = if prev_exists {
        false
    } else {
        find_reference(repo, plan[0].0.as_str()).is_ok()
    };
    if let Err(e) = check_link(prev_name, next_name, prev_exists, next_exists) {
        return (plan, Err(e));
    }
    let mut k: usize = 0;
    while k < plan.len()
        invariant
            plan@.len() == 2,
            prev_name@ != next_name@,
            crate::git::pair_views(plan@) == link_plan_spec(prev_name@.name, next_name@.name),
        decreases plan@.len() - k,
    {
        if let Err(err) = reference_symbolic(
            repo,
            plan[k].0.as_str(),
            plan[k].1.as_str(),
            false,
            "Connecting branches",
        ) {
            return (plan, Err(LinkFailure::Git2Error(err)));
        }
        k = k + 1;
    }
    (plan, Ok(()))
}

/// The next step along a sequence, from what following the sibling reference gave: no
/// step when there is no such reference, the branch when it names a local branch.
pub fn advance_from(resolved: Result<String, RefErr>) -> (r: Result<Option<LocalBranchName>, RefErr>)
    ensures
        match resolved {
            Err(RefErr::NotFound(_)) => r matches Ok(None),
            Err(e) => r == Err::<Option<LocalBranchName>, RefErr>(e),
            Ok(name) => match crate::git::parse_branch_name_spec(name@) {
                Some((true, _, local)) => r matches Ok(Some(b)) && b@ == (LocalBranchNameView {
                    name: local,
                    is_shorthand: None,
                }),
                _ => r matches Err(RefErr::NotBranch),
            },
        },
{
    let ref_string = match resolved {
        Ok(next) => next,
        Err(RefErr::NotFound(_)) => return Ok(None),
        Err(err) => return Err(err),
    };
    match BranchName::parse(ref_string.as_str()) {
        Ok(BranchName::Local(local)) => Ok(Some(local)),
        _ => Err(RefErr::NotBranch),
    }
}

/// The sibling of `current_lb` along a sequence (the next or the previous branch,
/// according to `T`), if it has one.
pub fn advance<T: SiblingBranch>(repo: &git2::Repository, current_lb: LocalBranchName) -> (r: Result<
    Option<LocalBranchName>,
    RefErr,
>)
    ensures
        r matches Ok(Some(b)) ==> b@.is_shorthand is None,
        r matches Err(e) ==> !(e is NotFound),
{
    advance_traced::<T>(repo, current_lb).1
}

/// The sibling of `current_lb` along a sequence, as [`advance`] gives it, with the full
/// name of the sibling reference followed to find it.
pub fn advance_traced<T: SiblingBranch>(repo: &git2::Repository, current_lb: LocalBranchName) -> (r: (
    String,
    Result<Option<LocalBranchName>, RefErr>,
))
    ensures
        r.0@ == T::prefix() + current_lb@.name,
        r.1 matches Ok(Some(b)) ==> b@.is_shorthand is None,
        r.1 matches Err(e) ==> !(e is NotFound),
{
    let full = T::of(current_lb).full();
    let step = advance_from(follow_symbolic(repo, full.as_str()));
    (full, step)
}


/// What taking `name` out of its sequence does, given its previous and next branches:
/// the sibling references to delete (its own two, the next reference of its previous
/// branch and the previous reference of its next branch), and the branches to link to
/// each other when it stood between two different branches.
pub fn unlink_plan(
    name: &LocalBranchName,
    prev: Option<LocalBranchName>,
    next: Option<LocalBranchName>,
) -> (r: (Vec<String>, Option<(LocalBranchName, LocalBranchName)>))
    ensures
        string_views(r.0@) == seq![pipe_prev_spec(name@.name), pipe_next_spec(name@.name)] + match prev {
            Some(p) => seq![pipe_next_spec(p@.name)],
            None => Seq::empty(),
        } + match next {
            Some(n) => seq![pipe_prev_spec(n@.name)],
            None => Seq::empty(),
        },
        match (prev, next) {
            (Some(p), Some(n)) => if p@ != n@ {
                r.1 matches Some((a, b)) && a@ == p@ && b@ == n@
            } else {
                r.1 is None
            },
            _ => r.1 is None,
        },
{
    let mut refs: Vec<String> = Vec::new();
    refs.push(PipePrev { name: name.duplicate() }.full());
    refs.push(PipeNext { name: name.duplicate() }.full());
    let ghost own = string_views(refs@);
    proof {
        assert(own =~= seq![pipe_prev_spec(name@.name), pipe_next_spec(name@.name)]);
    }
    if let Some(p) = &prev {
        refs.push(PipeNext { name: p.duplicate() }.full());
    }
    let ghost with_prev = string_views(refs@);
    proof {
        assert(with_prev =~= own + match prev {
            Some(p) => seq![pipe_next_spec(p@.name)],
            None => Seq::<Seq<char>>::empty(),
        });
    }
    if let Some(n) = &next {
        refs.push(PipePrev { name: n.duplicate() }.full());
    }
    proof {
        assert(string_views(refs@) =~= with_prev + match next {
            Some(n) => seq![pipe_prev_spec(n@.name)],
            None => Seq::<Seq<char>>::empty(),
        });
    }
    let link = match (prev, next) {
        (Some(p), Some(n)) => if str_eq(p.branch_name(), n.branch_name()) && p.is_shorthand()
            == n.is_shorthand() {
            None
        } else {
            Some((p, n))
        },
        _ => None,
    };
    (refs, link)
}

/// What relinking the branches around one taken out of a sequence gives: only a failure
/// of libgit2 itself counts; a refusal (an existing link, the same branch) leaves the
/// sequence as it is and is no failure.
pub fn relink_result(link: Result<(), LinkFailure>) -> (r: Result<(), RefErr>)
    ensures
        link matches Err(LinkFailure::Git2Error(e)) ==> (r matches Err(f) && (f == RefErr::NotFound(e)
            || f == RefErr::Other(e))),
        !(link matches Err(LinkFailure::Git2Error(_))) ==> r is Ok,
{
    match link {
        Err(LinkFailure::Git2Error(err)) => Err(RefErr::from_error(err)),
        _ => Ok(()),
    }
}

/// What taking a branch out of its sequence did.
pub struct Unlinking {
    /// The sibling references followed to find the previous and the next branch.
    pub followed: (String, String),
    /// The previous branch found, if any.
    pub prev: Option<LocalBranchName>,
    /// The next branch found, if any.
    pub next: Option<LocalBranchName>,
    /// The references deleted, in order (up to the first failure).
    pub deleted: Vec<String>,
    /// The links checked for and written between the previous and the next branch, as
    /// (reference, target) pairs, when the branch stood between two different branches.
    pub linked: Option<Vec<(String, String)>>,
}

/// `u` is what taking `name` out of its sequence did, as [`unlink_plan`] says it.
pub open spec fn unlinks(u: Unlinking, name: Seq<char>, ok: bool) -> bool {
    &&& u.followed.0@ == pipe_prev_spec(name)
    &&& u.followed.1@ == pipe_next_spec(name)
    &&& string_views(u.deleted@) == seq![pipe_prev_spec(name), pipe_next_spec(name)] + match u.prev {
        Some(p) => seq![pipe_next_spec(p@.name)],
        None => Seq::empty(),
    } + match u.next {
        Some(n) => seq![pipe_prev_spec(n@.name)],
        None => Seq::empty(),
    }
    &&& u.linked matches Some(plan) ==> (u.prev matches Some(p) && u.next matches Some(n) && p@ != n@
        && crate::git::pair_views(plan@) == link_plan_spec(p@.name, n@.name))
    &&& ok ==> (u.linked is Some <==> (u.prev matches Some(p) && u.next matches Some(n) && p@ != n@))
}

/// Take a branch out of its sequence: remove its links, and link its previous and next
/// branches to each other.
pub fn unlink_branch(repo: &git2::Repository, name: &LocalBranchName) -> (r: Result<(), RefErr>) {
    unlink_branch_planned(repo, name).1
}

/// Take a branch out of its sequence as [`unlink_branch`] does, and give what it did: none
/// when looking up its previous or next branch failed.
pub fn unlink_branch_planned(repo: &git2::Repository, name: &LocalBranchName) -> (r: (
    Option<Unlinking>,
    Result<(), RefErr>,
))
    ensures
        r.0 is None ==> (r.1 matches Err(e) && !(e is NotFound)),
        r.0 matches Some(u) ==> unlinks(u, name@.name, r.1 is Ok),
        r.0 is Some ==> (r.1 matches Err(e) ==> (e is NotFound || e is Other)),
{
    let (prev_ref, prev) = advance_traced::<PipePrev>(repo, name.duplicate());
    let prev = match prev {
        Ok(p) => p,
        Err(e) => return (None, Err(e)),
    };
    let (next_ref, next) = advance_traced::<PipeNext>(repo, name.duplicate());
    let next = match next {
        Ok(n) => n,
        Err(e) => return (None, Err(e)),
    };
    let prev_copy = match &prev {
        Some(p) => Some(p.duplicate()),
        None => None,
    };
    let next_copy = match &next {
        Some(n) => Some(n.duplicate()),
        None => None,
    };
    let (refs, link) = unlink_plan(name, prev_copy, next_copy);
    let ghost planned = string_views(refs@);
    let mut k: usize = 0;
    while k < refs.len()
        invariant
            prev_ref@ == pipe_prev_spec(name@.name),
            next_ref@ == pipe_next_spec(name@.name),
            planned == string_views(refs@),
            planned == seq![pipe_prev_spec(name@.name), pipe_next_spec(name@.name)] + match prev {
                Some(p) => seq![pipe_next_spec(p@.name)],
                None => Seq::empty(),
            } + match next {
                Some(n) => seq![pipe_prev_spec(n@.name)],
                None => Seq::empty(),
            },
        decreases refs@.len() - k,
    {
        if let Err(e) = delete_reference(repo, refs[k].as_str()) {
            let u = Unlinking { followed: (prev_ref, next_ref), prev, next, deleted: refs, linked: None };
            return (Some(u), Err(e));
        }
        k = k + 1;
    }
    let (linked, result) = match link {
        Some((p, n)) => {
            let (plan, linked) = link_branches_planned(repo, &p, &n);
            (Some(plan), relink_result(linked))
        },
        None => (None, Ok(())),
    };
    (Some(Unlinking { followed: (prev_ref, next_ref), prev, next, deleted: refs, linked }), result)
}

} // verus!
