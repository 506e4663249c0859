//! The repository's references, read and written through libgit2 (the `git2` crate).
//!
//! What libgit2 answers depends on the repository on disk, so the functions here that
//! call it state what holds of every answer; the decisions taken on an answer are
//! functions of their own that take it as an argument and have exact contracts.
use crate::git::{BranchName, LocalBranchName, LocalBranchNameView, RefName, AltFormStatus, ReferenceSpec, parsed_as, BranchyName};
use crate::text::{str_eq, utf8_text};
use vstd::prelude::*;
use vstd::utf8::valid_utf8;
use vstd::utf8::decode_utf8;

verus! {

#[verifier::external_type_specification]
#[verifier::external_body]
pub struct ExRepository(git2::Repository);

#[verifier::external_type_specification]
#[verifier::external_body]
pub struct ExReference<'repo>(git2::Reference<'repo>);

#[verifier::external_type_specification]
#[verifier::external_body]
pub struct ExError(git2::Error);

/// libgit2's error class for references (`GIT_ERROR_REFERENCE`).
pub const REFERENCE_CLASS: u32 = 4;

/// libgit2's error class for repositories (`GIT_ERROR_REPOSITORY`).
pub const REPOSITORY_CLASS: u32 = 6;

/// libgit2's error code for something that was not found (`GIT_ENOTFOUND`).
pub const NOT_FOUND_CODE: i32 = -3;

/// `git2::Error::raw_class`: the error's libgit2 class, as its number.
#[verifier::external_body]
fn error_raw_class(err: &git2::Error) -> u32 {
    err.raw_class() as u32
}

/// `git2::Error::raw_code`: the error's libgit2 code, as its number.
#[verifier::external_body]
fn error_raw_code(err: &git2::Error) -> i32 {
    err.raw_code() as i32
}

/// `git2::Error::message`.
#[verifier::external_body]
pub(crate) fn error_message(err: &git2::Error) -> String {
    err.message().to_owned()
}

/// The `Display` text of a `git2::Error`: its message, class and code.
#[verifier::external_body]
pub(crate) fn error_text(err: &git2::Error) -> String {
    format!("{}", err)
}

/// `Repository::find_reference`: the reference of that full name.
#[verifier::external_body]
pub(crate) fn find_reference<'r>(repo: &'r git2::Repository, name: &str) -> Result<git2::Reference<'r>, git2::Error> {
    repo.find_reference(name)
}

/// `Repository::resolve_reference_from_short_name`: the reference that a short name
/// stands for, as git resolves it.
#[verifier::external_body]
pub(crate) fn resolve_reference_from_short_name<'r>(
    repo: &'r git2::Repository,
    name: &str,
) -> Result<git2::Reference<'r>, git2::Error> {
    repo.resolve_reference_from_short_name(name)
}

/// `Repository::reference_symbolic`: create the symbolic reference `name` pointing at
/// `target`, failing if it exists unless `force` is set.
#[verifier::external_body]
pub(crate) fn reference_symbolic(
    repo: &git2::Repository,
    name: &str,
    target: &str,
    force: bool,
    log_message: &str,
) -> Result<(), git2::Error> {
    repo.reference_symbolic(name, target, force, log_message).map(|_| ())
}

/// `Reference::symbolic_target_bytes`: the name that a symbolic reference points at, as
/// bytes; none for a direct reference.
#[verifier::external_body]
pub(crate) fn symbolic_target_bytes(reference: &git2::Reference) -> Option<Vec<u8>> {
    reference.symbolic_target_bytes().map(|b| b.to_vec())
}

/// `Reference::shorthand`: the reference's human-readable short name; an error when it is
/// not UTF-8.
#[verifier::external_body]
pub(crate) fn shorthand(reference: &git2::Reference) -> Result<String, git2::Error> {
    reference.shorthand().map(|s| s.to_owned())
}

/// `Reference::name`: the reference's full name; an error when it is not UTF-8.
#[verifier::external_body]
pub(crate) fn reference_name(reference: &git2::Reference) -> Result<String, git2::Error> {
    reference.name().map(|s| s.to_owned())
}

/// `Reference::is_branch`: whether the reference is a local branch.
#[verifier::external_body]
pub(crate) fn is_branch(reference: &git2::Reference) -> bool {
    reference.is_branch()
}

/// Failure to open the repository.
#[derive(Debug)]
pub enum OpenRepoError {
    NotFound(git2::Error),
    Other(git2::Error),
}

impl OpenRepoError {
    /// Classify an error of opening the repository: a repository that was not found, or
    /// anything else.
    pub fn classify(err: git2::Error, class: u32, code: i32) -> (r: OpenRepoError)
        ensures
            class == REPOSITORY_CLASS && code == NOT_FOUND_CODE ==> r is NotFound,
            !(class == REPOSITORY_CLASS && code == NOT_FOUND_CODE) ==> r is Other,
            r matches OpenRepoError::NotFound(e) ==> e == err,
            r matches OpenRepoError::Other(e) ==> e == err,
    {
        if class == REPOSITORY_CLASS && code == NOT_FOUND_CODE {
            OpenRepoError::NotFound(err)
        } else {
            OpenRepoError::Other(err)
        }
    }

    /// Classify an error of opening the repository by its class and code.
    pub fn from_error(err: git2::Error) -> (r: OpenRepoError)
        ensures
            r matches OpenRepoError::NotFound(e) ==> e == err,
            r matches OpenRepoError::Other(e) ==> e == err,
    {
        let class = error_raw_class(&err);
        let code = error_raw_code(&err);
        OpenRepoError::classify(err, class, code)
    }

    /// The message shown for the error.
    pub fn message(&self) -> (r: String)
        ensures
            self is NotFound ==> r@ == "Not in a Git repository."@,
    {
        match self {
            OpenRepoError::NotFound(_) => String::from_str("Not in a Git repository."),
            OpenRepoError::Other(err) => error_text(err),
        }
    }
}

/// Failure to follow a reference.
#[derive(Debug)]
pub enum RefErr {
    NotFound(git2::Error),
    NotBranch,
    NotUtf8,
    Other(git2::Error),
}

impl RefErr {
    /// Classify a libgit2 error: a reference that was not found, or anything else.
    pub fn classify(err: git2::Error, class: u32, code: i32) -> (r: RefErr)
        ensures
            class == REFERENCE_CLASS && code == NOT_FOUND_CODE ==> r is NotFound,
            !(class == REFERENCE_CLASS && code == NOT_FOUND_CODE) ==> r is Other,
            r matches RefErr::NotFound(e) ==> e == err,
            r matches RefErr::Other(e) ==> e == err,
    {
        if class == REFERENCE_CLASS && code == NOT_FOUND_CODE {
            RefErr::NotFound(err)
        } else {
            RefErr::Other(err)
        }
    }

    /// Classify a libgit2 error by its class and code.
    pub fn from_error(err: git2::Error) -> (r: RefErr)
        ensures
            r is NotFound || r is Other,
            r matches RefErr::NotFound(e) ==> e == err,
            r matches RefErr::Other(e) ==> e == err,
    {
        let class = error_raw_class(&err);
        let code = error_raw_code(&err);
        RefErr::classify(err, class, code)
    }
}

/// What following a symbolic reference gives, from what looking it up gave (the target's
/// bytes, none for a direct reference): its target when that is valid UTF-8.
pub open spec fn read_symbolic_spec(lookup: Result<Option<Seq<u8>>, RefErr>, r: Result<String, RefErr>) -> bool {
    match lookup {
        Err(e) => r == Err::<String, RefErr>(e),
        Ok(None) => r matches Err(RefErr::NotBranch),
        Ok(Some(bytes)) => if valid_utf8(bytes) {
            r matches Ok(s) && s@ == decode_utf8(bytes)
        } else {
            r matches Err(RefErr::NotUtf8)
        },
    }
}

/// The bytes of a lookup's answer, as views.
pub open spec fn lookup_view(lookup: Result<Option<Vec<u8>>, RefErr>) -> Result<Option<Seq<u8>>, RefErr> {
    match lookup {
        Err(e) => Err(e),
        Ok(None) => Ok(None),
        Ok(Some(b)) => Ok(Some(b@)),
    }
}

/// What following a symbolic reference gives, from what looking it up gave: its target
/// when that is valid UTF-8.
pub fn read_symbolic_target(lookup: Result<Option<Vec<u8>>, RefErr>) -> (r: Result<String, RefErr>)
    ensures
        read_symbolic_spec(lookup_view(lookup), r),
{
    let target_bytes = match lookup {
        Err(e) => return Err(e),
        Ok(None) => return Err(RefErr::NotBranch),
        Ok(Some(b)) => b,
    };
    match utf8_text(target_bytes.as_slice()) {
        Some(s) => Ok(s.to_owned()),
        None => Err(RefErr::NotUtf8),
    }
}

/// The name that the symbolic reference `next_ref` points at.
pub fn resolve_symbolic_reference<T: ReferenceSpec>(repo: &git2::Repository, next_ref: &T) -> (r: Result<
    String,
    RefErr,
>)
    ensures
        exists|lookup: Result<Option<Seq<u8>>, RefErr>| #[trigger] read_symbolic_spec(lookup, r),
{
    follow_symbolic(repo, next_ref.full().as_str())
}

/// The name that the symbolic reference of full name `full` points at: what
/// [`read_symbolic_target`] makes of looking the reference up.
pub fn follow_symbolic(repo: &git2::Repository, full: &str) -> (r: Result<String, RefErr>)
    ensures
        exists|lookup: Result<Option<Seq<u8>>, RefErr>| #[trigger] read_symbolic_spec(lookup, r),
{
    let lookup = match find_reference(repo, full) {
        Ok(target_ref) => Ok(symbolic_target_bytes(&target_ref)),
        Err(err) => Err(RefErr::from_error(err)),
    };
    let ghost lv = lookup_view(lookup);
    let r = read_symbolic_target(lookup);
    proof {
        assert(read_symbolic_spec(lv, r));
    }
    r
}

/// The reference name that a short name resolves to, given the full name of the reference
/// it resolved to (none when that name is not UTF-8).
pub fn ref_name_from_resolved(any: String, name: Option<String>) -> (r: RefName)
    ensures
        match name {
            Some(n) => if n@ == any@ {
                r matches RefName::Long { full, short: AltFormStatus::Untried } && full@ == any@
            } else {
                r matches RefName::Long { full, short: AltFormStatus::Original(s) } && full@ == n@
                    && s@ == any@
            },
            None => r matches RefName::Long { full, short: AltFormStatus::Untried } && full@
                == any@,
        },
{
    match name {
        Some(name) => if str_eq(name.as_str(), any.as_str()) {
            RefName::from_long(any)
        } else {
            RefName::from_long_short(name, any, true)
        },
        None => RefName::from_long(any),
    }
}

/// The shorthand status of the full name `full`, given the shorthand that its reference
/// has (none when it was not found or its shorthand is not UTF-8).
pub fn ref_name_with_shorthand(full: String, short: Option<String>) -> (r: RefName)
    ensures
        match short {
            Some(s) => if s@ == full@ {
                r matches RefName::Long { full: f, short: AltFormStatus::Failed } && f@ == full@
            } else {
                r matches RefName::Long { full: f, short: AltFormStatus::Found(t) } && f@ == full@
                    && t@ == s@
            },
            None => r matches RefName::Long { full: f, short: AltFormStatus::Failed } && f@
                == full@,
        },
{
    match short {
        Some(s) => if str_eq(s.as_str(), full.as_str()) {
            RefName::Long { full, short: AltFormStatus::Failed }
        } else {
            RefName::Long { full, short: AltFormStatus::Found(s) }
        },
        None => RefName::Long { full, short: AltFormStatus::Failed },
    }
}

impl RefName {
    /// Convert a full reference name or a shorthand into a reference name, as the
    /// repository resolves it.
    pub fn from_any(any: String, repo: &git2::Repository) -> (r: Result<RefName, RefErr>)
        ensures
            r matches Err(e) ==> e is NotFound || e is Other,
            r matches Ok(n) ==> (n matches RefName::Long { full, short: AltFormStatus::Untried }
                && full@ == any@) || (n matches RefName::Long { short: AltFormStatus::Original(s), .. }
                && s@ == any@),
    {
        let target = match resolve_reference_from_short_name(repo, any.as_str()) {
            Ok(t) => t,
            Err(err) => return Err(RefErr::from_error(err)),
        };
        let name = match reference_name(&target) {
            Ok(n) => Some(n),
            Err(_) => None,
        };
        Ok(ref_name_from_resolved(any, name))
    }

    /// Look up the shorthand of a full name whose shorthand has not been tried yet; other
    /// names are returned as they are.
    pub fn find_shorthand(self, repo: &git2::Repository) -> (r: RefName)
        ensures
            r.longest_spec() == self.longest_spec(),
            !(self matches RefName::Long { short: AltFormStatus::Untried, .. }) ==> r == self,
            self matches RefName::Long { short: AltFormStatus::Untried, .. } ==> (r matches RefName::Long {
                short: AltFormStatus::Failed,
                ..
            } || r matches RefName::Long { short: AltFormStatus::Found(_), .. }),
    {
        match self {
            RefName::Long { full, short: AltFormStatus::Untried } => {
                let short = match find_reference(repo, full.as_str()) {
                    Ok(reference) => match shorthand(&reference) {
                        Ok(s) => Some(s),
                        Err(_) => None,
                    },
                    Err(_) => None,
                };
                ref_name_with_shorthand(full, short)
            },
            _ => self,
        }
    }
}

impl BranchyName {
    /// Resolve an unresolved name against the repository: to a local branch when it names
    /// one, else to a reference name.  Other names are returned as they are.
    pub fn resolve(self, repo: &git2::Repository) -> (r: Result<BranchyName, RefErr>)
        ensures
            !(self is UnresolvedName) ==> r == Ok::<BranchyName, RefErr>(self),
            r matches Ok(b) ==> !(b is UnresolvedName),
    {
        let target = match &self {
            BranchyName::UnresolvedName(target) => target.clone(),
            _ => return Ok(self),
        };
        let ref_name = RefName::from_any(target, repo)?;
        Ok(
            match LocalBranchName::try_from_ref_name(ref_name) {
                Ok(target) => BranchyName::LocalBranch(target),
                Err(target) => BranchyName::RefName(target),
            },
        )
    }
}

/// The current local branch, from the name that `HEAD` points at (none when `HEAD` is
/// detached, or its target is not UTF-8).
pub fn current_from_head(head_target: Option<String>) -> (r: Result<LocalBranchName, String>)
    ensures
        match head_target {
            None => r matches Err(m) && m@ == "HEAD is detached"@,
            Some(t) => match crate::git::parse_branch_name_spec(t@) {
                Some((true, _, local)) => r matches Ok(b) && b@ == (LocalBranchNameView {
                    name: local,
                    is_shorthand: None,
                }),
                _ => r matches Err(m) && m@ == "HEAD is not a local branch"@,
            },
        },
{
    let head_target = match head_target {
        Some(t) => t,
        None => return Err(String::from_str("HEAD is detached")),
    };
    match BranchName::parse(head_target.as_str()) {
        Ok(BranchName::Local(branch)) => Ok(branch),
        _ => Err(String::from_str("HEAD is not a local branch")),
    }
}

/// The local branch that `HEAD` points at; an error message when there is none.
pub fn get_local_current(repo: &git2::Repository) -> (r: Result<LocalBranchName, String>)
    ensures
        r matches Ok(b) ==> b@.is_shorthand is None,
{
    let head_ref = match find_reference(repo, "HEAD") {
        Ok(h) => h,
        Err(e) => return Err(error_message(&e)),
    };
    let target = match symbolic_target_bytes(&head_ref) {
        Some(bytes) => match utf8_text(bytes.as_slice()) {
            Some(s) => Some(s.to_owned()),
            None => None,
        },
        None => None,
    };
    current_from_head(target)
}


#[verifier::external_type_specification]
#[verifier::external_body]
pub struct ExRevwalk<'repo>(git2::Revwalk<'repo>);

#[verifier::external_type_specification]
#[verifier::external_body]
pub struct ExOid(git2::Oid);

/// `Repository::revwalk`: a walk over the repository's commits.
#[verifier::external_body]
fn revwalk<'r>(repo: &'r git2::Repository) -> Result<git2::Revwalk<'r>, git2::Error> {
    repo.revwalk()
}

/// A hexadecimal digit, in either case.
pub open spec fn is_hex_digit(c: char) -> bool {
    ('0' <= c && c <= '9') || ('a' <= c && c <= 'f') || ('A' <= c && c <= 'F')
}

/// Text that `Oid::from_str` takes: one to forty hexadecimal digits.
pub open spec fn is_oid_text(text: Seq<char>) -> bool {
    1 <= text.len() <= 40 && forall|i: int| 0 <= i < text.len() ==> is_hex_digit(#[trigger] text[i])
}

/// `Oid::from_str`: the object id written in hexadecimal.  As documented, it fails exactly
/// for text that is empty, longer than forty digits, or holds a character that is not a
/// hexadecimal digit.
#[verifier::external_body]
fn parse_oid(text: &str) -> (r: Result<git2::Oid, git2::Error>)
    ensures
        r is Ok <==> is_oid_text(text@),
{
    git2::Oid::from_str(text)
}

/// `Revwalk::push`: start the walk at the commit.
#[verifier::external_body]
fn walk_push(walker: &mut git2::Revwalk, oid: git2::Oid) -> Result<(), git2::Error> {
    walker.push(oid)
}

/// `Revwalk::simplify_first_parent`: follow only first parents.
#[verifier::external_body]
fn walk_first_parents(walker: &mut git2::Revwalk) -> Result<(), git2::Error> {
    walker.simplify_first_parent()
}

/// `Iterator::count` on a revision walk: the number of commits it visits.
#[verifier::external_body]
fn walk_count(walker: git2::Revwalk) -> usize {
    walker.count()
}

/// `git2::Error::from_str`: an error with the given message.
#[verifier::external_body]
fn error_from_message(message: &str) -> git2::Error {
    git2::Error::from_str(message)
}

/// The revision number of a commit: the number of commits along first parents from the
/// first commit to it, so that the first commit is 1 (0 stands for the parent of the
/// first commit).  A count beyond `i32` is reported as an error.
pub fn calc_revno(repo: &git2::Repository, commit_sha: &str) -> (r: Result<i32, git2::Error>)
    ensures
        r matches Ok(n) ==> n >= 0,
        !is_oid_text(commit_sha@) ==> r is Err,
{
    let mut walker = revwalk(repo)?;
    let oid = parse_oid(commit_sha)?;
    walk_push(&mut walker, oid)?;
    walk_first_parents(&mut walker)?;
    revno_from_count(walk_count(walker))
}

/// The revision number for a walk that visited `count` commits: the count itself, or an
/// error when it does not fit in an `i32`.
pub fn revno_from_count(count: usize) -> (r: Result<i32, git2::Error>)
    ensures
        count <= i32::MAX ==> (r matches Ok(n) && n == count),
        count > i32::MAX ==> r is Err,
{
    if count > 2147483647 {
        return Err(error_from_message("revision number out of range"));
    }
    Ok(count as i32)
}


/// `Reference::delete`: delete the reference from the repository.
#[verifier::external_body]
pub(crate) fn reference_delete(reference: &mut git2::Reference) -> Result<(), git2::Error> {
    reference.delete()
}

/// Delete the reference of that full name, if there is one.
pub fn delete_reference(repo: &git2::Repository, name: &str) -> (r: Result<(), RefErr>)
    ensures
        r matches Err(e) ==> e is Other,
{
    match find_reference(repo, name) {
        Ok(mut reference) => match reference_delete(&mut reference) {
            Ok(()) => Ok(()),
            Err(err) => match RefErr::from_error(err) {
                RefErr::NotFound(_) => Ok(()),
                e => Err(e),
            },
        },
        Err(err) => match RefErr::from_error(err) {
            RefErr::NotFound(_) => Ok(()),
            e => Err(e),
        },
    }
}

} // verus!
