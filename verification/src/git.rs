//! Names of branches and references, git settings, and the parsers of git's output.
use crate::text::{
    string_views,
    lines, starts_with, starts_with_spec, lines_spec, split_once, split_once_spec, split_terminator, split_terminator_spec,
    str_eq, strip_prefix, strip_prefix_spec, views,
};
use crate::text::{trim, trim_spec, utf8_text};
use vstd::prelude::*;
use vstd::utf8::valid_utf8;
use vstd::utf8::decode_utf8;

verus! {

/// Where a setting is stored.
pub enum SettingLocation {
    Local,
}

/// The abstract value of a [`LocalBranchName`].
pub struct LocalBranchNameView {
    pub name: Seq<char>,
    pub is_shorthand: Option<bool>,
}

/// A local branch, named without its `refs/heads/` prefix.
#[derive(Clone, Debug, PartialEq, Eq)]
pub struct LocalBranchName {
    name: String,
    is_shorthand: Option<bool>,
}

impl View for LocalBranchName {
    type V = LocalBranchNameView;

    closed spec fn view(&self) -> LocalBranchNameView {
        LocalBranchNameView { name: self.name@, is_shorthand: self.is_shorthand }
    }
}

/// A reference name that could not be parsed as a branch.
#[derive(Debug, PartialEq, Eq)]
pub struct UnparsedReference {
    pub name: String,
}

/// A remote-tracking branch.
#[derive(Debug, PartialEq, Eq)]
pub struct RemoteBranchName {
    pub remote: String,
    pub name: String,
}

/// A local or remote-tracking branch.
#[derive(Debug, PartialEq, Eq)]
pub enum BranchName {
    Local(LocalBranchName),
    Remote(RemoteBranchName),
}

/// The full reference name of a local branch.
pub open spec fn local_full_spec(name: Seq<char>) -> Seq<char> {
    "refs/heads/"@ + name
}

/// The short form `remote/name` of a remote-tracking branch.
pub open spec fn remote_short_spec(remote: Seq<char>, name: Seq<char>) -> Seq<char> {
    remote + "/"@ + name
}

/// The full reference name of a remote-tracking branch.
pub open spec fn remote_full_spec(remote: Seq<char>, name: Seq<char>) -> Seq<char> {
    "refs/remotes/"@ + remote_short_spec(remote, name)
}

/// The prefix of the settings that belong to a local branch.
pub open spec fn branch_prefix_spec(name: Seq<char>) -> Seq<char> {
    "branch."@ + name + "."@
}

/// A value that names a git reference in full.
pub trait ReferenceSpec {
    /// The full reference name.
    spec fn full_spec(&self) -> Seq<char>;

    /// The full reference name.
    fn full(&self) -> (r: String)
        ensures
            r@ == self.full_spec(),
    ;
}

impl ReferenceSpec for LocalBranchName {
    open spec fn full_spec(&self) -> Seq<char> {
        local_full_spec(self@.name)
    }

    fn full(&self) -> (r: String) {
        let mut r = String::from_str("refs/heads/");
        r.append(self.name.as_str());
        r
    }
}

impl UnparsedReference {
    /// The message shown for a name that is not handled.
    pub fn message(&self) -> (r: String)
        ensures
            r@ == "Unhandled name type: "@ + self.name@,
    {
        let mut r = String::from_str("Unhandled name type: ");
        r.append(self.name.as_str());
        r
    }
}

impl ReferenceSpec for UnparsedReference {
    open spec fn full_spec(&self) -> Seq<char> {
        self.name@
    }

    fn full(&self) -> (r: String) {
        self.name.clone()
    }
}

impl ReferenceSpec for RemoteBranchName {
    open spec fn full_spec(&self) -> Seq<char> {
        remote_full_spec(self.remote@, self.name@)
    }

    fn full(&self) -> (r: String) {
        let mut r = String::from_str("refs/remotes/");
        let short = self.short();
        r.append(short.as_str());
        r
    }
}

impl ReferenceSpec for BranchName {
    open spec fn full_spec(&self) -> Seq<char> {
        match self {
            BranchName::Local(b) => b.full_spec(),
            BranchName::Remote(b) => b.full_spec(),
        }
    }

    fn full(&self) -> (r: String) {
        match self {
            BranchName::Local(b) => b.full(),
            BranchName::Remote(b) => b.full(),
        }
    }
}

impl RemoteBranchName {
    /// The short form `remote/name`.
    pub fn short(&self) -> (r: String)
        ensures
            r@ == remote_short_spec(self.remote@, self.name@),
    {
        let mut r = self.remote.clone();
        r.append("/");
        r.append(self.name.as_str());
        r
    }
}

impl LocalBranchName {
    /// A local branch name with the given shorthand status.
    pub fn new(name: String, is_shorthand: Option<bool>) -> (r: Self)
        ensures
            r@ == (LocalBranchNameView { name: name@, is_shorthand }),
    {
        LocalBranchName { name, is_shorthand }
    }

    /// Parse a full reference name `refs/heads/<name>`; a name without that prefix is
    /// handed back as the error.
    pub fn from_long(ref_name: String, is_shorthand: Option<bool>) -> (r: Result<Self, String>)
        ensures
            match strip_prefix_spec(ref_name@, "refs/heads/"@) {
                Some(rest) => r matches Ok(b) && b@ == (LocalBranchNameView {
                    name: rest,
                    is_shorthand,
                }),
                None => r matches Err(e) && e@ == ref_name@,
            },
    {
        match strip_prefix(ref_name.as_str(), "refs/heads/") {
            Some(rest) => Ok(LocalBranchName { name: rest.to_owned(), is_shorthand }),
            None => Err(ref_name),
        }
    }

    /// The same branch name on a remote.
    pub fn with_remote(self, remote: String) -> (r: RemoteBranchName)
        ensures
            r.remote@ == remote@,
            r.name@ == self@.name,
    {
        RemoteBranchName { remote, name: self.name }
    }

    /// The branch name, without `refs/heads/`.
    pub fn branch_name(&self) -> (r: &str)
        ensures
            r@ == self@.name,
    {
        self.name.as_str()
    }

    /// The arguments of the `git check-ref-format --branch` call that succeeds when the
    /// branch has a valid name.
    pub fn is_valid(&self) -> (r: Vec<String>)
        ensures
            string_views(r@) == seq!["check-ref-format"@, "--branch"@, self@.name],
    {
        let r = vec![String::from_str("check-ref-format"), String::from_str("--branch"), self.name.clone()];
        proof {
            assert(string_views(r@) =~= seq!["check-ref-format"@, "--branch"@, self@.name]);
        }
        r
    }

    /// Whether the name is known to be the branch's shorthand (`None`: not known).
    pub fn is_shorthand(&self) -> (r: Option<bool>)
        ensures
            r == self@.is_shorthand,
    {
        self.is_shorthand
    }

    /// The shorthand for the branch, if the name is known to be one.
    pub fn _get_shorthand(&self) -> (r: Option<&str>)
        ensures
            self@.is_shorthand == Some(true) ==> (r matches Some(s) && s@ == self@.name),
            self@.is_shorthand != Some(true) ==> r is None,
    {
        if self.is_shorthand == Some(true) {
            Some(self.name.as_str())
        } else {
            None
        }
    }

    /// A copy of this name.
    pub fn duplicate(&self) -> (r: Self)
        ensures
            r@ == self@,
    {
        LocalBranchName { name: self.name.clone(), is_shorthand: self.is_shorthand }
    }
}

impl From<String> for LocalBranchName {
    fn from(name: String) -> (r: Self) {
        LocalBranchName { name, is_shorthand: None }
    }
}

impl vstd::std_specs::convert::FromSpecImpl<String> for LocalBranchName {
    open spec fn obeys_from_spec() -> bool {
        true
    }

    closed spec fn from_spec(name: String) -> Self {
        LocalBranchName { name, is_shorthand: None }
    }
}

/// A name built from a branch name alone has no known shorthand status.
pub proof fn lemma_from_string_view(name: String)
    ensures
        <LocalBranchName as vstd::std_specs::convert::FromSpec<String>>::from_spec(name)@
            == (LocalBranchNameView { name: name@, is_shorthand: None }),
{
}

impl From<(String, bool)> for LocalBranchName {
    fn from(pair: (String, bool)) -> (r: Self) {
        let (name, is_shorthand) = pair;
        LocalBranchName { name, is_shorthand: Some(is_shorthand) }
    }
}

impl vstd::std_specs::convert::FromSpecImpl<(String, bool)> for LocalBranchName {
    open spec fn obeys_from_spec() -> bool {
        true
    }

    closed spec fn from_spec(pair: (String, bool)) -> Self {
        LocalBranchName { name: pair.0, is_shorthand: Some(pair.1) }
    }
}

/// What [`BranchName::parse`] gives for a full reference name.
pub open spec fn parse_branch_name_spec(name: Seq<char>) -> Option<
    (bool, Seq<char>, Seq<char>),
> {
    match strip_prefix_spec(name, "refs/heads/"@) {
        Some(local) => Some((true, Seq::empty(), local)),
        None => match strip_prefix_spec(name, "refs/remotes/"@) {
            Some(rest) => match split_once_spec(rest, "/"@) {
                Some((remote, branch)) => Some((false, remote, branch)),
                None => None,
            },
            None => None,
        },
    }
}

/// `r` is what parsing the full reference name `name` gives.
pub open spec fn parsed_as(r: Result<BranchName, UnparsedReference>, name: Seq<char>) -> bool {
    match parse_branch_name_spec(name) {
        Some((true, _, local)) => r matches Ok(BranchName::Local(b)) && b@ == (
        LocalBranchNameView { name: local, is_shorthand: None }),
        Some((false, remote, branch)) => r matches Ok(BranchName::Remote(b)) && b.remote@
            == remote && b.name@ == branch,
        None => r matches Err(u) && u.name@ == name,
    }
}

impl BranchName {
    /// Parse a full reference name: `refs/heads/<name>` is a local branch,
    /// `refs/remotes/<remote>/<name>` a remote-tracking one; anything else is an
    /// [`UnparsedReference`] holding the name.
    pub fn parse(name: &str) -> (r: Result<Self, UnparsedReference>)
        ensures
            parsed_as(r, name@),
    {
        if let Some(local) = strip_prefix(name, "refs/heads/") {
            return Ok(BranchName::Local(LocalBranchName { name: local.to_owned(), is_shorthand: None }));
        }
        if let Some(rest) = strip_prefix(name, "refs/remotes/") {
            if let Some((remote, branch)) = split_once(rest, "/") {
                return Ok(
                    BranchName::Remote(
                        RemoteBranchName { remote: remote.to_owned(), name: branch.to_owned() },
                    ),
                );
            }
        }
        Err(UnparsedReference { name: name.to_owned() })
    }
}

impl std::str::FromStr for BranchName {
    type Err = UnparsedReference;

    fn from_str(name: &str) -> (r: Result<Self, UnparsedReference>)
        ensures
            parsed_as(r, name@),
    {
        BranchName::parse(name)
    }
}

/// Characters that have a meaning in the regular expressions that `git config` takes.
pub open spec fn is_re_special(c: char) -> bool {
    c == '^' || c == '$' || c == '.' || c == '\\' || c == '|' || c == '[' || c == ']' || c == '('
        || c == ')' || c == '{' || c == '}' || c == '?' || c == '*' || c == '+'
}

/// One character, escaped for a regular expression.
pub open spec fn escape_char_spec(c: char) -> Seq<char> {
    if is_re_special(c) {
        seq!['\\', c]
    } else {
        seq![c]
    }
}

/// A text with every special character escaped by a backslash.
pub open spec fn escape_re_spec(s: Seq<char>) -> Seq<char>
    decreases s.len(),
{
    if s.len() == 0 {
        Seq::empty()
    } else {
        escape_re_spec(s.drop_last()) + escape_char_spec(s.last())
    }
}

/// The pieces of `list`, separated by `sep`.
pub open spec fn join_spec(list: Seq<Seq<char>>, sep: Seq<char>) -> Seq<char>
    decreases list.len(),
{
    if list.len() == 0 {
        Seq::empty()
    } else if list.len() == 1 {
        list[0]
    } else {
        join_spec(list.drop_last(), sep) + sep + list.last()
    }
}

/// The escaped settings, as alternatives of a regular expression.
pub open spec fn escaped_alternatives(settings: Seq<Seq<char>>) -> Seq<char> {
    join_spec(settings.map_values(|s: Seq<char>| escape_re_spec(s)), "|"@)
}

/// A regular expression that matches any of `settings` under `prefix`.
pub open spec fn settings_re_spec(prefix: Seq<char>, settings: Seq<Seq<char>>) -> Seq<char> {
    escape_re_spec(prefix) + "("@ + escaped_alternatives(settings) + ")"@
}

/// Escape the characters that have a meaning in a git-compatible regular expression.
pub fn escape_re(input: &str) -> (r: String)
    ensures
        r@ == escape_re_spec(input@),
{
    let n = input.unicode_len();
    let mut r = String::new();
    let mut i: usize = 0;
    while i < n
        invariant
            n == input@.len(),
            i <= n,
            r@ == escape_re_spec(input@.take(i as int)),
        decreases n - i,
    {
        let c = input.get_char(i);
        if c == '^' || c == '$' || c == '.' || c == '\\' || c == '|' || c == '[' || c == ']' || c
            == '(' || c == ')' || c == '{' || c == '}' || c == '?' || c == '*' || c == '+' {
            r.append("\\");
        }
        r.append(input.substring_char(i, i + 1));
        proof {
            reveal_strlit("\\");
            assert(input@.take(i + 1).drop_last() =~= input@.take(i as int));
            assert(input@.subrange(i as int, i + 1) =~= seq![c]);
        }
        i = i + 1;
    }
    proof {
        assert(input@.take(n as int) =~= input@);
    }
    r
}

/// The target of a group of settings, such as a branch.
pub trait SettingTarget {
    /// The prefix shared by the target's settings.
    spec fn prefix_spec(&self) -> Seq<char>;

    /// The prefix shared by the target's settings, such as `branch.main.`.
    fn get_prefix(&self) -> (r: String)
        ensures
            r@ == self.prefix_spec(),
    ;

    /// The full name of one of the target's settings.
    fn setting_name(&self, setting_name: &str) -> (r: String)
        ensures
            r@ == self.prefix_spec() + setting_name@,
    {
        let mut r = self.get_prefix();
        r.append(setting_name);
        r
    }

    /// A regular expression for a list of settings, which can be used with `--get-regexp`.
    fn settings_re(&self, settings: &[&str]) -> (r: String)
        ensures
            r@ == settings_re_spec(self.prefix_spec(), views(settings@)),
    {
        let prefix = self.get_prefix();
        let mut r = escape_re(prefix.as_str());
        r.append("(");
        let ghost head = r@;
        let n = settings.len();
        let mut i: usize = 0;
        while i < n
            invariant
                n == settings@.len(),
                i <= n,
                head == escape_re_spec(self.prefix_spec()) + "("@,
                r@ == head + escaped_alternatives(views(settings@).take(i as int)),
            decreases n - i,
        {
            let ghost before = r@;
            if i != 0 {
                r.append("|");
            }
            let escaped = escape_re(settings[i]);
            r.append(escaped.as_str());
            proof {
                let all = views(settings@);
                let ts = all.take(i as int);
                let ts1 = all.take(i + 1);
                assert(ts1.drop_last() =~= ts);
                assert(ts1.map_values(|s: Seq<char>| escape_re_spec(s)).drop_last() =~= ts.map_values(
                    |s: Seq<char>| escape_re_spec(s),
                ));
                assert(ts1.map_values(|s: Seq<char>| escape_re_spec(s)).last() == escaped@);
                if i == 0 {
                    assert(ts =~= Seq::<Seq<char>>::empty());
                    assert(escaped_alternatives(ts) =~= Seq::<char>::empty());
                }
            }
            i = i + 1;
        }
        r.append(")");
        proof {
            assert(views(settings@).take(n as int) =~= views(settings@));
        }
        r
    }
}

/// A target of settings named by their common prefix (such as `branch.main.`).
pub struct SettingPrefix {
    pub prefix: String,
}

impl SettingTarget for SettingPrefix {
    open spec fn prefix_spec(&self) -> Seq<char> {
        self.prefix@
    }

    fn get_prefix(&self) -> (r: String) {
        self.prefix.clone()
    }
}

impl SettingTarget for LocalBranchName {
    open spec fn prefix_spec(&self) -> Seq<char> {
        branch_prefix_spec(self@.name)
    }

    fn get_prefix(&self) -> (r: String) {
        let mut r = String::from_str("branch.");
        r.append(self.name.as_str());
        r.append(".");
        r
    }
}

/// One entry of `git config --null` output; entries without a key/value separator are
/// kept as invalid.
#[derive(Debug, PartialEq, Eq)]
pub enum SettingEntry {
    Valid { key: String, value: String },
    Invalid(String),
}

/// The entry that a piece of `git config --null` output stands for.
pub open spec fn setting_entry_matches(e: SettingEntry, piece: Seq<char>) -> bool {
    match split_once_spec(piece, "\n"@) {
        Some((k, v)) => e matches SettingEntry::Valid { key, value } && key@ == k && value@ == v,
        None => e matches SettingEntry::Invalid(s) && s@ == piece,
    }
}

/// Parse a string of NUL-terminated settings entries, in which the key and value are
/// separated by a newline.
pub fn parse_settings(setting_text: &str) -> (r: Vec<SettingEntry>)
    ensures
        r@.len() == split_terminator_spec(setting_text@, '\0').len(),
        forall|i: int|
            0 <= i < r@.len() ==> setting_entry_matches(
                #[trigger] r@[i],
                split_terminator_spec(setting_text@, '\0')[i],
            ),
{
    let pieces = split_terminator(setting_text, '\0');
    let mut r: Vec<SettingEntry> = Vec::new();
    let mut i: usize = 0;
    while i < pieces.len()
        invariant
            i <= pieces@.len(),
            views(pieces@) == split_terminator_spec(setting_text@, '\0'),
            r@.len() == i,
            forall|j: int| 0 <= j < i ==> setting_entry_matches(#[trigger] r@[j], views(pieces@)[j]),
        decreases pieces@.len() - i,
    {
        let entry = pieces[i];
        let e = match split_once(entry, "\n") {
            Some((k, v)) => SettingEntry::Valid { key: k.to_owned(), value: v.to_owned() },
            None => SettingEntry::Invalid(entry.to_owned()),
        };
        proof {
            assert(views(pieces@)[i as int] == entry@);
        }
        r.push(e);
        i = i + 1;
    }
    r
}

/// The views of a sequence of string pairs.
pub open spec fn pair_views(v: Seq<(String, String)>) -> Seq<(Seq<char>, Seq<char>)> {
    v.map_values(|p: (String, String)| (p.0@, p.1@))
}

/// The (commit, reference) pairs of `git show-ref` lines; lines without a space are
/// skipped.
pub open spec fn show_ref_entries(lines: Seq<Seq<char>>) -> Seq<(Seq<char>, Seq<char>)>
    decreases lines.len(),
{
    if lines.len() == 0 {
        Seq::empty()
    } else {
        let rest = show_ref_entries(lines.drop_last());
        match split_once_spec(lines.last(), " "@) {
            Some(pair) => rest.push(pair),
            None => rest,
        }
    }
}

/// Parse the output of `git show-ref` to a vector of (commit, reference) pairs.
pub fn parse_show_ref(show_ref_output: &str) -> (r: Vec<(String, String)>)
    ensures
        pair_views(r@) == show_ref_entries(lines_spec(show_ref_output@)),
{
    let ls = lines(show_ref_output);
    let mut r: Vec<(String, String)> = Vec::new();
    let mut i: usize = 0;
    while i < ls.len()
        invariant
            i <= ls@.len(),
            views(ls@) == lines_spec(show_ref_output@),
            pair_views(r@) == show_ref_entries(views(ls@).take(i as int)),
        decreases ls@.len() - i,
    {
        let line = ls[i];
        proof {
            assert(views(ls@).take(i + 1).drop_last() =~= views(ls@).take(i as int));
            assert(views(ls@).take(i + 1).last() == line@);
        }
        if let Some((sha, refname)) = split_once(line, " ") {
            let pair = (sha.to_owned(), refname.to_owned());
            proof {
                assert(pair_views(r@.push(pair)) =~= pair_views(r@).push((sha@, refname@)));
            }
            r.push(pair);
        }
        i = i + 1;
    }
    proof {
        assert(views(ls@).take(ls@.len() as int) =~= views(ls@));
    }
    r
}

/// `i` is the first index of `m` whose key is `key`.
pub open spec fn is_key_index(m: Seq<(Seq<char>, Seq<char>)>, key: Seq<char>, i: int) -> bool {
    &&& 0 <= i < m.len()
    &&& m[i].0 == key
    &&& forall|j: int| 0 <= j < i ==> m[j].0 != key
}

/// The first index of `m` whose key is `key`.
pub open spec fn find_key_spec(m: Seq<(Seq<char>, Seq<char>)>, key: Seq<char>) -> Option<int> {
    if exists|i: int| is_key_index(m, key, i) {
        Some(choose|i: int| is_key_index(m, key, i))
    } else {
        None
    }
}

/// The entry of `m` whose key is `key`, if any.
pub open spec fn entry_for(m: Seq<(Seq<char>, Seq<char>)>, key: Seq<char>) -> Option<
    (Seq<char>, Seq<char>),
> {
    match find_key_spec(m, key) {
        Some(i) => Some(m[i]),
        None => None,
    }
}

/// A remote-tracking reference name whose remote-relative part ends at the first
/// occurrence of `refname`.
pub open spec fn is_remote_match(key: Seq<char>, refname: Seq<char>) -> bool {
    match strip_prefix_spec(key, "refs/remotes/"@) {
        Some(suffix) => match split_once_spec(suffix, refname) {
            Some((_, remainder)) => remainder.len() == 0,
            None => false,
        },
        None => false,
    }
}

/// `i` is the first index of `m` whose key is a remote match for `refname`.
pub open spec fn is_remote_index(m: Seq<(Seq<char>, Seq<char>)>, refname: Seq<char>, i: int) -> bool {
    &&& 0 <= i < m.len()
    &&& is_remote_match(m[i].0, refname)
    &&& forall|j: int| 0 <= j < i ==> !is_remote_match(m[j].0, refname)
}

/// The first entry of `m` whose key is a remote match for `refname`.
pub open spec fn remote_entry(m: Seq<(Seq<char>, Seq<char>)>, refname: Seq<char>) -> Option<
    (Seq<char>, Seq<char>),
> {
    if exists|i: int| is_remote_index(m, refname, i) {
        Some(m[choose|i: int| is_remote_index(m, refname, i)])
    } else {
        None
    }
}

/// The best match for a short reference name among (reference, commit) entries: the
/// name itself, then under `refs/`, `refs/tags/`, `refs/heads/`, then a remote-tracking
/// branch of that name, then the `HEAD` of a remote of that name.
pub open spec fn select_reference_spec(refname: Seq<char>, m: Seq<(Seq<char>, Seq<char>)>) -> Option<
    (Seq<char>, Seq<char>),
> {
    if entry_for(m, refname) is Some {
        entry_for(m, refname)
    } else if entry_for(m, "refs/"@ + refname) is Some {
        entry_for(m, "refs/"@ + refname)
    } else if entry_for(m, "refs/tags/"@ + refname) is Some {
        entry_for(m, "refs/tags/"@ + refname)
    } else if entry_for(m, "refs/heads/"@ + refname) is Some {
        entry_for(m, "refs/heads/"@ + refname)
    } else if remote_entry(m, refname) is Some {
        remote_entry(m, refname)
    } else {
        entry_for(m, "refs/remotes/"@ + refname + "/HEAD"@)
    }
}

/// The first index of `m` whose key is `key`.
pub fn find_key(m: &Vec<(String, String)>, key: &str) -> (r: Option<usize>)
    ensures
        match r {
            Some(i) => find_key_spec(pair_views(m@), key@) == Some(i as int) && i < m@.len(),
            None => find_key_spec(pair_views(m@), key@) is None,
        },
{
    let ghost pm = pair_views(m@);
    let mut i: usize = 0;
    while i < m.len()
        invariant
            i <= m@.len(),
            pm == pair_views(m@),
            forall|j: int| 0 <= j < i ==> pm[j].0 != key@,
        decreases m@.len() - i,
    {
        if str_eq(m[i].0.as_str(), key) {
            proof {
                assert(is_key_index(pm, key@, i as int));
                let k = choose|k: int| is_key_index(pm, key@, k);
                assert(k == i) by {
                    if k < i {
                    } else if k > i {
                    }
                }
            }
            return Some(i);
        }
        i = i + 1;
    }
    None
}

/// Whether a reference name is a remote-tracking name that ends with `refname`.
fn remote_matches(key: &str, refname: &str) -> (b: bool)
    ensures
        b == is_remote_match(key@, refname@),
{
    match strip_prefix(key, "refs/remotes/") {
        Some(suffix) => match split_once(suffix, refname) {
            Some((_, remainder)) => remainder.unicode_len() == 0,
            None => false,
        },
        None => false,
    }
}

/// A copy of an entry.
fn copy_entry(m: &Vec<(String, String)>, i: usize) -> (r: (String, String))
    requires
        i < m@.len(),
    ensures
        (r.0@, r.1@) == pair_views(m@)[i as int],
{
    (m[i].0.clone(), m[i].1.clone())
}

/// Given the matching (reference, commit) entries for a short name, return the best match.
pub fn select_reference(refname: &str, matches: Vec<(String, String)>) -> (r: Option<(String, String)>)
    ensures
        match r {
            Some(e) => select_reference_spec(refname@, pair_views(matches@)) == Some((e.0@, e.1@)),
            None => select_reference_spec(refname@, pair_views(matches@)) is None,
        },
{
    let ghost pm = pair_views(matches@);
    let mut c0 = String::new();
    c0.append(refname);
    if let Some(i) = find_key(&matches, c0.as_str()) {
        return Some(copy_entry(&matches, i));
    }
    let mut c1 = String::from_str("refs/");
    c1.append(refname);
    if let Some(i) = find_key(&matches, c1.as_str()) {
        return Some(copy_entry(&matches, i));
    }
    let mut c2 = String::from_str("refs/tags/");
    c2.append(refname);
    if let Some(i) = find_key(&matches, c2.as_str()) {
        return Some(copy_entry(&matches, i));
    }
    let mut c3 = String::from_str("refs/heads/");
    c3.append(refname);
    if let Some(i) = find_key(&matches, c3.as_str()) {
        return Some(copy_entry(&matches, i));
    }
    proof {
        assert(c0@ =~= refname@);
    }
    let mut i: usize = 0;
    while i < matches.len()
        invariant
            i <= matches@.len(),
            pm == pair_views(matches@),
            forall|j: int| 0 <= j < i ==> !is_remote_match(pm[j].0, refname@),
            entry_for(pm, refname@) is None,
            entry_for(pm, "refs/"@ + refname@) is None,
            entry_for(pm, "refs/tags/"@ + refname@) is None,
            entry_for(pm, "refs/heads/"@ + refname@) is None,
        decreases matches@.len() - i,
    {
        if remote_matches(matches[i].0.as_str(), refname) {
            proof {
                assert(is_remote_index(pm, refname@, i as int));
                let k = choose|k: int| is_remote_index(pm, refname@, k);
                assert(k == i) by {
                    if k < i {
                    } else if k > i {
                    }
                }
                assert(remote_entry(pm, refname@) == Some(pm[i as int]));
            }
            return Some(copy_entry(&matches, i));
        }
        i = i + 1;
    }
    proof {
        assert forall|k: int| !is_remote_index(pm, refname@, k) by {
            if is_remote_index(pm, refname@, k) {
                assert(!is_remote_match(pm[k].0, refname@));
            }
        }
    }
    let mut c4 = String::from_str("refs/remotes/");
    c4.append(refname);
    c4.append("/HEAD");
    if let Some(i) = find_key(&matches, c4.as_str()) {
        return Some(copy_entry(&matches, i));
    }
    None
}

/// How far the shorthand of a reference name is known.
#[derive(Clone, PartialEq, Eq, Debug)]
pub enum AltFormStatus {
    Original(String),
    Found(String),
    Untried,
    Failed,
}

/// A full reference name, with its shorthand when known.
#[derive(Clone, PartialEq, Eq, Debug)]
pub enum RefName {
    Long { full: String, short: AltFormStatus },
}

/// Two shorthand statuses say the same: the same kind, with the same text where they
/// hold one.
pub open spec fn same_alt(a: AltFormStatus, b: AltFormStatus) -> bool {
    match (a, b) {
        (AltFormStatus::Original(x), AltFormStatus::Original(y)) => x@ == y@,
        (AltFormStatus::Found(x), AltFormStatus::Found(y)) => x@ == y@,
        (AltFormStatus::Untried, AltFormStatus::Untried) => true,
        (AltFormStatus::Failed, AltFormStatus::Failed) => true,
        _ => false,
    }
}

/// Whether a shorthand status says that a shorthand exists.
pub open spec fn has_shorthand_spec(short: AltFormStatus) -> Option<bool> {
    match short {
        AltFormStatus::Found(_) => Some(true),
        AltFormStatus::Original(_) => Some(true),
        AltFormStatus::Failed => Some(false),
        AltFormStatus::Untried => None,
    }
}

impl RefName {
    /// The full reference name.
    pub open spec fn longest_spec(&self) -> Seq<char> {
        match self {
            RefName::Long { full, .. } => full@,
        }
    }

    /// A copy of the name.
    pub fn duplicate(&self) -> (r: RefName)
        ensures
            r.longest_spec() == self.longest_spec(),
            has_shorthand_spec(r.short_spec()) == has_shorthand_spec(self.short_spec()),
            same_alt(r.short_spec(), self.short_spec()),
    {
        let RefName::Long { full, short } = self;
        let short = match short {
            AltFormStatus::Original(s) => AltFormStatus::Original(s.clone()),
            AltFormStatus::Found(s) => AltFormStatus::Found(s.clone()),
            AltFormStatus::Untried => AltFormStatus::Untried,
            AltFormStatus::Failed => AltFormStatus::Failed,
        };
        RefName::Long { full: full.clone(), short }
    }

    /// How far the shorthand is known.
    pub open spec fn short_spec(&self) -> AltFormStatus {
        match self {
            RefName::Long { short, .. } => *short,
        }
    }

    /// The full reference name.
    pub fn get_longest(&self) -> (r: &str)
        ensures
            r@ == self.longest_spec(),
    {
        let RefName::Long { full, .. } = self;
        full.as_str()
    }

    /// The shorthand found for the name, or else the full name.
    pub fn get_shortest(&self) -> (r: &str)
        ensures
            match self {
                RefName::Long { short: AltFormStatus::Found(s), .. } => r@ == s@,
                RefName::Long { full, .. } => r@ == full@,
            },
    {
        let RefName::Long { full, short } = self;
        if let AltFormStatus::Found(short) = short {
            short.as_str()
        } else {
            full.as_str()
        }
    }

    /// A reference name with no shorthand tried yet.
    pub fn from_long(full: String) -> (r: Self)
        ensures
            r matches RefName::Long { full: f, short: AltFormStatus::Untried } && f@ == full@,
    {
        RefName::Long { full, short: AltFormStatus::Untried }
    }

    /// A reference name with both its full and its shorthand form.
    pub fn from_long_short(full: String, short: String, short_original: bool) -> (r: Self)
        ensures
            short_original ==> (r matches RefName::Long { full: f, short: AltFormStatus::Original(s) }
                && f@ == full@ && s@ == short@),
            !short_original ==> (r matches RefName::Long { full: f, short: AltFormStatus::Found(s) }
                && f@ == full@ && s@ == short@),
    {
        let short = if short_original {
            AltFormStatus::Original(short)
        } else {
            AltFormStatus::Found(short)
        };
        RefName::Long { full, short }
    }

    /// Whether the name is known to have a shorthand (`None` when not tried).
    pub fn has_shorthand(&self) -> (r: Option<bool>)
        ensures
            match self {
                RefName::Long { short, .. } => r == has_shorthand_spec(*short),
            },
    {
        match self {
            RefName::Long { short: AltFormStatus::Found(_), .. } => Some(true),
            RefName::Long { short: AltFormStatus::Original(_), .. } => Some(true),
            RefName::Long { short: AltFormStatus::Failed, .. } => Some(false),
            RefName::Long { short: AltFormStatus::Untried, .. } => None,
        }
    }
}

impl LocalBranchName {
    /// The local branch that a reference name names, if it names one; the reference name
    /// is handed back otherwise.
    pub fn try_from_ref_name(ref_name: RefName) -> (r: Result<LocalBranchName, RefName>)
        ensures
            match strip_prefix_spec(ref_name.longest_spec(), "refs/heads/"@) {
                Some(rest) => r matches Ok(b) && b@ == (LocalBranchNameView {
                    name: rest,
                    is_shorthand: match ref_name {
                        RefName::Long { short, .. } => has_shorthand_spec(short),
                    },
                }),
                None => r == Err::<LocalBranchName, RefName>(ref_name),
            },
    {
        let name = ref_name.get_longest().to_owned();
        let is_short_name = ref_name.has_shorthand();
        match LocalBranchName::from_long(name, is_short_name) {
            Ok(b) => Ok(b),
            Err(_) => Err(ref_name),
        }
    }
}

/// A name in the style of "checkout", that may be either a branch or a reference name.
#[derive(Clone, PartialEq, Eq, Debug)]
pub enum BranchyName {
    LocalBranch(LocalBranchName),
    RefName(RefName),
    UnresolvedName(String),
}

impl BranchyName {
    /// Two names are the same: the same kind, with the same views.
    pub open spec fn same_as(&self, other: BranchyName) -> bool {
        match (*self, other) {
            (BranchyName::LocalBranch(a), BranchyName::LocalBranch(b)) => a@ == b@,
            (BranchyName::RefName(a), BranchyName::RefName(b)) => a.longest_spec() == b.longest_spec()
                && same_alt(a.short_spec(), b.short_spec()),
            (BranchyName::UnresolvedName(a), BranchyName::UnresolvedName(b)) => a@ == b@,
            _ => false,
        }
    }

    /// A copy of the name.
    pub fn duplicate(&self) -> (r: BranchyName)
        ensures
            r.same_as(*self),
            r.as_branch_spec() == self.as_branch_spec(),
            self is LocalBranch <==> r is LocalBranch,
            self is RefName <==> r is RefName,
            self is UnresolvedName <==> r is UnresolvedName,
    {
        match self {
            BranchyName::LocalBranch(b) => BranchyName::LocalBranch(b.duplicate()),
            BranchyName::RefName(n) => BranchyName::RefName(n.duplicate()),
            BranchyName::UnresolvedName(n) => BranchyName::UnresolvedName(n.clone()),
        }
    }

    /// The branch name for branches; the longest form for other names.
    pub open spec fn as_branch_spec(&self) -> Seq<char> {
        match self {
            BranchyName::RefName(n) => n.longest_spec(),
            BranchyName::LocalBranch(b) => b@.name,
            BranchyName::UnresolvedName(u) => u@,
        }
    }

    /// The branch name for branches; the longest form for other names.
    pub fn get_as_branch(&self) -> (r: String)
        ensures
            r@ == self.as_branch_spec(),
    {
        match self {
            BranchyName::RefName(refname) => refname.get_longest().to_owned(),
            BranchyName::LocalBranch(branch) => branch.branch_name().to_owned(),
            BranchyName::UnresolvedName(unresolved) => unresolved.clone(),
        }
    }

    /// The longest available form.
    pub fn get_longest(&self) -> (r: String)
        ensures
            match self {
                BranchyName::RefName(n) => r@ == n.longest_spec(),
                BranchyName::LocalBranch(b) => r@ == local_full_spec(b@.name),
                BranchyName::UnresolvedName(u) => r@ == u@,
            },
    {
        match self {
            BranchyName::RefName(refname) => refname.get_longest().to_owned(),
            BranchyName::LocalBranch(branch) => branch.full(),
            BranchyName::UnresolvedName(unresolved) => unresolved.clone(),
        }
    }
}

impl From<UnparsedReference> for BranchyName {
    fn from(unparsed: UnparsedReference) -> (r: BranchyName) {
        BranchyName::UnresolvedName(unparsed.name)
    }
}

impl vstd::std_specs::convert::FromSpecImpl<UnparsedReference> for BranchyName {
    open spec fn obeys_from_spec() -> bool {
        true
    }

    open spec fn from_spec(unparsed: UnparsedReference) -> Self {
        BranchyName::UnresolvedName(unparsed.name)
    }
}

impl BranchName {
    /// The branch that a branchy name names; unresolved names, and reference names that
    /// are no branch, give an [`UnparsedReference`].
    pub fn try_from_branchy(branchy: BranchyName) -> (r: Result<BranchName, UnparsedReference>)
        ensures
            match branchy {
                BranchyName::UnresolvedName(name) => r matches Err(u) && u.name@ == name@,
                BranchyName::LocalBranch(b) => r matches Ok(BranchName::Local(l)) && l@ == b@,
                BranchyName::RefName(n) => match parse_branch_name_spec(n.longest_spec()) {
                    Some((true, _, local)) => r matches Ok(BranchName::Local(b)) && b@ == (
                    LocalBranchNameView { name: local, is_shorthand: None }),
                    Some((false, remote, branch)) => r matches Ok(BranchName::Remote(b))
                        && b.remote@ == remote && b.name@ == branch,
                    None => r matches Err(u) && u.name@ == n.longest_spec(),
                },
            },
    {
        match branchy {
            BranchyName::UnresolvedName(name) => Err(UnparsedReference { name }),
            BranchyName::LocalBranch(branch) => Ok(BranchName::Local(branch)),
            BranchyName::RefName(name) => BranchName::parse(name.get_longest()),
        }
    }
}

/// What a git subprocess gave back: its exit code (none when a signal ended it), its
/// standard output as bytes, and its standard error decoded as text (invalid UTF-8 replaced).
#[derive(Debug)]
pub struct ProcessOutput {
    pub status: Option<i32>,
    pub stdout: Vec<u8>,
    pub stderr: String,
}

/// The standard output of a git command as text, without surrounding white space.
/// The output must be UTF-8.
pub fn output_to_string(output: &ProcessOutput) -> (r: String)
    requires
        valid_utf8(output.stdout@),
    ensures
        r@ == trim_spec(decode_utf8(output.stdout@)),
{
    let text = match utf8_text(output.stdout.as_slice()) {
        Some(t) => t,
        None => "",
    };
    trim(text).to_owned()
}

/// The trimmed text of a command's output.
pub open spec fn output_text(output: ProcessOutput) -> Seq<char> {
    trim_spec(decode_utf8(output.stdout@))
}

/// Failures of git commands.
#[derive(Debug)]
pub enum GitError {
    NotAGitRepository,
    NotAWorkTree,
    UnknownError(String),
}

/// The error that git's standard error output stands for.
pub open spec fn git_error_kind(stderr: Seq<char>) -> int {
    if starts_with_spec(stderr, "fatal: not a git repository"@) {
        0
    } else if starts_with_spec(stderr, "fatal: this operation must be run in a work tree"@) {
        1
    } else {
        2
    }
}

impl GitError {
    /// Classify a failed git command by its standard error output.
    pub fn from_stderr(stderr: String) -> (r: GitError)
        ensures
            git_error_kind(stderr@) == 0 ==> r is NotAGitRepository,
            git_error_kind(stderr@) == 1 ==> r is NotAWorkTree,
            git_error_kind(stderr@) == 2 ==> (r matches GitError::UnknownError(s) && s@
                == stderr@),
    {
        if starts_with(stderr.as_str(), "fatal: not a git repository") {
            GitError::NotAGitRepository
        } else if starts_with(stderr.as_str(), "fatal: this operation must be run in a work tree") {
            GitError::NotAWorkTree
        } else {
            GitError::UnknownError(stderr)
        }
    }

    /// The message shown for the error.
    pub open spec fn message_spec(&self) -> Seq<char> {
        match self {
            GitError::NotAGitRepository => "Not in a Git repository"@,
            GitError::NotAWorkTree => "Not in a Git work tree"@,
            GitError::UnknownError(s) => "Unknown Error "@ + s@,
        }
    }

    /// The message shown for the error.
    pub fn message(&self) -> (r: String)
        ensures
            r@ == self.message_spec(),
    {
        match self {
            GitError::NotAGitRepository => String::from_str("Not in a Git repository"),
            GitError::NotAWorkTree => String::from_str("Not in a Git work tree"),
            GitError::UnknownError(stderr) => {
                let mut r = String::from_str("Unknown Error ");
                r.append(stderr.as_str());
                r
            },
        }
    }
}

/// Failures of `git config`, by its exit code.
#[derive(Debug)]
pub enum ConfigErr {
    SectionKeyInvalid,
    SectionKeyMissing,
    ConfigInvalid,
    ConfigUnwritable,
    UnsetMissing,
    InvalidRegex,
    Other(ProcessOutput),
}

impl ConfigErr {
    /// Convert the failed output of `git config`, which must have an exit code.
    pub fn from_output(output: ProcessOutput) -> (r: ConfigErr)
        requires
            output.status is Some,
        ensures
            output.status == Some(1i32) ==> r is SectionKeyInvalid,
            output.status == Some(2i32) ==> r is SectionKeyMissing,
            output.status == Some(3i32) ==> r is ConfigInvalid,
            output.status == Some(4i32) ==> r is ConfigUnwritable,
            output.status == Some(5i32) ==> r is UnsetMissing,
            output.status == Some(6i32) ==> r is InvalidRegex,
            !(1 <= output.status->0 <= 6) ==> r == ConfigErr::Other(output),
    {
        let code = match output.status {
            Some(c) => c,
            None => 0,
        };
        match code {
            1 => ConfigErr::SectionKeyInvalid,
            2 => ConfigErr::SectionKeyMissing,
            3 => ConfigErr::ConfigInvalid,
            4 => ConfigErr::ConfigUnwritable,
            5 => ConfigErr::UnsetMissing,
            6 => ConfigErr::InvalidRegex,
            _ => ConfigErr::Other(output),
        }
    }
}


impl GitError {
    /// Classify a failed git command by its output.
    pub fn from_output(output: ProcessOutput) -> (r: GitError)
        ensures
            git_error_kind(output.stderr@) == 0 ==> r is NotAGitRepository,
            git_error_kind(output.stderr@) == 1 ==> r is NotAWorkTree,
            git_error_kind(output.stderr@) == 2 ==> (r matches GitError::UnknownError(s) && s@
                == output.stderr@),
    {
        GitError::from_stderr(output.stderr)
    }
}

/// The current branch, from the output of `git branch --show-current`.
pub fn get_current_branch(output: &ProcessOutput) -> (r: Result<LocalBranchName, UnparsedReference>)
    requires
        valid_utf8(output.stdout@),
    ensures
        r matches Ok(b) && b@ == (LocalBranchNameView { name: output_text(*output), is_shorthand: None }),
{
    Ok(LocalBranchName::new(output_to_string(output), None))
}

/// Whether `git config --get` found the setting: it succeeds when the setting exists and
/// fails with "section or key invalid" when it does not.
pub fn setting_exists(result: &Result<ProcessOutput, ConfigErr>) -> (r: bool)
    requires
        result matches Err(e) ==> e is SectionKeyInvalid,
    ensures
        r == result is Ok,
{
    match result {
        Ok(..) => true,
        Err(..) => false,
    }
}

/// The arguments of the `git config` call that sets `setting` to `value` in the local
/// repository, replacing any earlier value.
pub fn set_setting(_location: SettingLocation, setting: &str, value: &str) -> (r: Vec<String>)
    ensures
        string_views(r@) == seq!["config"@, "--replace"@, "--local"@, setting@, value@],
{
    let r = vec![
        String::from_str("config"),
        String::from_str("--replace"),
        String::from_str("--local"),
        setting.to_owned(),
        value.to_owned(),
    ];
    proof {
        assert(string_views(r@) =~= seq!["config"@, "--replace"@, "--local"@, setting@, value@]);
    }
    r
}

/// The result of `git rev-list -n1 <spec>`: the commit id, or the failed output.
pub fn eval_rev_spec(result: Result<ProcessOutput, ProcessOutput>) -> (r: Result<String, ProcessOutput>)
    requires
        result matches Ok(o) ==> valid_utf8(o.stdout@),
    ensures
        result is Ok <==> r is Ok,
        r matches Ok(s) ==> s@ == output_text(result->Ok_0),
        r matches Err(o) ==> o == result->Err_0,
{
    match result {
        Ok(o) => Ok(output_to_string(&o)),
        Err(o) => Err(o),
    }
}

/// The arguments of the `git update-ref` call that sets `git_ref` to `value`.
pub fn upsert_ref(git_ref: &str, value: &str) -> (r: Vec<String>)
    ensures
        string_views(r@) == seq!["update-ref"@, git_ref@, value@],
{
    let r = vec![String::from_str("update-ref"), git_ref.to_owned(), value.to_owned()];
    proof {
        assert(string_views(r@) =~= seq!["update-ref"@, git_ref@, value@]);
    }
    r
}

/// The arguments of the `git update-ref` call that deletes `git_ref`.
pub fn delete_ref(git_ref: &str) -> (r: Vec<String>)
    ensures
        string_views(r@) == seq!["update-ref"@, "-d"@, git_ref@],
{
    let r = vec![String::from_str("update-ref"), String::from_str("-d"), git_ref.to_owned()];
    proof {
        assert(string_views(r@) =~= seq!["update-ref"@, "-d"@, git_ref@]);
    }
    r
}

/// The arguments of the `git reset --soft` call that moves HEAD to `new_head`.
pub fn set_head(new_head: &str) -> (r: Vec<String>)
    ensures
        string_views(r@) == seq!["reset"@, "--soft"@, new_head@],
{
    let r = vec![String::from_str("reset"), String::from_str("--soft"), new_head.to_owned()];
    proof {
        assert(string_views(r@) =~= seq!["reset"@, "--soft"@, new_head@]);
    }
    r
}

/// The stash commit that `git stash create` printed; `None` when there was nothing to stash.
pub fn create_stash(output: &ProcessOutput) -> (r: Option<String>)
    requires
        valid_utf8(output.stdout@),
    ensures
        output_text(*output).len() == 0 <==> r is None,
        r matches Some(s) ==> s@ == output_text(*output),
{
    let oid = output_to_string(output);
    if oid.as_str().unicode_len() == 0 {
        return None;
    }
    Some(oid)
}

/// The top directory of the working tree, from `git rev-parse --show-toplevel`.
pub fn get_toplevel(result: Result<ProcessOutput, ProcessOutput>) -> (r: Result<String, GitError>)
    requires
        result matches Ok(o) ==> valid_utf8(o.stdout@),
    ensures
        result is Ok <==> r is Ok,
        r matches Ok(s) ==> s@ == output_text(result->Ok_0),
        result matches Err(o) ==> (git_error_kind(o.stderr@) == 0 ==> r->Err_0 is NotAGitRepository)
            && (git_error_kind(o.stderr@) == 1 ==> r->Err_0 is NotAWorkTree) && (git_error_kind(
            o.stderr@) == 2 ==> (r->Err_0 matches GitError::UnknownError(s) && s@ == o.stderr@)),
{
    match result {
        Ok(o) => Ok(output_to_string(&o)),
        Err(o) => Err(GitError::from_output(o)),
    }
}

/// The settings that `git config --null --get-regexp` listed; none when it found no
/// matching setting ("section or key invalid").
pub fn get_settings(result: Result<ProcessOutput, ConfigErr>) -> (r: Vec<SettingEntry>)
    requires
        result matches Ok(o) ==> valid_utf8(o.stdout@),
        result matches Err(e) ==> e is SectionKeyInvalid,
    ensures
        result is Err ==> r@.len() == 0,
        result matches Ok(o) ==> {
            let pieces = split_terminator_spec(output_text(o), '\0');
            &&& r@.len() == pieces.len()
            &&& forall|i: int| 0 <= i < pieces.len() ==> setting_entry_matches(#[trigger] r@[i], pieces[i])
        },
{
    match result {
        Ok(o) => parse_settings(output_to_string(&o).as_str()),
        Err(..) => Vec::new(),
    }
}

/// The (commit, reference) pairs that `git show-ref <name>` listed; none when it failed.
pub fn show_ref_match(result: Result<ProcessOutput, ProcessOutput>) -> (r: Vec<(String, String)>)
    requires
        result matches Ok(o) ==> valid_utf8(o.stdout@),
    ensures
        result is Err ==> r@.len() == 0,
        result matches Ok(o) ==> pair_views(r@) == show_ref_entries(lines_spec(output_text(o))),
{
    match result {
        Ok(o) => parse_show_ref(output_to_string(&o).as_str()),
        Err(..) => Vec::new(),
    }
}

/// The (reference, commit) pairs of show-ref entries, last entry first, so that the first
/// entry for a reference holds the commit listed last for it.
pub open spec fn swapped_reversed(entries: Seq<(Seq<char>, Seq<char>)>) -> Seq<(Seq<char>, Seq<char>)> {
    Seq::new(entries.len(), |i: int| (entries[entries.len() - 1 - i].1, entries[entries.len() - 1 - i].0))
}

/// Resolve a short reference to the best (reference, commit) match among the
/// (commit, reference) entries that `git show-ref` listed for it.
pub fn resolve_refname(refname: &str, entries: Vec<(String, String)>) -> (r: Option<(String, String)>)
    ensures
        (match r {
            Some(p) => Some((p.0@, p.1@)),
            None => None,
        }) == select_reference_spec(refname@, swapped_reversed(pair_views(entries@))),
{
    let mut matches: Vec<(String, String)> = Vec::new();
    let n = entries.len();
    let mut k: usize = n;
    while k > 0
        invariant
            k <= n,
            n == entries@.len(),
            pair_views(matches@) == swapped_reversed(pair_views(entries@)).take(n - k),
        decreases k,
    {
        k = k - 1;
        let (sha, name) = copy_entry(&entries, k);
        proof {
            assert(pair_views(matches@.push((name, sha))) =~= pair_views(matches@).push((name@, sha@)));
            assert(swapped_reversed(pair_views(entries@)).take(n - k) =~= swapped_reversed(
                pair_views(entries@),
            ).take(n - k - 1).push((name@, sha@)));
        }
        matches.push((name, sha));
    }
    proof {
        assert(swapped_reversed(pair_views(entries@)).take(n as int) =~= swapped_reversed(
            pair_views(entries@),
        ));
    }
    select_reference(refname, matches)
}



/// The full name of a parsed reference name is the name that was parsed.
pub proof fn lemma_parsed_full(r: Result<BranchName, UnparsedReference>, name: Seq<char>)
    requires
        parsed_as(r, name),
    ensures
        match r {
            Ok(n) => n.full_spec() == name,
            Err(u) => u.full_spec() == name,
        },
{
    reveal_strlit("refs/heads/");
    reveal_strlit("refs/remotes/");
    reveal_strlit("/");
    match strip_prefix_spec(name, "refs/heads/"@) {
        Some(local) => {
            assert("refs/heads/"@ + local =~= name);
        },
        None => match strip_prefix_spec(name, "refs/remotes/"@) {
            Some(rest) => {
                assert("refs/remotes/"@ + rest =~= name);
                match split_once_spec(rest, "/"@) {
                    Some((remote, branch)) => {
                        let i = crate::text::find_spec(rest, "/"@)->0;
                        assert(crate::text::is_first_occurrence(rest, "/"@, i));
                        assert(rest.subrange(i, i + 1) == "/"@);
                        assert(remote + "/"@ + branch =~= rest);
                    },
                    None => {},
                }
            },
            None => {},
        },
    }
}


/// The escape of a character ends with that character.
proof fn lemma_escape_char_last(c: char)
    ensures
        escape_char_spec(c).len() > 0,
        escape_char_spec(c).last() == c,
{
}

/// Distinct texts escape to distinct patterns: escaping loses nothing.
#[verifier::spinoff_prover]
pub proof fn lemma_escape_re_injective(a: Seq<char>, b: Seq<char>)
    requires
        escape_re_spec(a) == escape_re_spec(b),
    ensures
        a == b,
    decreases a.len(),
{
    if a.len() == 0 || b.len() == 0 {
        if a.len() > 0 {
            lemma_escape_char_last(a.last());
        }
        if b.len() > 0 {
            lemma_escape_char_last(b.last());
        }
        assert(a =~= b);
    } else {
        lemma_escape_char_last(a.last());
        lemma_escape_char_last(b.last());
        let ea = escape_re_spec(a);
        assert(ea.last() == a.last());
        assert(ea.last() == b.last());
        assert(escape_char_spec(a.last()) == escape_char_spec(b.last()));
        let n = escape_char_spec(a.last()).len();
        assert(escape_re_spec(a.drop_last()) =~= ea.take(ea.len() - n));
        assert(escape_re_spec(b.drop_last()) =~= ea.take(ea.len() - n));
        lemma_escape_re_injective(a.drop_last(), b.drop_last());
        assert(a =~= a.drop_last().push(a.last()));
        assert(b =~= b.drop_last().push(b.last()));
    }
}

/// The full name of a local branch parses back to that branch, and `from_long` takes it
/// back to the branch name.
pub proof fn lemma_parse_local_full(name: Seq<char>)
    ensures
        parse_branch_name_spec(local_full_spec(name)) == Some((true, Seq::<char>::empty(), name)),
        strip_prefix_spec(local_full_spec(name), "refs/heads/"@) == Some(name),
{
    reveal_strlit("refs/heads/");
    assert("refs/heads/"@.is_prefix_of(local_full_spec(name)));
    assert(local_full_spec(name).skip(11) =~= name);
}

/// The full name of a remote-tracking branch parses back to that branch, when the
/// remote's name has no slash.
pub proof fn lemma_parse_remote_full(remote: Seq<char>, name: Seq<char>)
    requires
        !remote.contains('/'),
    ensures
        parse_branch_name_spec(remote_full_spec(remote, name)) == Some((false, remote, name)),
{
    reveal_strlit("refs/heads/");
    reveal_strlit("refs/remotes/");
    reveal_strlit("/");
    let full = remote_full_spec(remote, name);
    assert(full[5] == 'r');
    assert("refs/heads/"@[5] == 'h');
    assert(!"refs/heads/"@.is_prefix_of(full));
    assert("refs/remotes/"@.is_prefix_of(full));
    let rest = full.skip(13);
    assert(rest =~= remote + "/"@ + name);
    let i = remote.len() as int;
    assert(rest.subrange(i, i + 1) =~= "/"@);
    assert forall|j: int| 0 <= j < i implies !crate::text::occurs_at(rest, "/"@, j) by {
        if crate::text::occurs_at(rest, "/"@, j) {
            assert(rest.subrange(j, j + 1)[0] == rest[j]);
            assert(rest[j] == remote[j]);
        }
    }
    assert(crate::text::is_first_occurrence(rest, "/"@, i));
    crate::text::lemma_find_is(rest, "/"@, i);
    assert(rest.take(i) =~= remote);
    assert(rest.skip(i + 1) =~= name);
}

/// The map that (key, value) entries give when each key takes the value of its first entry.
pub open spec fn first_wins(m: Seq<(Seq<char>, Seq<char>)>) -> Map<Seq<char>, Seq<char>>
    decreases m.len(),
{
    if m.len() == 0 {
        Map::empty()
    } else {
        first_wins(m.drop_first()).insert(m[0].0, m[0].1)
    }
}

/// The map that collecting (value, key) entries into a map builds, keyed by the second
/// part: a later entry for a key replaces an earlier one.
pub open spec fn last_wins_swapped(l: Seq<(Seq<char>, Seq<char>)>) -> Map<Seq<char>, Seq<char>>
    decreases l.len(),
{
    if l.len() == 0 {
        Map::empty()
    } else {
        last_wins_swapped(l.drop_last()).insert(l.last().1, l.last().0)
    }
}

/// The first index of a key is unique.
proof fn lemma_key_index_unique(m: Seq<(Seq<char>, Seq<char>)>, key: Seq<char>, i: int, j: int)
    requires
        is_key_index(m, key, i),
        is_key_index(m, key, j),
    ensures
        i == j,
{
    if i < j {
        assert(m[i].0 != key);
    } else if j < i {
        assert(m[j].0 != key);
    }
}

/// Every key of the entries is in the map, and the entry found first for a key holds the
/// map's value for it.
proof fn lemma_entry_for_first_wins(m: Seq<(Seq<char>, Seq<char>)>, key: Seq<char>)
    ensures
        entry_for(m, key) == (if first_wins(m).dom().contains(key) {
            Some((key, first_wins(m)[key]))
        } else {
            None::<(Seq<char>, Seq<char>)>
        }),
    decreases m.len(),
{
    if m.len() == 0 {
        assert(!exists|i: int| is_key_index(m, key, i));
        return;
    }
    let rest = m.drop_first();
    lemma_entry_for_first_wins(rest, key);
    if m[0].0 == key {
        assert(is_key_index(m, key, 0));
        let k = choose|k: int| is_key_index(m, key, k);
        lemma_key_index_unique(m, key, 0, k);
    } else {
        if exists|i: int| is_key_index(rest, key, i) {
            let i = choose|i: int| is_key_index(rest, key, i);
            assert(is_key_index(m, key, i + 1)) by {
                assert forall|j: int| 0 <= j < i + 1 implies m[j].0 != key by {
                    if j > 0 {
                        assert(m[j] == rest[j - 1]);
                    }
                }
            }
            let k = choose|k: int| is_key_index(m, key, k);
            lemma_key_index_unique(m, key, i + 1, k);
        } else {
            assert forall|k: int| !is_key_index(m, key, k) by {
                if is_key_index(m, key, k) {
                    assert(k > 0);
                    assert(is_key_index(rest, key, k - 1)) by {
                        assert forall|j: int| 0 <= j < k - 1 implies rest[j].0 != key by {
                            assert(rest[j] == m[j + 1]);
                        }
                    }
                }
            }
        }
    }
}

/// Every key of the entries is in the map.
proof fn lemma_first_wins_has_keys(m: Seq<(Seq<char>, Seq<char>)>, i: int)
    requires
        0 <= i < m.len(),
    ensures
        first_wins(m).dom().contains(m[i].0),
    decreases m.len(),
{
    if i > 0 {
        lemma_first_wins_has_keys(m.drop_first(), i - 1);
    }
}

/// What selecting a reference for a short name over a map means: the name itself, else
/// `refs/`, `refs/tags/` and `refs/heads/` before it, in that order, when one is a key;
/// what is selected is a key with its value; and nothing is selected when none of those,
/// no remote-tracking name ending in the name, and no `refs/remotes/<name>/HEAD` is a key.
pub open spec fn selects_from(refname: Seq<char>, mp: Map<Seq<char>, Seq<char>>, r: Option<
    (Seq<char>, Seq<char>),
>) -> bool {
    &&& r matches Some((k, v)) ==> mp.dom().contains(k) && mp[k] == v
    &&& mp.dom().contains(refname) ==> r == Some((refname, mp[refname]))
    &&& !mp.dom().contains(refname) && mp.dom().contains("refs/"@ + refname) ==> r == Some(
        ("refs/"@ + refname, mp["refs/"@ + refname]),
    )
    &&& !mp.dom().contains(refname) && !mp.dom().contains("refs/"@ + refname) && mp.dom().contains(
        "refs/tags/"@ + refname,
    ) ==> r == Some(("refs/tags/"@ + refname, mp["refs/tags/"@ + refname]))
    &&& !mp.dom().contains(refname) && !mp.dom().contains("refs/"@ + refname) && !mp.dom().contains(
        "refs/tags/"@ + refname,
    ) && mp.dom().contains("refs/heads/"@ + refname) ==> r == Some(
        ("refs/heads/"@ + refname, mp["refs/heads/"@ + refname]),
    )
    &&& (!mp.dom().contains(refname) && !mp.dom().contains("refs/"@ + refname) && !mp.dom().contains(
        "refs/tags/"@ + refname,
    ) && !mp.dom().contains("refs/heads/"@ + refname) && (forall|k: Seq<char>|
        mp.dom().contains(k) ==> !is_remote_match(k, refname)) && !mp.dom().contains(
        "refs/remotes/"@ + refname + "/HEAD"@,
    )) ==> r is None
}

/// Selecting a reference over (reference, commit) entries is selecting over their map, a
/// key's first entry counting.
pub proof fn lemma_select_reference_map(refname: Seq<char>, m: Seq<(Seq<char>, Seq<char>)>)
    ensures
        selects_from(refname, first_wins(m), select_reference_spec(refname, m)),
{
    let mp = first_wins(m);
    lemma_entry_for_first_wins(m, refname);
    lemma_entry_for_first_wins(m, "refs/"@ + refname);
    lemma_entry_for_first_wins(m, "refs/tags/"@ + refname);
    lemma_entry_for_first_wins(m, "refs/heads/"@ + refname);
    lemma_entry_for_first_wins(m, "refs/remotes/"@ + refname + "/HEAD"@);
    if exists|i: int| is_remote_index(m, refname, i) {
        let i = choose|i: int| is_remote_index(m, refname, i);
        let key = m[i].0;
        lemma_first_wins_has_keys(m, i);
        assert(is_key_index(m, key, i)) by {
            assert forall|j: int| 0 <= j < i implies m[j].0 != key by {
                assert(!is_remote_match(m[j].0, refname));
            }
        }
        lemma_entry_for_first_wins(m, key);
        let k = choose|k: int| is_key_index(m, key, k);
        lemma_key_index_unique(m, key, i, k);
        assert(entry_for(m, key) == Some(m[i]));
    }
}

/// Resolving a short name over the entries that `git show-ref` lists selects over the map
/// that collecting its (reference, commit) pairs builds, a later entry for a reference
/// winning.
pub proof fn lemma_resolve_refname_map(refname: Seq<char>, l: Seq<(Seq<char>, Seq<char>)>)
    ensures
        selects_from(refname, last_wins_swapped(l), select_reference_spec(refname, swapped_reversed(l))),
{
    lemma_select_reference_map(refname, swapped_reversed(l));
    lemma_swapped_reversed_map(l);
}

/// Reversing show-ref's (commit, reference) entries and swapping each pair gives the map
/// that collecting the swapped entries in order builds, a later entry winning.
pub proof fn lemma_swapped_reversed_map(l: Seq<(Seq<char>, Seq<char>)>)
    ensures
        first_wins(swapped_reversed(l)) == last_wins_swapped(l),
    decreases l.len(),
{
    if l.len() > 0 {
        lemma_swapped_reversed_map(l.drop_last());
        assert(swapped_reversed(l).drop_first() =~= swapped_reversed(l.drop_last()));
        assert(swapped_reversed(l)[0] == (l.last().1, l.last().0));
    } else {
        assert(swapped_reversed(l).len() == 0);
    }
}

} // verus!
