//! Who may set a label: team members always, others only for labels that
//! the repository lists as allowed (shell-style patterns, `!` to deny).
use vstd::prelude::*;
use vstd::string::{StrSliceExecFns, StringExecFns};

verus! {

#[verifier::external_type_specification]
#[verifier::external_body]
pub struct ExPattern(glob::Pattern);

#[verifier::external_type_specification]
#[verifier::external_body]
pub struct ExPatternError(glob::PatternError);

/// Whether `glob::Pattern::new` accepts a pattern text.
pub uninterp spec fn glob_valid(pattern: Seq<char>) -> bool;

/// Whether the pattern compiled from `pattern` matches `label`.
pub uninterp spec fn glob_match(pattern: Seq<char>, label: Seq<char>) -> bool;

/// A compiled pattern together with the text it was compiled from. Only
/// `compile_glob` builds one.
struct GlobPattern {
    source: String,
    compiled: glob::Pattern,
}

impl GlobPattern {
    closed spec fn source(&self) -> Seq<char> {
        self.source@
    }
}

/// Relies on glob::Pattern::new: it compiles a shell-style pattern and fails
/// on a malformed one; which it does depends on the text alone.
#[verifier::external_body]
fn compile_glob(pattern: &str) -> (r: Result<GlobPattern, glob::PatternError>)
    ensures
        r is Ok <==> glob_valid(pattern@),
        r matches Ok(g) ==> g.source() == pattern@,
{
    match glob::Pattern::new(pattern) {
        Ok(compiled) => Ok(GlobPattern { source: pattern.to_owned(), compiled }),
        Err(e) => Err(e),
    }
}

/// Relies on glob::Pattern::matches (default options): whether the label
/// matches the compiled pattern, a function of the two texts.
#[verifier::external_body]
fn glob_matches(p: &GlobPattern, label: &str) -> (r: bool)
    ensures
        r == glob_match(p.source(), label@),
{
    p.compiled.matches(label)
}

#[derive(Debug, Clone)]
pub struct RelabelConfig {
    pub allow_unauthenticated: Vec<String>,
}

#[derive(Debug, Clone, Copy, PartialEq, Eq, Structural)]
pub enum TeamMembership {
    Member,
    Outsider,
    Unknown,
}

#[derive(Debug, Clone, Copy, PartialEq, Eq, Structural)]
pub enum CheckFilterResult {
    Allow,
    Deny,
    DenyUnknown,
}

#[derive(Debug, Clone, Copy, PartialEq, Eq, Structural)]
pub enum MatchPatternResult {
    Allow,
    Deny,
    NoMatch,
}

pub open spec fn is_negated(pattern: Seq<char>) -> bool {
    pattern.len() > 0 && pattern[0] == '!'
}

/// The pattern without its leading `!`, if any.
pub open spec fn pattern_body(pattern: Seq<char>) -> Seq<char> {
    if is_negated(pattern) {
        pattern.subrange(1, pattern.len() as int)
    } else {
        pattern
    }
}

pub open spec fn classify(matched: bool, inverse: bool) -> MatchPatternResult {
    if !matched {
        MatchPatternResult::NoMatch
    } else if inverse {
        MatchPatternResult::Deny
    } else {
        MatchPatternResult::Allow
    }
}

/// What one allow-list pattern says of a label; `Err` for a malformed pattern.
pub open spec fn pattern_outcome(pattern: Seq<char>, label: Seq<char>) -> Result<
    MatchPatternResult,
    (),
> {
    if !glob_valid(pattern_body(pattern)) {
        Err(())
    } else {
        Ok(classify(glob_match(pattern_body(pattern), label), is_negated(pattern)))
    }
}

/// Outcome of a pattern that matched or not, negated or not.
pub fn classify_match(matched: bool, inverse: bool) -> (r: MatchPatternResult)
    ensures
        r == classify(matched, inverse),
{
    if !matched {
        MatchPatternResult::NoMatch
    } else if inverse {
        MatchPatternResult::Deny
    } else {
        MatchPatternResult::Allow
    }
}

/// Matches a label against one allow-list pattern. A leading `!` turns a
/// match into a denial.
pub fn match_pattern(pattern: &str, label: &str) -> (r: Result<MatchPatternResult, glob::PatternError>)
    ensures
        r is Err <==> pattern_outcome(pattern@, label@) is Err,
        r matches Ok(m) ==> pattern_outcome(pattern@, label@) == Ok::<MatchPatternResult, ()>(m),
{
    let n = pattern.unicode_len();
    let inverse = n > 0 && pattern.get_char(0) == '!';
    let body = if inverse {
        pattern.substring_char(1, n)
    } else {
        pattern
    };
    match compile_glob(body) {
        Err(e) => Err(e),
        Ok(g) => {
            let matched = glob_matches(&g, label);
            Ok(classify_match(matched, inverse))
        },
    }
}

/// Where the scan of the allow list stands: whether a pattern allowed the
/// label so far, and whether a denial ended the scan; or the index of a
/// malformed pattern.
pub open spec fn scan_step(
    st: Result<(bool, bool), int>,
    pattern: Seq<char>,
    label: Seq<char>,
    k: int,
) -> Result<(bool, bool), int> {
    match st {
        Err(i) => Err(i),
        Ok((matched, stopped)) => if stopped {
            st
        } else {
            match pattern_outcome(pattern, label) {
                Err(_) => Err(k),
                Ok(MatchPatternResult::Allow) => Ok((true, false)),
                Ok(MatchPatternResult::Deny) => Ok((false, true)),
                Ok(MatchPatternResult::NoMatch) => st,
            }
        },
    }
}

/// The scan of the allow list, in order. A denial overrides any allowing
/// pattern and ends the scan.
pub open spec fn scan_patterns(pats: Seq<Seq<char>>, label: Seq<char>) -> Result<(bool, bool), int>
    decreases pats.len(),
{
    if pats.len() == 0 {
        Ok((false, false))
    } else {
        scan_step(
            scan_patterns(pats.drop_last(), label),
            pats.last(),
            label,
            pats.len() - 1,
        )
    }
}

pub open spec fn patterns_of(config: &RelabelConfig) -> Seq<Seq<char>> {
    config.allow_unauthenticated@.map_values(|s: String| s@)
}

pub open spec fn decision(is_member: TeamMembership, matched: bool) -> CheckFilterResult {
    if is_member == TeamMembership::Member || matched {
        CheckFilterResult::Allow
    } else if is_member == TeamMembership::Outsider {
        CheckFilterResult::Deny
    } else {
        CheckFilterResult::DenyUnknown
    }
}

/// What `check_filter` decides for a label: team members may set any label;
/// others what the allow list allows. A malformed pattern met before any
/// denial is an error that names it.
pub open spec fn filter_outcome(label: Seq<char>, config: &RelabelConfig, is_member: TeamMembership) -> Result<
    CheckFilterResult,
    Seq<char>,
> {
    if is_member == TeamMembership::Member {
        Ok(CheckFilterResult::Allow)
    } else {
        match scan_patterns(patterns_of(config), label) {
            Err(k) => Err("failed to match pattern "@ + config.allow_unauthenticated@[k]@),
            Ok((matched, _)) => Ok(decision(is_member, matched)),
        }
    }
}

pub open spec fn filter_result_view(r: Result<CheckFilterResult, String>) -> Result<
    CheckFilterResult,
    Seq<char>,
> {
    match r {
        Ok(c) => Ok(c),
        Err(m) => Err(m@),
    }
}

/// The verdict for a label, given membership and whether the allow list
/// allowed it.
pub fn filter_decision(is_member: TeamMembership, matched: bool) -> (r: CheckFilterResult)
    ensures
        r == decision(is_member, matched),
{
    if is_member == TeamMembership::Member || matched {
        CheckFilterResult::Allow
    } else if is_member == TeamMembership::Outsider {
        CheckFilterResult::Deny
    } else {
        CheckFilterResult::DenyUnknown
    }
}

/// Whether a user of the given membership may set `label`. A malformed
/// pattern met before any denial is an error that names it.
pub fn check_filter(label: &str, config: &RelabelConfig, is_member: TeamMembership) -> (r: Result<
    CheckFilterResult,
    String,
>)
    ensures
        filter_result_view(r) == filter_outcome(label@, config, is_member),
{
    if is_member == TeamMembership::Member {
        return Ok(CheckFilterResult::Allow);
    }
    let ghost pats = patterns_of(config);
    let n = config.allow_unauthenticated.len();
    let mut matched = false;
    let mut stopped = false;
    let mut i: usize = 0;
    while i < n
        invariant
            n == config.allow_unauthenticated@.len(),
            pats == patterns_of(config),
            is_member != TeamMembership::Member,
            i <= n,
            scan_patterns(pats.subrange(0, i as int), label@) == Ok::<(bool, bool), int>(
                (matched, stopped),
            ),
        decreases n - i,
    {
        assert(pats.subrange(0, i + 1).drop_last() =~= pats.subrange(0, i as int));
        if !stopped {
            let pattern = &config.allow_unauthenticated[i];
            match match_pattern(pattern.as_str(), label) {
                Ok(MatchPatternResult::Allow) => {
                    matched = true;
                },
                Ok(MatchPatternResult::Deny) => {
                    matched = false;
                    stopped = true;
                },
                Ok(MatchPatternResult::NoMatch) => {},
                Err(_) => {
                    proof {
                        lemma_scan_keeps_error(pats, label@, i as int + 1);
                    }
                    let mut msg = String::from_str("failed to match pattern ");
                    msg.append(pattern.as_str());
                    return Err(msg);
                },
            }
        }
        i = i + 1;
    }
    assert(pats.subrange(0, n as int) =~= pats);
    Ok(filter_decision(is_member, matched))
}

/// Once the scan has failed on a pattern, later patterns do not change it.
proof fn lemma_scan_keeps_error(pats: Seq<Seq<char>>, label: Seq<char>, i: int)
    requires
        0 <= i <= pats.len(),
        scan_patterns(pats.subrange(0, i), label) is Err,
    ensures
        scan_patterns(pats, label) == scan_patterns(pats.subrange(0, i), label),
    decreases pats.len() - i,
{
    if i < pats.len() {
        assert(pats.subrange(0, i + 1).drop_last() =~= pats.subrange(0, i));
        lemma_scan_keeps_error(pats, label, i + 1);
    } else {
        assert(pats.subrange(0, i) =~= pats);
    }
}

/// Membership as far as it could be checked: `None` when the check failed.
pub fn membership(is_member: Option<bool>) -> (r: TeamMembership)
    ensures
        r == match is_member {
            Some(true) => TeamMembership::Member,
            Some(false) => TeamMembership::Outsider,
            None => TeamMembership::Unknown,
        },
{
    match is_member {
        Some(true) => TeamMembership::Member,
        Some(false) => TeamMembership::Outsider,
        None => TeamMembership::Unknown,
    }
}

/// One change that a relabel command asks for.
#[derive(Debug, Clone, PartialEq, Eq)]
pub enum LabelDelta {
    Add(String),
    Remove(String),
}

impl LabelDelta {
    pub open spec fn label_view(&self) -> Seq<char> {
        match self {
            LabelDelta::Add(l) => l@,
            LabelDelta::Remove(l) => l@,
        }
    }
}

pub open spec fn names(ls: Seq<String>) -> Seq<Seq<char>> {
    ls.map_values(|s: String| s@)
}

/// First index of `x` in `ls`, or -1.
pub open spec fn label_index(ls: Seq<Seq<char>>, x: Seq<char>) -> int
    decreases ls.len(),
{
    if ls.len() == 0 {
        -1
    } else if label_index(ls.drop_last(), x) >= 0 {
        label_index(ls.drop_last(), x)
    } else if ls.last() == x {
        ls.len() - 1
    } else {
        -1
    }
}

/// The labels after one change, and whether they changed: adding a label
/// already there, or removing one that is not, changes nothing.
pub open spec fn apply_delta(ls: Seq<Seq<char>>, d: LabelDelta) -> (Seq<Seq<char>>, bool) {
    match d {
        LabelDelta::Add(l) => if label_index(ls, l@) >= 0 {
            (ls, false)
        } else {
            (ls.push(l@), true)
        },
        LabelDelta::Remove(l) => if label_index(ls, l@) >= 0 {
            (ls.remove(label_index(ls, l@)), true)
        } else {
            (ls, false)
        },
    }
}

pub open spec fn denial_text(label: Seq<char>, verdict: CheckFilterResult) -> Seq<char> {
    if verdict == CheckFilterResult::Deny {
        "Label "@ + label + " can only be set by Rust team members"@
    } else {
        "Label "@ + label
            + " can only be set by Rust team members;we were unable to check if you are a team member."@
    }
}

/// What a relabel command does to an issue's labels, change by change: the
/// first change that the user may not make stops it with the message to
/// post, and nothing is set. Otherwise the new labels and whether any
/// change took effect.
pub open spec fn relabel_outcome(
    ls: Seq<Seq<char>>,
    deltas: Seq<LabelDelta>,
    config: &RelabelConfig,
    is_member: TeamMembership,
) -> Result<(Seq<Seq<char>>, bool), Seq<char>>
    decreases deltas.len(),
{
    if deltas.len() == 0 {
        Ok((ls, false))
    } else {
        match relabel_outcome(ls, deltas.drop_last(), config, is_member) {
            Err(m) => Err(m),
            Ok((cur, changed)) => {
                let d = deltas.last();
                match filter_outcome(d.label_view(), config, is_member) {
                    Err(m) => Err(m),
                    Ok(CheckFilterResult::Allow) => {
                        let (next, c) = apply_delta(cur, d);
                        Ok((next, changed || c))
                    },
                    Ok(v) => Err(denial_text(d.label_view(), v)),
                }
            },
        }
    }
}

proof fn lemma_label_index(ls: Seq<Seq<char>>, x: Seq<char>)
    ensures
        -1 <= label_index(ls, x) < ls.len(),
        label_index(ls, x) >= 0 ==> ls[label_index(ls, x)] == x,
        label_index(ls, x) < 0 ==> forall|k: int| 0 <= k < ls.len() ==> ls[k] != x,
        label_index(ls, x) >= 0 ==> forall|k: int| 0 <= k < label_index(ls, x) ==> ls[k] != x,
    decreases ls.len(),
{
    if ls.len() > 0 {
        let d = ls.drop_last();
        lemma_label_index(d, x);
        assert forall|k: int| 0 <= k < d.len() implies d[k] == ls[k] by {}
    }
}

proof fn lemma_label_index_at(ls: Seq<Seq<char>>, x: Seq<char>, k: int)
    requires
        0 <= k < ls.len(),
        ls[k] == x,
        forall|j: int| 0 <= j < k ==> ls[j] != x,
    ensures
        label_index(ls, x) == k,
{
    lemma_label_index(ls, x);
}

/// Index of the first label named `x`.
fn find_label(labels: &Vec<String>, x: &str) -> (r: Option<usize>)
    ensures
        r is None ==> label_index(names(labels@), x@) < 0,
        r matches Some(k) ==> k as int == label_index(names(labels@), x@),
{
    let ghost ns = names(labels@);
    let n = labels.len();
    let mut i: usize = 0;
    while i < n
        invariant
            n == labels@.len(),
            ns == names(labels@),
            i <= n,
            forall|j: int| 0 <= j < i ==> ns[j] != x@,
        decreases n - i,
    {
        if crate::text::str_eq(labels[i].as_str(), x) {
            proof {
                lemma_label_index_at(ns, x@, i as int);
            }
            return Some(i);
        }
        i = i + 1;
    }
    proof {
        lemma_label_index(ns, x@);
    }
    None
}

fn denial_message(label: &str, verdict: CheckFilterResult) -> (r: String)
    ensures
        r@ == denial_text(label@, verdict),
{
    let mut s = String::from_str("Label ");
    s.append(label);
    if verdict == CheckFilterResult::Deny {
        s.append(" can only be set by Rust team members");
    } else {
        s.append(
            " can only be set by Rust team members;we were unable to check if you are a team member.",
        );
    }
    s
}

/// Applies the changes of a relabel command to an issue's labels. `Ok`
/// holds the new labels and whether they differ; `Err` the message to post
/// when a change is not allowed, in which case no label is set.
pub fn apply_label_deltas(
    issue_labels: Vec<String>,
    deltas: &Vec<LabelDelta>,
    config: &RelabelConfig,
    is_member: TeamMembership,
) -> (r: Result<(Vec<String>, bool), String>)
    ensures
        match relabel_outcome(names(issue_labels@), deltas@, config, is_member) {
            Ok((ls, changed)) => r matches Ok((v, c)) && names(v@) == ls && c == changed,
            Err(m) => r matches Err(x) && x@ == m,
        },
{
    let ghost start = names(issue_labels@);
    let mut labels = issue_labels;
    let mut changed = false;
    let n = deltas.len();
    let mut i: usize = 0;
    while i < n
        invariant
            n == deltas@.len(),
            i <= n,
            start == names(issue_labels@),
            relabel_outcome(start, deltas@.subrange(0, i as int), config, is_member) == Ok::<
                (Seq<Seq<char>>, bool),
                Seq<char>,
            >((names(labels@), changed)),
        decreases n - i,
    {
        let ghost prefix = deltas@.subrange(0, i + 1);
        assert(prefix.drop_last() =~= deltas@.subrange(0, i as int));
        let delta = &deltas[i];
        let name = match delta {
            LabelDelta::Add(l) => l.as_str(),
            LabelDelta::Remove(l) => l.as_str(),
        };
        match check_filter(name, config, is_member) {
            Err(m) => {
                proof {
                    lemma_outcome_keeps_error(start, deltas@, config, is_member, i + 1);
                }
                return Err(m);
            },
            Ok(CheckFilterResult::Allow) => {},
            Ok(v) => {
                proof {
                    lemma_outcome_keeps_error(start, deltas@, config, is_member, i + 1);
                }
                return Err(denial_message(name, v));
            },
        }
        let ghost before = names(labels@);
        match delta {
            LabelDelta::Add(l) => {
                if find_label(&labels, l.as_str()).is_none() {
                    labels.push(l.clone());
                    changed = true;
                    assert(names(labels@) =~= before.push(l@));
                }
            },
            LabelDelta::Remove(l) => {
                match find_label(&labels, l.as_str()) {
                    Some(k) => {
                        proof {
                            lemma_label_index(names(labels@), l@);
                        }
                        labels.remove(k);
                        changed = true;
                        assert(names(labels@) =~= before.remove(k as int));
                    },
                    None => {},
                }
            },
        }
        i = i + 1;
    }
    assert(deltas@.subrange(0, n as int) =~= deltas@);
    Ok((labels, changed))
}

/// Once a relabel command has stopped on a change, later changes do not
/// alter the outcome.
proof fn lemma_outcome_keeps_error(
    ls: Seq<Seq<char>>,
    deltas: Seq<LabelDelta>,
    config: &RelabelConfig,
    is_member: TeamMembership,
    i: int,
)
    requires
        0 <= i <= deltas.len(),
        relabel_outcome(ls, deltas.subrange(0, i), config, is_member) is Err,
    ensures
        relabel_outcome(ls, deltas, config, is_member) == relabel_outcome(
            ls,
            deltas.subrange(0, i),
            config,
            is_member,
        ),
    decreases deltas.len() - i,
{
    if i < deltas.len() {
        assert(deltas.subrange(0, i + 1).drop_last() =~= deltas.subrange(0, i));
        lemma_outcome_keeps_error(ls, deltas, config, is_member, i + 1);
    } else {
        assert(deltas.subrange(0, i) =~= deltas);
    }
}

pub open spec fn not_enabled_in_text(repository: Seq<char>) -> Seq<char> {
    "The feature `relabel` is not enabled in the `"@ + repository + "` repository."@
}

/// The chat reply when a relabel command names a repository whose
/// configuration has no relabel section.
pub fn not_enabled_in(repository: &str) -> (r: String)
    ensures
        r@ == not_enabled_in_text(repository@),
{
    let mut s = String::from_str("The feature `relabel` is not enabled in the `");
    s.append(repository);
    s.append("` repository.");
    s
}

} // verus!
