//! Running a notification command on behalf of another user (`as <user>
//! ...`): who the acting user is, and the steps that resolve the delegate,
//! run the command as them, and tell them about it.
use vstd::prelude::*;
use vstd::string::{StrSliceExecFns, StringExecFns};
use crate::manage_notifs::{delegation_notice, delegation_text};
use crate::text::{decimal, push_decimal, push_signed, signed_decimal, str_eq};
use crate::token::{lex, skip_space, LexStep, Token, TokenModel, Tokenizer};

verus! {

pub open spec fn unknown_user_text(sender_id: u64) -> Seq<char> {
    "Unknown Zulip user. Please add `zulip-id = "@ + decimal(sender_id as nat)
        + "` to your file in rust-lang/team."@
}

/// The list a chat sender's own commands act on: that of their
/// code-hosting id, given the outcome of looking it up. Otherwise the reply
/// to send: the sender is unknown, or the lookup failed (with its cause).
pub fn sender_owner(sender_id: u64, lookup: Result<Option<i64>, String>) -> (r: Result<i64, String>)
    ensures
        lookup matches Ok(Some(id)) ==> r == Ok::<i64, String>(id),
        lookup is Ok && lookup.unwrap() is None ==> (r matches Err(m) && m@ == unknown_user_text(
            sender_id,
        )),
        lookup matches Err(e) ==> (r matches Err(m) && m@ == "Failed to query team API: "@ + e@),
{
    match lookup {
        Ok(Some(id)) => Ok(id),
        Ok(None) => {
            let mut m = String::from_str("Unknown Zulip user. Please add `zulip-id = ");
            push_decimal(&mut m, sender_id);
            m.append("` to your file in rust-lang/team.");
            Err(m)
        },
        Err(e) => {
            let mut m = String::from_str("Failed to query team API: ");
            m.append(e.as_str());
            Err(m)
        },
    }
}

/// The command text after an `as <user>` prefix, from its first
/// non-blank character to the end.
pub open spec fn delegated_command_spec(s: Seq<char>) -> Option<Seq<char>> {
    match lex(s, 0) {
        LexStep::Tok(TokenModel::Word(w), p) => if w == "as"@ {
            match lex(s, p) {
                LexStep::Tok(TokenModel::Word(_), q) => Some(s.subrange(skip_space(s, q), s.len() as int)),
                _ => None,
            }
        } else {
            None
        },
        _ => None,
    }
}

/// The text of the command that an `as <user> ...` message delegates.
pub fn delegated_command(text: &str) -> (r: Option<&str>)
    ensures
        match delegated_command_spec(text@) {
            Some(c) => r matches Some(x) && x@ == c,
            None => r is None,
        },
{
    let mut toks = Tokenizer::new(text);
    match toks.next_token() {
        Ok(Some(Token::Word(w))) => {
            if !str_eq(w, "as") {
                return None;
            }
        },
        _ => {
            return None;
        },
    }
    match toks.next_token() {
        Ok(Some(Token::Word(_))) => {},
        _ => {
            return None;
        },
    }
    let start = toks.skip_whitespace();
    Some(text.substring_char(start, text.unicode_len()))
}

/// A member of the chat organisation.
#[derive(Debug, Clone)]
pub struct Member {
    pub email: String,
    pub user_id: u64,
}

/// How far a delegated command has come.
#[derive(Debug)]
pub enum Delegation {
    /// Waiting for the delegate's code-hosting id.
    AwaitGithubId,
    /// Waiting for the list of chat members.
    AwaitMembers { github_id: i64 },
    /// Waiting for the chat id that the delegate's code-hosting id maps to.
    AwaitZulipId { github_id: i64, members: Vec<Member> },
    /// Waiting for the reply of the command run on the delegate's list.
    AwaitOutput { user_id: u64, email: String },
}

/// What the outside world answered.
#[derive(Debug)]
pub enum DelegationEvent {
    GithubId(Result<Option<i64>, String>),
    Members(Result<Vec<Member>, String>),
    ZulipId(Result<Option<u64>, String>),
    Output(String),
}

/// What to do next.
#[derive(Debug, PartialEq, Eq)]
pub enum DelegationAction {
    /// Fetch the list of chat members.
    FetchMembers,
    /// Look up the chat id of this code-hosting id.
    FetchZulipId(i64),
    /// Run the command on this code-hosting id's list.
    Run(i64),
    /// Reply to the sender with this text; if there is a notice, send it
    /// privately to that chat user (id, email) first.
    Finish { reply: String, notice: Option<(u64, String, String)> },
    /// Stop with an internal error carrying this cause.
    Fail(String),
}

pub open spec fn not_github_user_text() -> Seq<char> {
    "Can only authorize for other GitHub users."@
}

pub open spec fn unexpected_event_text() -> Seq<char> {
    "unexpected event while running a command for another user"@
}

/// The first member with the given chat id.
pub open spec fn member_index(ms: Seq<Member>, id: u64) -> int
    decreases ms.len(),
{
    if ms.len() == 0 {
        -1
    } else if member_index(ms.drop_last(), id) >= 0 {
        member_index(ms.drop_last(), id)
    } else if ms.last().user_id == id {
        ms.len() - 1
    } else {
        -1
    }
}

proof fn lemma_member_index(ms: Seq<Member>, id: u64)
    ensures
        -1 <= member_index(ms, id) < ms.len(),
        member_index(ms, id) >= 0 ==> ms[member_index(ms, id)].user_id == id,
        member_index(ms, id) < 0 ==> forall|k: int| 0 <= k < ms.len() ==> ms[k].user_id != id,
        member_index(ms, id) >= 0 ==> forall|k: int|
            0 <= k < member_index(ms, id) ==> ms[k].user_id != id,
    decreases ms.len(),
{
    if ms.len() > 0 {
        let d = ms.drop_last();
        lemma_member_index(d, id);
        assert forall|k: int| 0 <= k < d.len() implies d[k] == ms[k] by {}
    }
}

fn find_member(members: &Vec<Member>, id: u64) -> (r: Option<usize>)
    ensures
        r is None ==> member_index(members@, id) < 0,
        r matches Some(k) ==> k as int == member_index(members@, id) && k < members@.len(),
{
    let n = members.len();
    let mut i: usize = 0;
    while i < n
        invariant
            n == members@.len(),
            i <= n,
            forall|j: int| 0 <= j < i ==> members@[j].user_id != id,
        decreases n - i,
    {
        if members[i].user_id == id {
            proof {
                lemma_member_index(members@, id);
            }
            return Some(i);
        }
        i = i + 1;
    }
    proof {
        lemma_member_index(members@, id);
    }
    None
}

/// One step of a delegated command: from where it stands and what came
/// back, to where it stands next (`None` when done) and what to do.
/// `command` is the delegated command's text; the two names are the
/// sender's, for the notice.
pub fn delegation_step(
    state: Delegation,
    event: DelegationEvent,
    command: &str,
    sender_full_name: &str,
    sender_short_name: &str,
) -> (r: (Option<Delegation>, DelegationAction))
    ensures
        match (state, event) {
            (Delegation::AwaitGithubId, DelegationEvent::GithubId(Err(e))) => {
                &&& r.0 is None
                &&& r.1 matches DelegationAction::Fail(m) && m@ == "getting ID of github user: "@ + e@
            },
            (Delegation::AwaitGithubId, DelegationEvent::GithubId(Ok(None))) => {
                &&& r.0 is None
                &&& r.1 matches DelegationAction::Finish { reply, notice } && reply@
                    == not_github_user_text() && notice is None
            },
            (Delegation::AwaitGithubId, DelegationEvent::GithubId(Ok(Some(id)))) => {
                &&& r.0 matches Some(Delegation::AwaitMembers { github_id }) && github_id == id
                &&& r.1 == DelegationAction::FetchMembers
            },
            (Delegation::AwaitMembers { .. }, DelegationEvent::Members(Err(e))) => {
                &&& r.0 is None
                &&& r.1 matches DelegationAction::Finish { reply, notice } && reply@
                    == "Failed to get list of zulip users: "@ + e@ + "."@ && notice is None
            },
            (Delegation::AwaitMembers { github_id }, DelegationEvent::Members(Ok(ms))) => {
                &&& r.0 matches Some(Delegation::AwaitZulipId { github_id: g, members }) && g
                    == github_id && members@ == ms@
                &&& r.1 == DelegationAction::FetchZulipId(github_id)
            },
            (Delegation::AwaitZulipId { github_id, .. }, DelegationEvent::ZulipId(Ok(None))) => {
                &&& r.0 is None
                &&& r.1 matches DelegationAction::Finish { reply, notice } && reply@
                    == "Could not find Zulip ID for GitHub ID: "@ + signed_decimal(github_id as int)
                    && notice is None
            },
            (Delegation::AwaitZulipId { github_id, .. }, DelegationEvent::ZulipId(Err(e))) => {
                &&& r.0 is None
                &&& r.1 matches DelegationAction::Finish { reply, notice } && reply@
                    == "Could not find Zulip ID for GitHub id "@ + signed_decimal(github_id as int)
                    + ": "@ + e@ && notice is None
            },
            (
                Delegation::AwaitZulipId { github_id, members },
                DelegationEvent::ZulipId(Ok(Some(z))),
            ) => if member_index(members@, z) < 0 {
                &&& r.0 is None
                &&& r.1 matches DelegationAction::Finish { reply, notice } && reply@
                    == "Could not find Zulip user email."@ && notice is None
            } else {
                &&& r.0 matches Some(Delegation::AwaitOutput { user_id, email }) && user_id == z
                    && email@ == members@[member_index(members@, z)].email@
                &&& r.1 == DelegationAction::Run(github_id)
            },
            (Delegation::AwaitOutput { user_id, email }, DelegationEvent::Output(out)) => {
                &&& r.0 is None
                &&& r.1 matches DelegationAction::Finish { reply, notice } && reply@ == out@
                    && (notice matches Some((id, to, text)) && id == user_id && to@ == email@
                    && text@ == delegation_text(
                    sender_full_name@,
                    sender_short_name@,
                    command@,
                    out@,
                ))
            },
            _ => {
                &&& r.0 is None
                &&& r.1 matches DelegationAction::Fail(m) && m@ == unexpected_event_text()
            },
        },
{
    match (state, event) {
        (Delegation::AwaitGithubId, DelegationEvent::GithubId(Err(e))) => {
            let mut m = String::from_str("getting ID of github user: ");
            m.append(e.as_str());
            (None, DelegationAction::Fail(m))
        },
        (Delegation::AwaitGithubId, DelegationEvent::GithubId(Ok(None))) => (
            None,
            DelegationAction::Finish {
                reply: String::from_str("Can only authorize for other GitHub users."),
                notice: None,
            },
        ),
        (Delegation::AwaitGithubId, DelegationEvent::GithubId(Ok(Some(id)))) => (
            Some(Delegation::AwaitMembers { github_id: id }),
            DelegationAction::FetchMembers,
        ),
        (Delegation::AwaitMembers { .. }, DelegationEvent::Members(Err(e))) => {
            let mut m = String::from_str("Failed to get list of zulip users: ");
            m.append(e.as_str());
            m.append(".");
            (None, DelegationAction::Finish { reply: m, notice: None })
        },
        (Delegation::AwaitMembers { github_id }, DelegationEvent::Members(Ok(ms))) => (
            Some(Delegation::AwaitZulipId { github_id, members: ms }),
            DelegationAction::FetchZulipId(github_id),
        ),
        (Delegation::AwaitZulipId { github_id, .. }, DelegationEvent::ZulipId(Ok(None))) => {
            let mut m = String::from_str("Could not find Zulip ID for GitHub ID: ");
            push_signed(&mut m, github_id);
            (None, DelegationAction::Finish { reply: m, notice: None })
        },
        (Delegation::AwaitZulipId { github_id, .. }, DelegationEvent::ZulipId(Err(e))) => {
            let mut m = String::from_str("Could not find Zulip ID for GitHub id ");
            push_signed(&mut m, github_id);
            m.append(": ");
            m.append(e.as_str());
            (None, DelegationAction::Finish { reply: m, notice: None })
        },
        (Delegation::AwaitZulipId { github_id, members }, DelegationEvent::ZulipId(Ok(Some(z)))) => {
            match find_member(&members, z) {
                None => (
                    None,
                    DelegationAction::Finish {
                        reply: String::from_str("Could not find Zulip user email."),
                        notice: None,
                    },
                ),
                Some(k) => (
                    Some(Delegation::AwaitOutput { user_id: z, email: members[k].email.clone() }),
                    DelegationAction::Run(github_id),
                ),
            }
        },
        (Delegation::AwaitOutput { user_id, email }, DelegationEvent::Output(out)) => {
            let text = delegation_notice(
                sender_full_name,
                sender_short_name,
                command,
                out.as_str(),
            );
            (None, DelegationAction::Finish { reply: out, notice: Some((user_id, email, text)) })
        },
        _ => (
            None,
            DelegationAction::Fail(
                String::from_str("unexpected event while running a command for another user"),
            ),
        ),
    }
}

} // verus!
