//! The notification list of one owner, addressed by 1-based positions, and a
//! store that keeps one such list per owner.
use vstd::prelude::*;
use vstd::string::StringExecFns;
use crate::manage_notifs::{Identifier, IdentifierModel, NotifCommandKind};
use crate::text::{decimal, push_decimal};

verus! {

/// One entry of a notification list. Its position is its place in the list.
#[derive(Debug, Clone, PartialEq, Eq)]
pub struct Notification {
    pub origin_url: String,
    pub short_description: Option<String>,
    pub metadata: Option<String>,
    /// Creation time, in seconds since the Unix epoch.
    pub time: i64,
}

/// Failures of the list operations that the user caused.
#[derive(Debug, Clone, Copy, PartialEq, Eq, Structural)]
pub enum StoreError {
    /// No entry at the given position.
    NotFound,
    /// A position of `move` or `meta` is 0 or past the end.
    InvalidPosition,
}

/// An empty text stands for "none".
pub open spec fn optional_text(t: String) -> Option<String> {
    if t@.len() == 0 {
        None
    } else {
        Some(t)
    }
}

/// The entry that `add` appends.
pub open spec fn new_entry(url: String, description: String, time: i64) -> Notification {
    Notification {
        origin_url: url,
        short_description: optional_text(description),
        metadata: None,
        time,
    }
}

/// The entries whose URL is `u`, in list order.
pub open spec fn with_url(s: Seq<Notification>, u: Seq<char>) -> Seq<Notification>
    decreases s.len(),
{
    if s.len() == 0 {
        s
    } else if s.last().origin_url@ == u {
        with_url(s.drop_last(), u).push(s.last())
    } else {
        with_url(s.drop_last(), u)
    }
}

/// The entries whose URL is not `u`, in list order.
pub open spec fn without_url(s: Seq<Notification>, u: Seq<char>) -> Seq<Notification>
    decreases s.len(),
{
    if s.len() == 0 {
        s
    } else if s.last().origin_url@ != u {
        without_url(s.drop_last(), u).push(s.last())
    } else {
        without_url(s.drop_last(), u)
    }
}

/// The list with the entry at index `i` taken out and put back at index `j`
/// (0-based); every other entry keeps its relative order.
pub open spec fn moved(s: Seq<Notification>, i: int, j: int) -> Seq<Notification> {
    s.remove(i).insert(j, s[i])
}

pub open spec fn in_range(s: Seq<Notification>, p: int) -> bool {
    1 <= p <= s.len()
}

/// The list of one owner.
pub struct NotificationList {
    entries: Vec<Notification>,
}

impl View for NotificationList {
    type V = Seq<Notification>;

    closed spec fn view(&self) -> Seq<Notification> {
        self.entries@
    }
}

impl NotificationList {
    pub fn new() -> (r: NotificationList)
        ensures
            r@ == Seq::<Notification>::empty(),
    {
        NotificationList { entries: Vec::new() }
    }

    pub fn len(&self) -> (r: usize)
        ensures
            r == self@.len(),
    {
        self.entries.len()
    }

    /// The entry at a 1-based position.
    pub fn get(&self, position: usize) -> (r: Option<&Notification>)
        ensures
            in_range(self@, position as int) ==> r == Some(&self@[position - 1]),
            !in_range(self@, position as int) ==> r is None,
    {
        if position == 0 || position > self.entries.len() {
            None
        } else {
            Some(&self.entries[position - 1])
        }
    }

    /// Appends an entry at position `len + 1`.
    pub fn add(&mut self, url: String, description: String, time: i64)
        ensures
            final(self)@ == old(self)@.push(new_entry(url, description, time)),
    {
        let short_description = if description.as_str().is_empty() {
            None
        } else {
            Some(description)
        };
        self.entries.push(Notification { origin_url: url, short_description, metadata: None, time });
    }

    /// Removes the entry at a position, or every entry with a URL, and
    /// returns what was removed. A URL that matches nothing removes nothing.
    pub fn acknowledge(&mut self, id: &Identifier) -> (r: Result<Vec<Notification>, StoreError>)
        ensures
            match id@ {
                IdentifierModel::Index(p) => if in_range(old(self)@, p) {
                    &&& r matches Ok(v) && v@ == seq![old(self)@[p - 1]]
                    &&& final(self)@ == old(self)@.remove(p - 1)
                } else {
                    &&& r == Err::<Vec<Notification>, StoreError>(StoreError::NotFound)
                    &&& final(self)@ == old(self)@
                },
                IdentifierModel::Url(u) => {
                    &&& r matches Ok(v) && v@ == with_url(old(self)@, u)
                    &&& final(self)@ == without_url(old(self)@, u)
                },
            },
    {
        match id {
            Identifier::Index(p) => {
                let p = *p;
                if p == 0 || p > self.entries.len() {
                    return Err(StoreError::NotFound);
                }
                let removed = self.entries.remove(p - 1);
                let mut v = Vec::new();
                v.push(removed);
                Ok(v)
            },
            Identifier::Url(u) => {
                let ghost orig = self.entries@;
                let mut rest: Vec<Notification> = Vec::new();
                core::mem::swap(&mut rest, &mut self.entries);
                let n = rest.len();
                let mut kept: Vec<Notification> = Vec::new();
                let mut removed: Vec<Notification> = Vec::new();
                let mut i: usize = 0;
                while i < n
                    invariant
                        n == orig.len(),
                        i <= n,
                        rest@ == orig.subrange(i as int, n as int),
                        kept@ == without_url(orig.subrange(0, i as int), u@),
                        removed@ == with_url(orig.subrange(0, i as int), u@),
                    decreases n - i,
                {
                    let e = rest.remove(0);
                    assert(orig.subrange(0, i + 1).drop_last() =~= orig.subrange(0, i as int));
                    assert(rest@ =~= orig.subrange(i + 1, n as int));
                    if e.origin_url == *u {
                        removed.push(e);
                    } else {
                        kept.push(e);
                    }
                    i = i + 1;
                }
                assert(orig.subrange(0, n as int) =~= orig);
                self.entries = kept;
                Ok(removed)
            },
        }
    }

    /// Moves the entry at position `from` to position `to`.
    pub fn move_entry(&mut self, from: usize, to: usize) -> (r: Result<(), StoreError>)
        ensures
            r is Ok <==> in_range(old(self)@, from as int) && in_range(old(self)@, to as int),
            r is Ok ==> final(self)@ == moved(old(self)@, from - 1, to - 1),
            r is Err ==> r == Err::<(), StoreError>(StoreError::InvalidPosition) && final(self)@
                == old(self)@,
    {
        let n = self.entries.len();
        if from == 0 || from > n || to == 0 || to > n {
            return Err(StoreError::InvalidPosition);
        }
        let e = self.entries.remove(from - 1);
        self.entries.insert(to - 1, e);
        Ok(())
    }

    /// Replaces the metadata of the entry at a position; an empty text
    /// clears it.
    pub fn add_metadata(&mut self, position: usize, description: String) -> (r: Result<
        (),
        StoreError,
    >)
        ensures
            r is Ok <==> in_range(old(self)@, position as int),
            r is Ok ==> final(self)@ == old(self)@.update(
                position - 1,
                (Notification { metadata: optional_text(description), ..old(self)@[position - 1] }),
            ),
            r is Err ==> r == Err::<(), StoreError>(StoreError::InvalidPosition) && final(self)@
                == old(self)@,
    {
        let n = self.entries.len();
        if position == 0 || position > n {
            return Err(StoreError::InvalidPosition);
        }
        let metadata = if description.as_str().is_empty() {
            None
        } else {
            Some(description)
        };
        let mut e = self.entries.remove(position - 1);
        e.metadata = metadata;
        self.entries.insert(position - 1, e);
        assert(self.entries@ =~= old(self)@.update(
            position - 1,
            (Notification { metadata: optional_text(description), ..old(self)@[position - 1] }),
        ));
        Ok(())
    }
}

/// Acknowledging position `p` of a list of `n` entries leaves `n - 1`
/// entries at positions `1..=n-1`: those before `p` keep their position and
/// those after it move up by one.
pub proof fn lemma_acknowledge_renumbers(s: Seq<Notification>, p: int)
    requires
        in_range(s, p),
    ensures
        s.remove(p - 1).len() == s.len() - 1,
        forall|q: int| 1 <= q < p ==> #[trigger] s.remove(p - 1)[q - 1] == s[q - 1],
        forall|q: int| p <= q <= s.len() - 1 ==> #[trigger] s.remove(p - 1)[q - 1] == s[q],
{
}

/// Where the entry at index `k` after a move from index `i` to index `j`
/// stood before it: the stretch between the two shifts by one place.
pub open spec fn source_index(i: int, j: int, k: int) -> int {
    if k == j {
        i
    } else if i < j && i <= k < j {
        k + 1
    } else if j < i && j < k <= i {
        k - 1
    } else {
        k
    }
}

/// Moving an entry rotates the stretch between the two positions, so the
/// list keeps its entries and the order of the others; moving it back
/// restores the list.
pub proof fn lemma_move_is_invertible_permutation(s: Seq<Notification>, from: int, to: int)
    requires
        in_range(s, from),
        in_range(s, to),
    ensures
        moved(s, from - 1, to - 1).len() == s.len(),
        forall|k: int|
            0 <= k < s.len() ==> #[trigger] moved(s, from - 1, to - 1)[k] == s[source_index(
                from - 1,
                to - 1,
                k,
            )],
        moved(s, from - 1, to - 1).to_multiset() == s.to_multiset(),
        moved(s, from - 1, to - 1).remove(to - 1) == s.remove(from - 1),
        moved(moved(s, from - 1, to - 1), to - 1, from - 1) == s,
{
    broadcast use vstd::seq_lib::group_to_multiset_ensures;

    let i = from - 1;
    let j = to - 1;
    let a = s[i];
    let r = s.remove(i);
    let t = moved(s, i, j);
    assert(t[j] == a);
    assert(t.remove(j) =~= r);
    assert(r.insert(i, a) =~= s);
    assert(s.contains(a));
    assert(t.contains(a));
    assert(t.to_multiset().remove(a) == r.to_multiset());
    assert(s.to_multiset().remove(a) == r.to_multiset());
    assert(t.to_multiset() =~= s.to_multiset());
}

/// Adding an entry and then acknowledging the position it was given brings
/// the list back to what it was.
pub proof fn lemma_add_then_acknowledge(s: Seq<Notification>, url: String, description: String, time: i64)
    ensures
        in_range(s.push(new_entry(url, description, time)), s.len() + 1 as int),
        s.push(new_entry(url, description, time)).remove(s.len() as int) == s,
{
    assert(s.push(new_entry(url, description, time)).remove(s.len() as int) =~= s);
}

/// One line of the acknowledgement reply: a link titled by the description
/// (or the URL), then the metadata in parentheses, if any.
pub open spec fn entry_line(n: Notification) -> Seq<char> {
    " * ["@ + (match n.short_description {
        Some(d) => d@,
        None => n.origin_url@,
    }) + "]("@ + n.origin_url@ + ")"@ + (match n.metadata {
        Some(m) => " ("@ + m@ + ")"@,
        None => seq![],
    }) + "\n"@
}

pub open spec fn entry_lines(s: Seq<Notification>) -> Seq<char>
    decreases s.len(),
{
    if s.len() == 0 {
        seq![]
    } else {
        entry_lines(s.drop_last()) + entry_line(s.last())
    }
}

pub open spec fn acknowledged_text(s: Seq<Notification>) -> Seq<char> {
    "Acknowledged:\n"@ + entry_lines(s)
}

fn push_entry_line(out: &mut String, n: &Notification)
    ensures
        final(out)@ == old(out)@ + entry_line(*n),
{
    out.append(" * [");
    match &n.short_description {
        Some(d) => out.append(d.as_str()),
        None => out.append(n.origin_url.as_str()),
    }
    out.append("](");
    out.append(n.origin_url.as_str());
    out.append(")");
    match &n.metadata {
        Some(m) => {
            out.append(" (");
            out.append(m.as_str());
            out.append(")");
        },
        None => {},
    }
    out.append("\n");
    assert(out@ =~= old(out)@ + entry_line(*n));
}

/// The reply listing acknowledged entries.
pub fn acknowledged_reply(removed: &Vec<Notification>) -> (r: String)
    ensures
        r@ == acknowledged_text(removed@),
{
    let mut out = String::from_str("Acknowledged:\n");
    let n = removed.len();
    let mut i: usize = 0;
    while i < n
        invariant
            n == removed@.len(),
            i <= n,
            out@ == "Acknowledged:\n"@ + entry_lines(removed@.subrange(0, i as int)),
        decreases n - i,
    {
        assert(removed@.subrange(0, i + 1).drop_last() =~= removed@.subrange(0, i as int));
        push_entry_line(&mut out, &removed[i]);
        i = i + 1;
        assert(out@ =~= "Acknowledged:\n"@ + entry_lines(removed@.subrange(0, i as int)));
    }
    assert(removed@.subrange(0, n as int) =~= removed@);
    out
}

pub open spec fn moved_text(from: usize, to: usize) -> Seq<char> {
    "Moved "@ + decimal(from as nat) + " to "@ + decimal(to as nat) + "."@
}

/// The list after a command.
pub open spec fn command_effect(s: Seq<Notification>, command: NotifCommandKind, time: i64) -> Seq<
    Notification,
> {
    match command {
        NotifCommandKind::Acknowledge(Identifier::Index(p)) => if in_range(s, p as int) {
            s.remove(p - 1)
        } else {
            s
        },
        NotifCommandKind::Acknowledge(Identifier::Url(u)) => without_url(s, u@),
        NotifCommandKind::Add(u, d) => s.push(new_entry(u, d, time)),
        NotifCommandKind::Move(from, to) => if in_range(s, from as int) && in_range(s, to as int) {
            moved(s, from - 1, to - 1)
        } else {
            s
        },
        NotifCommandKind::Meta(p, d) => if in_range(s, p as int) {
            s.update(p - 1, (Notification { metadata: optional_text(d), ..s[p - 1] }))
        } else {
            s
        },
    }
}

/// The reply to a command run on the list `s`.
pub open spec fn command_reply(s: Seq<Notification>, command: NotifCommandKind) -> Seq<char> {
    match command {
        NotifCommandKind::Acknowledge(Identifier::Index(p)) => if in_range(s, p as int) {
            acknowledged_text(seq![s[p - 1]])
        } else {
            "Failed to acknowledge "@ + decimal(p as nat) + ": NotFound."@
        },
        NotifCommandKind::Acknowledge(Identifier::Url(u)) => acknowledged_text(with_url(s, u@)),
        NotifCommandKind::Add(_, _) => "Created!"@,
        NotifCommandKind::Move(from, to) => if in_range(s, from as int) && in_range(s, to as int) {
            moved_text(from, to)
        } else {
            "Failed to move: InvalidPosition."@
        },
        NotifCommandKind::Meta(p, _) => if in_range(s, p as int) {
            "Added metadata!"@
        } else {
            "Failed to add: InvalidPosition"@
        },
    }
}

/// Runs a notification command on an owner's list and returns the reply.
pub fn execute(list: &mut NotificationList, command: NotifCommandKind, time: i64) -> (r: String)
    ensures
        final(list)@ == command_effect(old(list)@, command, time),
        r@ == command_reply(old(list)@, command),
{
    match command {
        NotifCommandKind::Acknowledge(id) => match list.acknowledge(&id) {
            Ok(removed) => acknowledged_reply(&removed),
            Err(_) => {
                let mut s = String::from_str("Failed to acknowledge ");
                match id {
                    Identifier::Index(p) => push_decimal(&mut s, p as u64),
                    Identifier::Url(u) => s.append(u.as_str()),
                }
                s.append(": NotFound.");
                s
            },
        },
        NotifCommandKind::Add(url, description) => {
            list.add(url, description, time);
            String::from_str("Created!")
        },
        NotifCommandKind::Move(from, to) => match list.move_entry(from, to) {
            Ok(()) => {
                let mut s = String::from_str("Moved ");
                push_decimal(&mut s, from as u64);
                s.append(" to ");
                push_decimal(&mut s, to as u64);
                s.append(".");
                s
            },
            Err(_) => String::from_str("Failed to move: InvalidPosition."),
        },
        NotifCommandKind::Meta(position, description) => match list.add_metadata(
            position,
            description,
        ) {
            Ok(()) => String::from_str("Added metadata!"),
            Err(_) => String::from_str("Failed to add: InvalidPosition"),
        },
    }
}

/// First index of `o` in `owners`, or -1.
pub open spec fn owner_index(owners: Seq<i64>, o: i64) -> int
    decreases owners.len(),
{
    if owners.len() == 0 {
        -1
    } else if owner_index(owners.drop_last(), o) >= 0 {
        owner_index(owners.drop_last(), o)
    } else if owners.last() == o {
        owners.len() - 1
    } else {
        -1
    }
}

proof fn lemma_owner_index(owners: Seq<i64>, o: i64)
    ensures
        -1 <= owner_index(owners, o) < owners.len(),
        owner_index(owners, o) >= 0 ==> owners[owner_index(owners, o)] == o,
        owner_index(owners, o) < 0 ==> forall|k: int| 0 <= k < owners.len() ==> owners[k] != o,
        owner_index(owners, o) >= 0 ==> forall|k: int|
            0 <= k < owner_index(owners, o) ==> owners[k] != o,
    decreases owners.len(),
{
    if owners.len() > 0 {
        let d = owners.drop_last();
        lemma_owner_index(d, o);
        assert forall|k: int| 0 <= k < d.len() implies d[k] == owners[k] by {}
    }
}

proof fn lemma_owner_index_push(owners: Seq<i64>, o: i64, x: i64)
    requires
        owner_index(owners, x) < 0,
    ensures
        owner_index(owners.push(x), o) == if o == x {
            owners.len() as int
        } else {
            owner_index(owners, o)
        },
{
    lemma_owner_index(owners, o);
    assert(owners.push(x).drop_last() =~= owners);
}

proof fn lemma_owner_index_of(owners: Seq<i64>, o: i64, k: int)
    requires
        0 <= k < owners.len(),
        owners[k] == o,
        forall|j: int| 0 <= j < k ==> owners[j] != o,
    ensures
        owner_index(owners, o) == k,
{
    lemma_owner_index(owners, o);
    if owner_index(owners, o) > k {
    }
}

/// Notification lists of all owners; an owner with no list has an empty one.
pub struct NotificationStore {
    owners: Vec<i64>,
    lists: Vec<NotificationList>,
}

impl NotificationStore {
    pub closed spec fn wf(&self) -> bool {
        &&& self.owners@.len() == self.lists@.len()
        &&& forall|i: int, j: int|
            0 <= i < j < self.owners@.len() ==> self.owners@[i] != self.owners@[j]
    }

    /// The list of an owner.
    pub closed spec fn list_of(&self, owner: i64) -> Seq<Notification> {
        let k = owner_index(self.owners@, owner);
        if 0 <= k < self.lists@.len() {
            self.lists@[k]@
        } else {
            Seq::empty()
        }
    }

    pub fn new() -> (r: NotificationStore)
        ensures
            r.wf(),
            forall|o: i64| #[trigger] r.list_of(o) == Seq::<Notification>::empty(),
    {
        NotificationStore { owners: Vec::new(), lists: Vec::new() }
    }

    fn find(&self, owner: i64) -> (r: Option<usize>)
        requires
            self.wf(),
        ensures
            r is None ==> owner_index(self.owners@, owner) < 0,
            r matches Some(k) ==> k == owner_index(self.owners@, owner) && k < self.lists@.len(),
    {
        let n = self.owners.len();
        let mut i: usize = 0;
        while i < n
            invariant
                n == self.owners@.len(),
                self.wf(),
                i <= n,
                forall|j: int| 0 <= j < i ==> self.owners@[j] != owner,
            decreases n - i,
        {
            if self.owners[i] == owner {
                proof {
                    lemma_owner_index_of(self.owners@, owner, i as int);
                }
                return Some(i);
            }
            i = i + 1;
        }
        proof {
            lemma_owner_index(self.owners@, owner);
        }
        None
    }

    /// The entry at a 1-based position of an owner's list.
    pub fn get(&self, owner: i64, position: usize) -> (r: Option<&Notification>)
        requires
            self.wf(),
        ensures
            in_range(self.list_of(owner), position as int) ==> r == Some(
                &self.list_of(owner)[position - 1],
            ),
            !in_range(self.list_of(owner), position as int) ==> r is None,
    {
        match self.find(owner) {
            Some(k) => self.lists[k].get(position),
            None => None,
        }
    }

    /// Number of entries in an owner's list.
    pub fn len(&self, owner: i64) -> (r: usize)
        requires
            self.wf(),
        ensures
            r == self.list_of(owner).len(),
    {
        match self.find(owner) {
            Some(k) => self.lists[k].len(),
            None => 0,
        }
    }

    /// Runs a command on one owner's list, as one step: no other owner's
    /// list changes.
    pub fn execute_at(&mut self, owner: i64, command: NotifCommandKind, time: i64) -> (r: String)
        requires
            old(self).wf(),
        ensures
            final(self).wf(),
            final(self).list_of(owner) == command_effect(old(self).list_of(owner), command, time),
            r@ == command_reply(old(self).list_of(owner), command),
            forall|o: i64| o != owner ==> #[trigger] final(self).list_of(o) == old(self).list_of(o),
    {
        let k = match self.find(owner) {
            Some(k) => k,
            None => {
                proof {
                    lemma_owner_index(self.owners@, owner);
                    assert forall|o: i64| o != owner implies owner_index(
                        self.owners@.push(owner),
                        o,
                    ) == owner_index(self.owners@, o) by {
                        lemma_owner_index_push(self.owners@, o, owner);
                    }
                    lemma_owner_index_push(self.owners@, owner, owner);
                }
                let ghost before = *self;
                self.owners.push(owner);
                self.lists.push(NotificationList::new());
                assert forall|o: i64| o != owner implies #[trigger] self.list_of(o)
                    == before.list_of(o) by {
                    lemma_owner_index(before.owners@, o);
                }
                self.owners.len() - 1
            },
        };
        let ghost mid = *self;
        proof {
            lemma_owner_index(self.owners@, owner);
        }
        let r = execute(&mut self.lists[k], command, time);
        proof {
            assert forall|o: i64| o != owner implies #[trigger] self.list_of(o) == mid.list_of(o) by {
                lemma_owner_index(self.owners@, o);
            }
        }
        r
    }

    /// Runs a command on one owner's list, stamping a new entry with the
    /// current time.
    pub fn execute(&mut self, owner: i64, command: NotifCommandKind) -> (r: String)
        requires
            old(self).wf(),
        ensures
            final(self).wf(),
            exists|t: i64|
                final(self).list_of(owner) == command_effect(old(self).list_of(owner), command, t),
            r@ == command_reply(old(self).list_of(owner), command),
            forall|o: i64| o != owner ==> #[trigger] final(self).list_of(o) == old(self).list_of(o),
    {
        let t = now_timestamp();
        self.execute_at(owner, command, t)
    }
}

/// Relies on chrono::Utc::now and DateTime::timestamp: the current time in
/// seconds since the Unix epoch. Nothing is known of its value.
#[verifier::external_body]
fn now_timestamp() -> i64 {
    chrono::Utc::now().timestamp()
}

} // verus!
