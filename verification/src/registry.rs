//! The registry of connected users.
//!
//! Each user is registered under a username, with the sending half of the
//! queue that feeds that user's connection. A username is held by at most one
//! session at a time. Broadcasting hands one payload to the queue of every
//! user but the sender.

use crate::protocol;
use crate::protocol::from_line;
use crate::text::same_text;
use tokio::sync::mpsc::UnboundedSender;
use vstd::prelude::*;
use vstd::string::StringExecFns;

verus! {

/// `tokio::sync::mpsc::UnboundedSender`, the sending half of an unbounded
/// queue. Nothing of what it holds is visible here: a value of it is only
/// stored, handed on and sent through.
#[verifier::external_type_specification]
#[verifier::external_body]
#[verifier::reject_recursive_types(T)]
pub struct ExUnboundedSender<T>(UnboundedSender<T>);

/// The sending half of a user's outbound queue.
pub type Tx = UnboundedSender<String>;

/// Hands `line` to `tokio::sync::mpsc::UnboundedSender::send` and tells
/// whether the queue took it. The call never waits. It fails when the
/// receiving half has been closed or dropped, which depends on the other end
/// and not on the arguments, so nothing is claimed of the answer.
#[verifier::external_body]
fn offer(sink: &UnboundedSender<String>, line: String) -> (accepted: bool) {
    sink.send(line).is_ok()
}

/// The registry as a map from each registered username to the queue of the
/// session that holds it.
pub type Directory = Map<Seq<char>, UnboundedSender<String>>;

/// What asking for `username` gets: a refusal that names it if it is taken,
/// and admission otherwise.
pub open spec fn join_outcome(peers: Directory, username: String) -> Result<(), JoinError> {
    if peers.contains_key(username@) {
        Err(JoinError::UsernameTaken(username))
    } else {
        Ok(())
    }
}

/// The registry after `username` was asked for with the queue `tx`: as it
/// was if the username is taken, and with the new entry otherwise.
pub open spec fn after_join(
    peers: Directory,
    username: Seq<char>,
    tx: UnboundedSender<String>,
) -> Directory {
    if peers.contains_key(username) {
        peers
    } else {
        peers.insert(username, tx)
    }
}

/// The registry after `username` left: without its entry, if it had one.
pub open spec fn after_leave(peers: Directory, username: Seq<char>) -> Directory {
    peers.remove(username)
}

/// Who gets a broadcast from `from`: everyone registered but `from`.
pub open spec fn audience(peers: Directory, from: Seq<char>) -> Set<Seq<char>> {
    peers.dom().remove(from)
}

/// Why a user could not be registered.
#[derive(Debug, PartialEq, Eq)]
pub enum JoinError {
    /// Another session holds the username.
    UsernameTaken(String),
}

impl JoinError {
    /// The error in words.
    pub open spec fn text(&self) -> Seq<char> {
        match self {
            JoinError::UsernameTaken(username) => "username `"@ + username@
                + "` is already taken"@,
        }
    }

    /// Describes the error for a reader.
    pub fn message(&self) -> (message: String)
        ensures
            message@ == self.text(),
    {
        match self {
            JoinError::UsernameTaken(username) => {
                let mut message = String::from_str("username `");
                message.append(username.as_str());
                message.append("` is already taken");
                message
            },
        }
    }
}

/// What became of a payload at one recipient.
#[derive(Debug, PartialEq, Eq)]
pub struct Delivery {
    /// The username it was meant for.
    pub to: String,
    /// Whether that user's queue took it. A queue whose receiving end is
    /// gone takes nothing, and the payload is lost for that user.
    pub accepted: bool,
}

/// What one broadcast sent, and to whom.
#[derive(Debug, PartialEq, Eq)]
pub struct Fanout {
    /// The line that was handed to each recipient's queue.
    pub payload: String,
    /// One entry for each recipient.
    pub deliveries: Vec<Delivery>,
}

impl Fanout {
    /// The usernames of the recipients, in the order of the deliveries.
    pub open spec fn recipients(&self) -> Seq<Seq<char>> {
        Seq::new(self.deliveries.len() as nat, |i: int| self.deliveries[i].to@)
    }
}

/// One registered user.
#[derive(Debug)]
struct Peer {
    name: String,
    sink: UnboundedSender<String>,
}

/// Whether some entry of `peers` goes by `username`.
spec fn holds(peers: Seq<Peer>, username: Seq<char>) -> bool {
    exists|i: int| 0 <= i < peers.len() && (#[trigger] peers[i]).name@ == username
}

/// The place in `peers` of the entry that goes by `username`.
spec fn slot(peers: Seq<Peer>, username: Seq<char>) -> int {
    choose|i: int| 0 <= i < peers.len() && (#[trigger] peers[i]).name@ == username
}

/// Whether no two entries of `peers` go by the same username.
spec fn distinct(peers: Seq<Peer>) -> bool {
    forall|i: int, j: int|
        0 <= i < j < peers.len() ==> (#[trigger] peers[i]).name@ != (#[trigger] peers[j]).name@
}

/// The entries of `peers` as a map from username to queue.
spec fn directory(peers: Seq<Peer>) -> Directory {
    Map::new(
        |username: Seq<char>| holds(peers, username),
        |username: Seq<char>| peers[slot(peers, username)].sink,
    )
}

/// Among distinct entries, the one at `i` is the one its username leads to.
proof fn lemma_slot(peers: Seq<Peer>, i: int)
    requires
        distinct(peers),
        0 <= i < peers.len(),
    ensures
        holds(peers, peers[i].name@),
        slot(peers, peers[i].name@) == i,
        directory(peers)[peers[i].name@] == peers[i].sink,
{
    let found = slot(peers, peers[i].name@);
    assert(0 <= found < peers.len() && peers[found].name@ == peers[i].name@);
    if found < i {
        assert(peers[found].name@ != peers[i].name@);
    } else if i < found {
        assert(peers[i].name@ != peers[found].name@);
    }
}

/// Appending an entry under a fresh username adds it to the map.
proof fn lemma_directory_push(peers: Seq<Peer>, peer: Peer)
    requires
        distinct(peers),
        !holds(peers, peer.name@),
    ensures
        distinct(peers.push(peer)),
        directory(peers.push(peer)) == directory(peers).insert(peer.name@, peer.sink),
{
    let grown = peers.push(peer);
    assert forall|i: int, j: int| 0 <= i < j < grown.len() implies (#[trigger] grown[i]).name@ != (
    #[trigger] grown[j]).name@ by {
        assert(grown[i] == peers[i]);
        if j < peers.len() {
            assert(grown[j] == peers[j]);
        }
    }
    assert forall|username: Seq<char>| holds(grown, username) <==> (holds(peers, username)
        || username == peer.name@) by {
        if holds(peers, username) {
            let i = slot(peers, username);
            assert(grown[i] == peers[i]);
        }
        if username == peer.name@ {
            assert(grown[peers.len() as int] == peer);
        }
        if holds(grown, username) {
            let i = slot(grown, username);
            if i < peers.len() {
                assert(grown[i] == peers[i]);
            }
        }
    }
    assert forall|username: Seq<char>| holds(grown, username) implies directory(grown)[username]
        == directory(peers).insert(peer.name@, peer.sink)[username] by {
        let i = slot(grown, username);
        lemma_slot(grown, i);
        if i < peers.len() {
            assert(grown[i] == peers[i]);
            lemma_slot(peers, i);
        }
    }
    assert(directory(grown) =~= directory(peers).insert(peer.name@, peer.sink));
}

/// Taking out the entry at `at` takes its username out of the map.
proof fn lemma_directory_remove(peers: Seq<Peer>, at: int)
    requires
        distinct(peers),
        0 <= at < peers.len(),
    ensures
        distinct(peers.remove(at)),
        directory(peers.remove(at)) == directory(peers).remove(peers[at].name@),
{
    let rest = peers.remove(at);
    let gone = peers[at].name@;
    assert forall|i: int| 0 <= i < rest.len() implies #[trigger] rest[i] == peers[if i < at {
        i
    } else {
        i + 1
    }] by {}
    assert forall|i: int, j: int| 0 <= i < j < rest.len() implies (#[trigger] rest[i]).name@ != (
    #[trigger] rest[j]).name@ by {
        let a = if i < at { i } else { i + 1 };
        let b = if j < at { j } else { j + 1 };
        assert(rest[i] == peers[a] && rest[j] == peers[b]);
    }
    assert forall|username: Seq<char>| holds(rest, username) <==> (holds(peers, username)
        && username != gone) by {
        if holds(rest, username) {
            let i = slot(rest, username);
            let a = if i < at { i } else { i + 1 };
            assert(rest[i] == peers[a]);
            lemma_slot(peers, a);
            lemma_slot(peers, at);
        }
        if holds(peers, username) && username != gone {
            let a = slot(peers, username);
            let i = if a < at { a } else { a - 1 };
            assert(rest[i] == peers[a]);
        }
    }
    assert forall|username: Seq<char>| holds(rest, username) implies directory(rest)[username]
        == directory(peers)[username] by {
        let i = slot(rest, username);
        let a = if i < at { i } else { i + 1 };
        assert(rest[i] == peers[a]);
        lemma_slot(rest, i);
        lemma_slot(peers, a);
    }
    assert(directory(rest) =~= directory(peers).remove(gone));
}

/// Distinct entries make a map with as many usernames as there are entries.
proof fn lemma_directory_len(peers: Seq<Peer>)
    requires
        distinct(peers),
    ensures
        directory(peers).dom().finite(),
        directory(peers).dom().len() == peers.len(),
    decreases peers.len(),
{
    if peers.len() == 0 {
        assert(directory(peers).dom() =~= Set::<Seq<char>>::empty());
    } else {
        let front = peers.drop_last();
        let last = peers.last();
        assert forall|i: int, j: int| 0 <= i < j < front.len() implies (#[trigger] front[i]).name@
            != (#[trigger] front[j]).name@ by {
            assert(front[i] == peers[i] && front[j] == peers[j]);
        }
        if holds(front, last.name@) {
            let i = slot(front, last.name@);
            assert(front[i] == peers[i]);
            assert(peers[i].name@ != peers[peers.len() - 1].name@);
        }
        lemma_directory_len(front);
        lemma_directory_push(front, last);
        assert(front.push(last) =~= peers);
        assert(directory(peers).dom() =~= directory(front).dom().insert(last.name@));
    }
}

/// The users that are connected, by username.
#[derive(Debug)]
pub struct ChatState {
    peers: Vec<Peer>,
}

impl View for ChatState {
    type V = Directory;

    closed spec fn view(&self) -> Directory {
        directory(self.peers@)
    }
}

impl ChatState {
    /// No username is registered twice.
    #[verifier::type_invariant]
    spec fn unique_usernames(self) -> bool {
        distinct(self.peers@)
    }

    /// A registry with nobody in it.
    pub fn new() -> (state: Self)
        ensures
            state@ == Directory::empty(),
    {
        let state = ChatState { peers: Vec::new() };
        assert(state@ =~= Directory::empty());
        state
    }

    /// Finds the entry that goes by `username`.
    fn position(&self, username: &str) -> (found: Option<usize>)
        ensures
            match found {
                Some(at) => at < self.peers.len() && self.peers[at as int].name@ == username@,
                None => !holds(self.peers@, username@),
            },
    {
        let mut at: usize = 0;
        while at < self.peers.len()
            invariant
                at <= self.peers.len(),
                forall|k: int| 0 <= k < at ==> (#[trigger] self.peers[k]).name@ != username@,
            decreases self.peers.len() - at,
        {
            if same_text(self.peers[at].name.as_str(), username) {
                return Some(at);
            }
            at = at + 1;
        }
        None
    }

    /// The number of registered users.
    pub fn len(&self) -> (count: usize)
        ensures
            self@.dom().finite(),
            count == self@.len(),
    {
        proof {
            use_type_invariant(self);
            lemma_directory_len(self.peers@);
        }
        self.peers.len()
    }

    /// Whether `username` is registered.
    pub fn contains(&self, username: &str) -> (registered: bool)
        ensures
            registered == self@.contains_key(username@),
    {
        self.position(username).is_some()
    }

    /// Registers `username` with the queue `tx`, unless the username is
    /// taken. A refusal leaves the registry as it was and gives the username
    /// back in the error.
    pub fn join(&mut self, username: String, tx: UnboundedSender<String>) -> (outcome: Result<
        (),
        JoinError,
    >)
        ensures
            outcome == join_outcome(old(self)@, username),
            final(self)@ == after_join(old(self)@, username@, tx),
    {
        proof {
            use_type_invariant(&*self);
        }
        match self.position(username.as_str()) {
            Some(_) => Err(JoinError::UsernameTaken(username)),
            None => {
                let peer = Peer { name: username, sink: tx };
                proof {
                    lemma_directory_push(self.peers@, peer);
                }
                let mut peers: Vec<Peer> = Vec::new();
                core::mem::swap(&mut self.peers, &mut peers);
                peers.push(peer);
                self.peers = peers;
                Ok(())
            },
        }
    }

    /// Removes `username` from the registry. Nothing happens if it is not
    /// registered.
    pub fn leave(&mut self, username: &str)
        ensures
            final(self)@ == after_leave(old(self)@, username@),
    {
        proof {
            use_type_invariant(&*self);
        }
        match self.position(username) {
            Some(at) => {
                proof {
                    lemma_directory_remove(self.peers@, at as int);
                }
                let mut peers: Vec<Peer> = Vec::new();
                core::mem::swap(&mut self.peers, &mut peers);
                peers.remove(at);
                self.peers = peers;
            },
            None => {
                assert(self@ =~= self@.remove(username@));
            },
        }
    }

    /// Sends `FROM <from> <msg>` to the queue of every registered user but
    /// `from`, once each. A queue that does not take the payload is reported
    /// in the result and otherwise passed over: the registry stays as it is.
    pub fn broadcast(&self, from: &str, msg: &str) -> (fanout: Fanout)
        ensures
            fanout.payload@ == from_line(from@, msg@),
            fanout.recipients().no_duplicates(),
            fanout.recipients().to_set() == audience(self@, from@),
    {
        proof {
            use_type_invariant(self);
        }
        let payload = protocol::from(from, msg);
        let mut deliveries: Vec<Delivery> = Vec::new();
        let ghost mut origin: Seq<int> = Seq::empty();
        let mut at: usize = 0;
        while at < self.peers.len()
            invariant
                at <= self.peers.len(),
                distinct(self.peers@),
                payload@ == from_line(from@, msg@),
                origin.len() == deliveries.len(),
                forall|k: int|
                    0 <= k < origin.len() ==> 0 <= #[trigger] origin[k] < at
                        && deliveries[k].to@ == self.peers[origin[k]].name@
                        && deliveries[k].to@ != from@,
                forall|k: int, l: int|
                    0 <= k < l < origin.len() ==> #[trigger] origin[k] < #[trigger] origin[l],
                forall|j: int|
                    0 <= j < at && (#[trigger] self.peers[j]).name@ != from@ ==> exists|k: int|
                        0 <= k < origin.len() && #[trigger] origin[k] == j,
            decreases self.peers.len() - at,
        {
            let peer = &self.peers[at];
            if !same_text(peer.name.as_str(), from) {
                let accepted = offer(&peer.sink, payload.clone());
                deliveries.push(Delivery { to: peer.name.clone(), accepted });
                proof {
                    let ghost before = origin;
                    origin = origin.push(at as int);
                    assert forall|j: int|
                        0 <= j < at + 1 && (#[trigger] self.peers[j]).name@ != from@ implies exists|
                        k: int,
                    |
                        0 <= k < origin.len() && #[trigger] origin[k] == j by {
                        if j < at {
                            let k = choose|k: int| 0 <= k < before.len() && #[trigger] before[k] == j;
                            assert(origin[k] == j);
                        } else {
                            assert(origin[before.len() as int] == j);
                        }
                    }
                }
            }
            at = at + 1;
        }
        let fanout = Fanout { payload, deliveries };
        proof {
            let names = fanout.recipients();
            assert forall|k: int, l: int| 0 <= k < l < names.len() implies names[k] != names[l] by {
                assert(origin[k] < origin[l]);
            }
            assert forall|username: Seq<char>|
                names.to_set().contains(username) <==> self@.dom().remove(from@).contains(
                    username,
                ) by {
                if names.to_set().contains(username) {
                    let k = choose|k: int| 0 <= k < names.len() && names[k] == username;
                    assert(self.peers[origin[k]].name@ == username);
                }
                if self@.dom().remove(from@).contains(username) {
                    let j = slot(self.peers@, username);
                    let k = choose|k: int| 0 <= k < origin.len() && #[trigger] origin[k] == j;
                    assert(names[k] == username);
                }
            }
            assert(names.to_set() =~= self@.dom().remove(from@));
        }
        fanout
    }
}

/// A username is held by at most one session: while it is registered,
/// whoever else asks for it is refused, with the username in the error, and
/// the registry, the holder's queue included, stays as it was.
pub proof fn lemma_taken_username_is_refused(
    peers: Directory,
    username: String,
    tx: UnboundedSender<String>,
)
    requires
        peers.contains_key(username@),
    ensures
        join_outcome(peers, username) == Err::<(), JoinError>(JoinError::UsernameTaken(username)),
        after_join(peers, username@, tx) == peers,
{
}

/// Of two sessions that ask for the same username one after the other, the
/// second is refused and the first keeps the username with its own queue.
pub proof fn lemma_second_join_fails(
    peers: Directory,
    first: String,
    first_tx: UnboundedSender<String>,
    second: String,
    second_tx: UnboundedSender<String>,
)
    requires
        !peers.contains_key(first@),
        second@ == first@,
    ensures
        join_outcome(peers, first) == Ok::<(), JoinError>(()),
        join_outcome(after_join(peers, first@, first_tx), second) == Err::<(), JoinError>(
            JoinError::UsernameTaken(second),
        ),
        after_join(after_join(peers, first@, first_tx), second@, second_tx) == after_join(
            peers,
            first@,
            first_tx,
        ),
        after_join(peers, first@, first_tx)[first@] == first_tx,
{
}

/// A username is free again once its holder has left: the next session that
/// asks for it gets it, whatever the registry held before.
pub proof fn lemma_leave_then_join_succeeds(
    peers: Directory,
    username: String,
    tx: UnboundedSender<String>,
)
    ensures
        join_outcome(after_leave(peers, username@), username) == Ok::<(), JoinError>(()),
        after_join(after_leave(peers, username@), username@, tx).contains_key(username@),
        after_join(after_leave(peers, username@), username@, tx)[username@] == tx,
{
}

/// Leaving twice is leaving once, and leaving without being registered
/// changes nothing.
pub proof fn lemma_leave_is_idempotent(peers: Directory, username: Seq<char>)
    ensures
        after_leave(after_leave(peers, username), username) == after_leave(peers, username),
        !peers.contains_key(username) ==> after_leave(peers, username) == peers,
{
    assert(after_leave(after_leave(peers, username), username) =~= after_leave(peers, username));
    if !peers.contains_key(username) {
        assert(after_leave(peers, username) =~= peers);
    }
}

/// Joining and leaving touch one entry: every other username stays
/// registered, or unregistered, with the queue it had.
pub proof fn lemma_other_usernames_are_untouched(
    peers: Directory,
    username: Seq<char>,
    tx: UnboundedSender<String>,
    other: Seq<char>,
)
    requires
        other != username,
    ensures
        after_join(peers, username, tx).contains_key(other) == peers.contains_key(other),
        after_leave(peers, username).contains_key(other) == peers.contains_key(other),
        peers.contains_key(other) ==> after_join(peers, username, tx)[other] == peers[other]
            && after_leave(peers, username)[other] == peers[other],
{
}

/// The sender is never in the audience of its own broadcast, and every other
/// registered user is.
pub proof fn lemma_audience_is_everyone_else(peers: Directory, from: Seq<char>, other: Seq<char>)
    ensures
        !audience(peers, from).contains(from),
        other != from ==> audience(peers, from).contains(other) == peers.contains_key(other),
{
}

} // verus!
