//! The table of running downloads: one cancellation handle per identifier.

use vstd::prelude::*;
use vstd::hash_map::StringHashMap;
use tokio_util::sync::CancellationToken;
use crate::error::DownloadError;
use crate::progress::Progress;

verus! {

/// `tokio_util::sync::CancellationToken`: a handle on a shared stop signal.
/// Nothing of its inside is known here; it is only stored, copied and
/// signalled.
#[verifier::external_type_specification]
#[verifier::external_body]
pub struct ExCancellationToken(CancellationToken);

/// `CancellationToken::new` returns a handle on a signal of its own. Nothing
/// is claimed of it.
pub assume_specification[ CancellationToken::new ]() -> (token: CancellationToken);

/// `Clone::clone` of a `CancellationToken` returns a second handle on the
/// same signal, which the crate's own `==` takes for the same token: the two
/// share one inner node. The claim is that the copy is that token.
pub assume_specification[ <CancellationToken as Clone>::clone ](
    token: &CancellationToken,
) -> (copy: CancellationToken)
    ensures
        copy == *token,
;

/// `CancellationToken::cancel` fires the signal for every handle on it. The
/// effect is behind shared state, so nothing is claimed.
pub assume_specification[ CancellationToken::cancel ](token: &CancellationToken);

/// `CancellationToken::is_cancelled` tells whether the signal has fired. Other
/// threads may fire it at any time, so nothing is claimed of the answer.
pub assume_specification[ CancellationToken::is_cancelled ](token: &CancellationToken) -> (fired:
    bool);

/// Whether a round ended the attempt in success.
pub open spec fn ends_complete(round: Result<Progress, DownloadError>) -> bool {
    round matches Ok(p) && p.completed
}

/// The running downloads, each under its identifier with the handle that
/// stops it. An identifier has at most one handle.
pub struct SessionRegistry {
    sessions: StringHashMap<CancellationToken>,
}

impl View for SessionRegistry {
    type V = Map<Seq<char>, CancellationToken>;

    closed spec fn view(&self) -> Map<Seq<char>, CancellationToken> {
        self.sessions@
    }
}

impl SessionRegistry {
    /// A table without any download.
    pub fn new() -> (r: SessionRegistry)
        ensures
            r@ == Map::<Seq<char>, CancellationToken>::empty(),
    {
        SessionRegistry { sessions: StringHashMap::new() }
    }

    /// Whether a download runs under `id`.
    pub fn is_registered(&self, id: &str) -> (r: bool)
        ensures
            r == self@.contains_key(id@),
    {
        self.sessions.contains_key(id)
    }

    /// Installs a fresh handle for `id` and returns it. A handle that was
    /// there under `id` is replaced without a word; the other downloads keep
    /// theirs.
    pub fn register(&mut self, id: String) -> (token: CancellationToken)
        ensures
            final(self)@ == old(self)@.insert(id@, token),
    {
        let token = CancellationToken::new();
        self.sessions.insert(id, token.clone());
        token
    }

    /// Takes the handle of `id` out of the table and returns it; an `id`
    /// without a download gives `None` and leaves the table as it was.
    pub fn take(&mut self, id: &str) -> (r: Option<CancellationToken>)
        ensures
            final(self)@ == old(self)@.remove(id@),
            match r {
                Some(token) => old(self)@.contains_key(id@) && token == old(self)@[id@],
                None => !old(self)@.contains_key(id@) && final(self)@ == old(self)@,
            },
    {
        let found: Option<CancellationToken> = match self.sessions.get(id) {
            Some(token) => Some(token.clone()),
            None => None,
        };
        self.sessions.remove(id);
        proof {
            if found.is_none() {
                assert(self.sessions@ =~= old(self).sessions@);
            }
        }
        found
    }

    /// Stops the download under `id`: its handle leaves the table and is
    /// signalled. Tells whether there was one. For an `id` without a
    /// download nothing is signalled and the table stays as it was, so a
    /// second call for the same `id` does nothing.
    pub fn cancel(&mut self, id: &str) -> (signalled: bool)
        ensures
            final(self)@ == old(self)@.remove(id@),
            signalled == old(self)@.contains_key(id@),
            !signalled ==> final(self)@ == old(self)@,
            !final(self)@.contains_key(id@),
    {
        match self.take(id) {
            Some(token) => {
                token.cancel();
                true
            },
            None => false,
        }
    }
}

/// Lets go of the handle of `id` when a round has completed its download: a
/// handle is held until its download is cancelled or complete. The handle is
/// not signalled. After any other round the table stays as it was. Tells
/// whether the round was a completing one.
pub fn release_completed(
    registry: &mut SessionRegistry,
    id: &str,
    round: &Result<Progress, DownloadError>,
) -> (released: bool)
    ensures
        released == ends_complete(*round),
        released ==> final(registry)@ == old(registry)@.remove(id@),
        released ==> !final(registry)@.contains_key(id@),
        !released ==> final(registry)@ == old(registry)@,
{
    let complete: bool = match round {
        Ok(p) => p.completed,
        Err(_) => false,
    };
    if complete {
        registry.take(id);
    }
    complete
}

/// Pauses the download under `id`, if there is one.
pub fn cancel_download(registry: &mut SessionRegistry, id: &str)
    ensures
        final(registry)@ == old(registry)@.remove(id@),
        !old(registry)@.contains_key(id@) ==> final(registry)@ == old(registry)@,
{
    registry.cancel(id);
}

/// Idempotent cancel. Taking an identifier out of the table twice is the same
/// as taking it out once, and taking out one that is not there changes
/// nothing.
pub proof fn lemma_cancel_idempotent(table: Map<Seq<char>, CancellationToken>, id: Seq<char>)
    ensures
        table.remove(id).remove(id) == table.remove(id),
        !table.contains_key(id) ==> table.remove(id) == table,
        !table.remove(id).contains_key(id),
{
    assert(table.remove(id).remove(id) =~= table.remove(id));
    if !table.contains_key(id) {
        assert(table.remove(id) =~= table);
    }
}

} // verus!
