//! The session manager: the set of live sessions and the signed tokens that name them.
//!
//! A session is known by a random identifier. The token handed to the client is the
//! hexadecimal text of the identifier's tag followed by the identifier itself, so a
//! token that was altered on the way no longer carries the tag of its identifier.

use crate::entropy::random_bytes;
use crate::hex;
use crate::mac::{hmac_sha256, tag_of, TAG_LEN};
use vstd::prelude::*;

verus! {

/// The length in bytes of a session identifier: 128 bits of entropy.
pub const ID_LEN: usize = 16;

/// The length in bytes of a freshly generated signing key.
pub const KEY_LEN: usize = 64;

/// Why no session was created.
#[derive(Clone, Copy, Debug, PartialEq, Eq, Structural)]
pub enum SessionError {
    /// The identifier offered is shorter than `ID_LEN` bytes.
    ShortId,
    /// The identifier, or its tag, is that of a live session.
    Collision,
    /// The operating system gave no random bytes.
    NoEntropy,
}

/// What a live session grants: the identity it stands for, and until when.
pub ghost struct Grant {
    pub user_id: i64,
    /// The first moment at which the session no longer counts.
    pub expires: u64,
}

/// The session manager as a mathematical value.
pub ghost struct Sessions {
    /// The signing key.
    pub key: Seq<u8>,
    /// How long a session lasts, in seconds.
    pub ttl: u64,
    /// The live sessions, by identifier.
    pub live: Map<Seq<u8>, Grant>,
}

/// The token of a session identifier under a key.
pub open spec fn token_of(key: Seq<u8>, id: Seq<u8>) -> Seq<u8> {
    hex::encode_spec(hmac_sha256(key, id) + id)
}

/// The tag that a token carries.
pub open spec fn tag_part(token: Seq<u8>) -> Seq<u8> {
    hex::decode_spec(token).subrange(0, TAG_LEN as int)
}

/// The session identifier that a token carries.
pub open spec fn id_part(token: Seq<u8>) -> Seq<u8> {
    hex::decode_spec(token).subrange(TAG_LEN as int, hex::decode_spec(token).len() as int)
}

/// Whether a token is intact: well-formed text that carries the tag of its identifier.
pub open spec fn is_signed(key: Seq<u8>, token: Seq<u8>) -> bool {
    &&& hex::is_hex(token)
    &&& token.len() >= 2 * TAG_LEN
    &&& tag_part(token) == hmac_sha256(key, id_part(token))
}

/// The moment at which a session created at `now` expires: `now + ttl`, held at the
/// largest moment there is.
pub open spec fn expiry(now: u64, ttl: u64) -> u64 {
    if now + ttl > u64::MAX {
        u64::MAX
    } else {
        (now + ttl) as u64
    }
}

impl Sessions {
    /// Every live identifier has a tag of full length, and no two share a tag.
    pub open spec fn wf(self) -> bool {
        &&& forall|id: Seq<u8>| #[trigger]
            self.live.dom().contains(id) ==> hmac_sha256(self.key, id).len() == TAG_LEN
        &&& forall|a: Seq<u8>, b: Seq<u8>|
            #![trigger self.live.dom().contains(a), self.live.dom().contains(b)]
            self.live.dom().contains(a) && self.live.dom().contains(b) && a != b
                ==> hmac_sha256(self.key, a) != hmac_sha256(self.key, b)
    }

    /// Whether `id` names a session that counts at `now`.
    pub open spec fn is_live(self, id: Seq<u8>, now: u64) -> bool {
        self.live.dom().contains(id) && now < self.live[id].expires
    }

    /// The identity behind a token at `now`; `None` is the anonymous client.
    pub open spec fn resolve(self, token: Seq<u8>, now: u64) -> Option<i64> {
        if is_signed(self.key, token) && self.is_live(id_part(token), now) {
            Some(self.live[id_part(token)].user_id)
        } else {
            None
        }
    }

    /// Whether a new session may take `id`: its tag has the full length, as every
    /// tag that was computed has, and neither the identifier nor its tag is in use.
    pub open spec fn is_free(self, id: Seq<u8>) -> bool {
        &&& hmac_sha256(self.key, id).len() == TAG_LEN
        &&& forall|other: Seq<u8>| #[trigger]
            self.live.dom().contains(other) ==> other != id && hmac_sha256(self.key, other)
                != hmac_sha256(self.key, id)
    }

    /// The manager after a session for `user_id` was created under `id` at `now`.
    pub open spec fn issue(self, id: Seq<u8>, user_id: i64, now: u64) -> Sessions {
        Sessions {
            live: self.live.insert(id, Grant { user_id, expires: expiry(now, self.ttl) }),
            ..self
        }
    }

    /// The manager after the session that an intact token names was destroyed. Any
    /// other token destroys nothing.
    pub open spec fn destroy(self, token: Seq<u8>) -> Sessions {
        if is_signed(self.key, token) {
            Sessions { live: self.live.remove(id_part(token)), ..self }
        } else {
            self
        }
    }

    /// The manager after the sessions that no longer count at `now` were dropped.
    pub open spec fn purge(self, now: u64) -> Sessions {
        Sessions {
            live: self.live.restrict(Set::new(|id: Seq<u8>| self.is_live(id, now))),
            ..self
        }
    }
}

/// A token made by `token_of` is intact, and carries the identifier it was made from.
pub proof fn lemma_token_parts(key: Seq<u8>, id: Seq<u8>)
    requires
        hmac_sha256(key, id).len() == TAG_LEN,
    ensures
        is_signed(key, token_of(key, id)),
        id_part(token_of(key, id)) == id,
        tag_part(token_of(key, id)) == hmac_sha256(key, id),
{
    let raw = hmac_sha256(key, id) + id;
    hex::lemma_decode_encode(raw);
    assert(raw.subrange(0, TAG_LEN as int) =~= hmac_sha256(key, id));
    assert(raw.subrange(TAG_LEN as int, raw.len() as int) =~= id);
}

/// One live session as it is stored.
struct Session {
    id: Vec<u8>,
    /// The tag of `id` under the manager's key.
    tag: Vec<u8>,
    user_id: i64,
    expires: u64,
}

/// The sessions of one site, and the key that signs their tokens.
pub struct SessionManager {
    key: Vec<u8>,
    ttl: u64,
    rows: Vec<Session>,
}

/// Whether row `i` is the session `id`.
spec fn holds(rows: Seq<Session>, id: Seq<u8>, i: int) -> bool {
    0 <= i < rows.len() && rows[i].id@ == id
}

/// What row `i` grants.
spec fn grant_at(rows: Seq<Session>, i: int) -> Grant {
    Grant { user_id: rows[i].user_id, expires: rows[i].expires }
}

/// The stored rows as a map from identifier to grant.
spec fn live_of(rows: Seq<Session>) -> Map<Seq<u8>, Grant> {
    Map::new(
        |id: Seq<u8>| exists|i: int| holds(rows, id, i),
        |id: Seq<u8>| grant_at(rows, choose|i: int| holds(rows, id, i)),
    )
}

/// Every row carries the tag of its identifier, and no two rows share an
/// identifier or a tag.
spec fn rows_ok(key: Seq<u8>, rows: Seq<Session>) -> bool {
    &&& forall|i: int|
        0 <= i < rows.len() ==> (#[trigger] rows[i]).tag@ == hmac_sha256(key, rows[i].id@)
            && rows[i].tag@.len() == TAG_LEN
    &&& forall|i: int, j: int|
        0 <= i < j < rows.len() ==> (#[trigger] rows[i]).id@ != (#[trigger] rows[j]).id@
            && rows[i].tag@ != rows[j].tag@
}

/// With distinct identifiers, the map gives at `id` what the row that holds `id` grants.
proof fn lemma_live_at(key: Seq<u8>, rows: Seq<Session>, id: Seq<u8>, i: int)
    requires
        rows_ok(key, rows),
        holds(rows, id, i),
    ensures
        live_of(rows).dom().contains(id),
        live_of(rows)[id] == grant_at(rows, i),
{
    let j = choose|j: int| holds(rows, id, j);
    if i < j {
        assert(rows[i].id@ != rows[j].id@);
    } else if j < i {
        assert(rows[j].id@ != rows[i].id@);
    }
}

/// Adding a row whose identifier and tag are new adds its grant to the map.
proof fn lemma_live_push(key: Seq<u8>, rows: Seq<Session>, row: Session)
    requires
        rows_ok(key, rows),
        row.tag@ == hmac_sha256(key, row.id@),
        row.tag@.len() == TAG_LEN,
        forall|i: int|
            0 <= i < rows.len() ==> (#[trigger] rows[i]).id@ != row.id@ && rows[i].tag@ != row.tag@,
    ensures
        rows_ok(key, rows.push(row)),
        live_of(rows.push(row)) == live_of(rows).insert(
            row.id@,
            Grant { user_id: row.user_id, expires: row.expires },
        ),
{
    let after = rows.push(row);
    assert(rows_ok(key, after));
    let target = live_of(rows).insert(
        row.id@,
        Grant { user_id: row.user_id, expires: row.expires },
    );
    assert forall|id: Seq<u8>| live_of(after).dom().contains(id) <==> target.dom().contains(
        id,
    ) by {
        if live_of(after).dom().contains(id) {
            let i = choose|i: int| holds(after, id, i);
            if i < rows.len() {
                assert(holds(rows, id, i));
            }
        }
        if live_of(rows).dom().contains(id) {
            let i = choose|i: int| holds(rows, id, i);
            assert(holds(after, id, i));
        }
        if id == row.id@ {
            assert(holds(after, id, rows.len() as int));
        }
    }
    assert forall|id: Seq<u8>| live_of(after).dom().contains(id) implies live_of(after)[id]
        == target[id] by {
        let i = choose|i: int| holds(after, id, i);
        lemma_live_at(key, after, id, i);
        if i < rows.len() {
            assert(holds(rows, id, i));
            lemma_live_at(key, rows, id, i);
        }
    }
    assert(live_of(after) =~= target);
}

/// Taking a row out takes its identifier out of the map.
proof fn lemma_live_remove(key: Seq<u8>, rows: Seq<Session>, at: int)
    requires
        rows_ok(key, rows),
        0 <= at < rows.len(),
    ensures
        rows_ok(key, rows.remove(at)),
        live_of(rows.remove(at)) == live_of(rows).remove(rows[at].id@),
{
    let after = rows.remove(at);
    let gone = rows[at].id@;
    assert forall|i: int| 0 <= i < after.len() implies after[i] == rows[if i < at {
        i
    } else {
        i + 1
    }] by {}
    assert(rows_ok(key, after)) by {
        assert forall|i: int, j: int| 0 <= i < j < after.len() implies (#[trigger] after[i]).id@
            != (#[trigger] after[j]).id@ && after[i].tag@ != after[j].tag@ by {
            let i0 = if i < at { i } else { i + 1 };
            let j0 = if j < at { j } else { j + 1 };
            assert(after[i] == rows[i0] && after[j] == rows[j0]);
        }
    }
    let target = live_of(rows).remove(gone);
    assert forall|id: Seq<u8>| live_of(after).dom().contains(id) <==> target.dom().contains(
        id,
    ) by {
        if live_of(after).dom().contains(id) {
            let i = choose|i: int| holds(after, id, i);
            let i0 = if i < at { i } else { i + 1 };
            assert(after[i] == rows[i0]);
            assert(holds(rows, id, i0));
            if i0 < at {
                assert(rows[i0].id@ != rows[at].id@);
            } else {
                assert(rows[at].id@ != rows[i0].id@);
            }
        }
        if target.dom().contains(id) {
            let i0 = choose|i: int| holds(rows, id, i);
            assert(i0 != at);
            let i = if i0 < at { i0 } else { i0 - 1 };
            assert(after[i] == rows[i0]);
            assert(holds(after, id, i));
        }
    }
    assert forall|id: Seq<u8>| live_of(after).dom().contains(id) implies live_of(after)[id]
        == target[id] by {
        let i = choose|i: int| holds(after, id, i);
        let i0 = if i < at { i } else { i + 1 };
        assert(after[i] == rows[i0]);
        lemma_live_at(key, after, id, i);
        assert(holds(rows, id, i0));
        lemma_live_at(key, rows, id, i0);
    }
    assert(live_of(after) =~= target);
}

/// With distinct identifiers there are as many live sessions as rows.
proof fn lemma_live_count(key: Seq<u8>, rows: Seq<Session>)
    requires
        rows_ok(key, rows),
    ensures
        live_of(rows).dom().finite(),
        live_of(rows).dom().len() == rows.len(),
    decreases rows.len(),
{
    if rows.len() == 0 {
        assert(live_of(rows).dom() =~= Set::<Seq<u8>>::empty());
    } else {
        let last = rows.last();
        let rest = rows.drop_last();
        assert(rows_ok(key, rest));
        lemma_live_count(key, rest);
        assert(rest.push(last) =~= rows);
        lemma_live_push(key, rest, last);
        assert(!live_of(rest).dom().contains(last.id@)) by {
            if live_of(rest).dom().contains(last.id@) {
                let i = choose|i: int| holds(rest, last.id@, i);
                assert(rows[i].id@ != rows[rows.len() - 1].id@);
            }
        }
        assert(live_of(rows).dom() =~= live_of(rest).dom().insert(last.id@));
    }
}

/// Whether two byte strings are the same. Every byte is looked at, whatever the
/// outcome, so the time taken tells nothing of where they differ.
pub fn same_bytes(a: &[u8], b: &[u8]) -> (same: bool)
    ensures
        same == (a@ == b@),
{
    if a.len() != b.len() {
        return false;
    }
    let mut same: bool = true;
    let mut i: usize = 0;
    while i < a.len()
        invariant
            a.len() == b.len(),
            i <= a.len(),
            same == (forall|j: int| 0 <= j < i ==> a@[j] == b@[j]),
        decreases a.len() - i,
    {
        let equal_here: bool = a[i] == b[i];
        same = same && equal_here;
        i += 1;
    }
    proof {
        if same {
            assert(a@ =~= b@);
        }
    }
    same
}

impl View for SessionManager {
    type V = Sessions;

    closed spec fn view(&self) -> Sessions {
        Sessions { key: self.key@, ttl: self.ttl, live: live_of(self.rows@) }
    }
}

impl SessionManager {
    /// The invariant of the stored rows.
    pub closed spec fn wf(&self) -> bool {
        rows_ok(self.key@, self.rows@)
    }

    /// A well-formed manager stands for a well-formed value.
    pub proof fn lemma_view_wf(&self)
        requires
            self.wf(),
        ensures
            self@.wf(),
    {
        let rows = self.rows@;
        let key = self.key@;
        assert forall|id: Seq<u8>| #[trigger] self@.live.dom().contains(id) implies hmac_sha256(
            key,
            id,
        ).len() == TAG_LEN by {
            let i = choose|i: int| holds(rows, id, i);
            assert(rows[i].tag@ == hmac_sha256(key, id));
        }
        assert forall|a: Seq<u8>, b: Seq<u8>|
            self@.live.dom().contains(a) && self@.live.dom().contains(b) && a != b implies hmac_sha256(
            key,
            a,
        ) != hmac_sha256(key, b) by {
            let i = choose|i: int| holds(rows, a, i);
            let j = choose|j: int| holds(rows, b, j);
            assert(rows[i].tag@ == hmac_sha256(key, a));
            assert(rows[j].tag@ == hmac_sha256(key, b));
            if i < j {
                assert(rows[i].tag@ != rows[j].tag@);
            } else if j < i {
                assert(rows[j].tag@ != rows[i].tag@);
            }
        }
    }

    /// A manager with the given signing key and session lifetime, and no session.
    pub fn new(key: Vec<u8>, ttl: u64) -> (manager: Self)
        ensures
            manager.wf(),
            manager@.key == key@,
            manager@.ttl == ttl,
            manager@.live == Map::<Seq<u8>, Grant>::empty(),
    {
        let manager = SessionManager { key, ttl, rows: Vec::new() };
        assert(manager@.live =~= Map::<Seq<u8>, Grant>::empty());
        manager
    }

    /// A manager with a fresh random signing key of `KEY_LEN` bytes; `None` where the
    /// operating system gave no random bytes.
    pub fn generate(ttl: u64) -> (manager: Option<Self>)
        ensures
            match manager {
                Some(m) => m.wf() && m@.key.len() == KEY_LEN && m@.ttl == ttl && m@.live == Map::<
                    Seq<u8>,
                    Grant,
                >::empty(),
                None => true,
            },
    {
        match random_bytes(KEY_LEN) {
            Some(key) => Some(SessionManager::new(key, ttl)),
            None => None,
        }
    }

    /// How many sessions are stored, expired ones included.
    pub fn len(&self) -> (count: usize)
        requires
            self.wf(),
        ensures
            count == self@.live.dom().len(),
            self@.live.dom().finite(),
    {
        proof {
            lemma_live_count(self.key@, self.rows@);
        }
        self.rows.len()
    }

    /// Drops the sessions that no longer count at `now`.
    pub fn purge(&mut self, now: u64)
        requires
            old(self).wf(),
        ensures
            final(self).wf(),
            final(self)@ == old(self)@.purge(now),
    {
        let ghost origin = live_of(self.rows@);
        let mut i: usize = 0;
        while i < self.rows.len()
            invariant
                self.key@ == old(self).key@,
                self.ttl == old(self).ttl,
                rows_ok(self.key@, self.rows@),
                i <= self.rows.len(),
                forall|j: int| 0 <= j < i ==> now < (#[trigger] self.rows@[j]).expires,
                forall|id: Seq<u8>| #[trigger]
                    live_of(self.rows@).dom().contains(id) ==> origin.dom().contains(id)
                        && live_of(self.rows@)[id] == origin[id],
                forall|id: Seq<u8>| #[trigger]
                    origin.dom().contains(id) && now < origin[id].expires ==> live_of(
                        self.rows@,
                    ).dom().contains(id),
            decreases self.rows.len() - i,
        {
            if now < self.rows[i].expires {
                i += 1;
            } else {
                proof {
                    lemma_live_remove(self.key@, self.rows@, i as int);
                    lemma_live_at(self.key@, self.rows@, self.rows@[i as int].id@, i as int);
                }
                let _ = self.rows.remove(i);
            }
        }
        proof {
            let rows = self.rows@;
            let target = origin.restrict(Set::new(|id: Seq<u8>| old(self)@.is_live(id, now)));
            assert forall|id: Seq<u8>| #[trigger]
                live_of(rows).dom().contains(id) implies target.dom().contains(id) by {
                let j = choose|j: int| holds(rows, id, j);
                lemma_live_at(self.key@, rows, id, j);
            }
            assert(live_of(rows) =~= target);
        }
    }

    /// The row that holds `id`, if there is one.
    fn find(&self, id: &[u8]) -> (at: Option<usize>)
        ensures
            match at {
                Some(i) => holds(self.rows@, id@, i as int),
                None => forall|i: int| !holds(self.rows@, id@, i),
            },
    {
        let mut i: usize = 0;
        while i < self.rows.len()
            invariant
                i <= self.rows.len(),
                forall|j: int| 0 <= j < i ==> !holds(self.rows@, id@, j),
            decreases self.rows.len() - i,
        {
            if same_bytes(self.rows[i].id.as_slice(), id) {
                return Some(i);
            }
            i += 1;
        }
        None
    }

    /// The identity behind a token at the moment `now`. `None` is the anonymous
    /// client: the token is malformed, was altered, names no session, or names one
    /// that has expired.
    pub fn resolve(&self, token: &[u8], now: u64) -> (user_id: Option<i64>)
        requires
            self.wf(),
        ensures
            user_id == self@.resolve(token@, now),
    {
        let raw = match self.open_token(token) {
            Some(raw) => raw,
            None => { return None; },
        };
        let id = &raw.as_slice()[TAG_LEN..raw.len()];
        match self.find(id) {
            Some(i) => {
                proof {
                    lemma_live_at(self.key@, self.rows@, id@, i as int);
                }
                if now < self.rows[i].expires {
                    Some(self.rows[i].user_id)
                } else {
                    None
                }
            },
            None => None,
        }
    }

    /// Checks a token and hands out the bytes it stands for, the tag first and the
    /// identifier after it; `None` where the token is not intact.
    fn open_token(&self, token: &[u8]) -> (raw: Option<Vec<u8>>)
        ensures
            raw.is_some() == is_signed(self@.key, token@),
            raw.is_some() ==> raw.unwrap()@ == hex::decode_spec(token@) && raw.unwrap()@.len()
                >= TAG_LEN,
    {
        let raw = match hex::decode(token) {
            Some(raw) => raw,
            None => { return None; },
        };
        if raw.len() < TAG_LEN {
            return None;
        }
        let tag = &raw.as_slice()[0..TAG_LEN];
        let id = &raw.as_slice()[TAG_LEN..raw.len()];
        let expected = tag_of(self.key.as_slice(), id);
        if same_bytes(expected.as_slice(), tag) {
            Some(raw)
        } else {
            None
        }
    }

    /// Whether a live session has this identifier or this tag.
    fn collides(&self, id: &[u8], tag: &[u8]) -> (hit: bool)
        ensures
            hit == exists|i: int|
                0 <= i < self.rows@.len() && ((#[trigger] self.rows@[i]).id@ == id@
                    || self.rows@[i].tag@ == tag@),
    {
        let mut i: usize = 0;
        while i < self.rows.len()
            invariant
                i <= self.rows.len(),
                forall|j: int|
                    0 <= j < i ==> (#[trigger] self.rows@[j]).id@ != id@ && self.rows@[j].tag@
                        != tag@,
            decreases self.rows.len() - i,
        {
            let row = &self.rows[i];
            if same_bytes(row.id.as_slice(), id) || same_bytes(row.tag.as_slice(), tag) {
                return true;
            }
            i += 1;
        }
        false
    }

    /// Creates a session for `user_id` under the identifier `id`, and returns its
    /// token. The session lasts from `now` for the manager's lifetime.
    ///
    /// An identifier shorter than `ID_LEN` bytes is refused, and so is one that a
    /// live session uses, or whose tag a live session's identifier has; nothing
    /// changes then.
    pub fn issue(&mut self, user_id: i64, id: Vec<u8>, now: u64) -> (token: Result<
        Vec<u8>,
        SessionError,
    >)
        requires
            old(self).wf(),
        ensures
            final(self).wf(),
            id@.len() < ID_LEN ==> token == Err::<Vec<u8>, SessionError>(SessionError::ShortId),
            id@.len() >= ID_LEN && !old(self)@.is_free(id@) ==> token == Err::<
                Vec<u8>,
                SessionError,
            >(SessionError::Collision),
            id@.len() >= ID_LEN && old(self)@.is_free(id@) ==> token.is_ok(),
            match token {
                Ok(text) => text@ == token_of(old(self)@.key, id@) && final(self)@ == old(
                    self,
                )@.issue(id@, user_id, now),
                Err(_) => final(self)@ == old(self)@,
            },
    {
        if id.len() < ID_LEN {
            return Err(SessionError::ShortId);
        }
        let tag = tag_of(self.key.as_slice(), id.as_slice());
        if self.collides(id.as_slice(), tag.as_slice()) {
            proof {
                let i = choose|i: int|
                    0 <= i < self.rows@.len() && ((#[trigger] self.rows@[i]).id@ == id@
                        || self.rows@[i].tag@ == tag@);
                assert(holds(self.rows@, self.rows@[i].id@, i));
                assert(self@.live.dom().contains(self.rows@[i].id@));
            }
            return Err(SessionError::Collision);
        }
        proof {
            assert forall|other: Seq<u8>| #[trigger]
                self@.live.dom().contains(other) implies other != id@ && hmac_sha256(
                self@.key,
                other,
            ) != hmac_sha256(self@.key, id@) by {
                let i = choose|i: int| holds(self.rows@, other, i);
                assert(self.rows@[i].id@ != id@ && self.rows@[i].tag@ != tag@);
            }
        }
        let text = hex::encode(join(tag.as_slice(), id.as_slice()).as_slice());
        let expires = if now > u64::MAX - self.ttl {
            u64::MAX
        } else {
            now + self.ttl
        };
        let row = Session { id, tag, user_id, expires };
        proof {
            lemma_live_push(self.key@, self.rows@, row);
        }
        self.rows.push(row);
        Ok(text)
    }

    /// Creates a session for `user_id` under a fresh random identifier of `ID_LEN`
    /// bytes, and returns its token.
    ///
    /// Which identifier is drawn is not known beforehand, so the outcome is stated
    /// for whatever was drawn: either the session of some free identifier of that
    /// length was added and the token is that identifier's, or nothing changed.
    pub fn create(&mut self, user_id: i64, now: u64) -> (token: Result<Vec<u8>, SessionError>)
        requires
            old(self).wf(),
        ensures
            final(self).wf(),
            match token {
                Ok(text) => exists|id: Seq<u8>|
                    #![trigger token_of(old(self)@.key, id)]
                    id.len() == ID_LEN && old(self)@.is_free(id) && text@ == token_of(
                        old(self)@.key,
                        id,
                    ) && final(self)@ == old(self)@.issue(id, user_id, now),
                Err(e) => final(self)@ == old(self)@ && e != SessionError::ShortId,
            },
    {
        match random_bytes(ID_LEN) {
            Some(id) => self.issue(user_id, id, now),
            None => Err(SessionError::NoEntropy),
        }
    }

    /// Destroys the session that an intact token names. A token that is not
    /// intact, or that names no live session, changes nothing.
    pub fn destroy(&mut self, token: &[u8])
        requires
            old(self).wf(),
        ensures
            final(self).wf(),
            final(self)@ == old(self)@.destroy(token@),
    {
        let raw = match self.open_token(token) {
            Some(raw) => raw,
            None => { return ; },
        };
        let id = &raw.as_slice()[TAG_LEN..raw.len()];
        match self.find(id) {
            Some(i) => {
                proof {
                    lemma_live_remove(self.key@, self.rows@, i as int);
                }
                let _ = self.rows.remove(i);
            },
            None => {
                assert(!self@.live.dom().contains(id@));
                assert(self@.live.remove(id@) =~= self@.live);
            },
        }
    }
}

/// The bytes of `head` followed by those of `tail`.
fn join(head: &[u8], tail: &[u8]) -> (all: Vec<u8>)
    ensures
        all@ == head@ + tail@,
{
    let mut all: Vec<u8> = Vec::new();
    let mut i: usize = 0;
    while i < head.len()
        invariant
            i <= head.len(),
            all@ == head@.subrange(0, i as int),
        decreases head.len() - i,
    {
        all.push(head[i]);
        assert(all@ =~= head@.subrange(0, i + 1));
        i += 1;
    }
    assert(all@ =~= head@);
    let mut j: usize = 0;
    while j < tail.len()
        invariant
            j <= tail.len(),
            all@ == head@ + tail@.subrange(0, j as int),
        decreases tail.len() - j,
    {
        all.push(tail[j]);
        assert(all@ =~= head@ + tail@.subrange(0, j + 1));
        j += 1;
    }
    assert(all@ =~= head@ + tail@);
    all
}

} // verus!
