//! The Cursor API key in the platform credential store (Windows Credential
//! Manager), under service `ai.standardagents.apiforcursor` and account
//! `cursor-api-key`. A key found only under the legacy service
//! `ai.standardagents.cursorapi` is moved to the current one when read.
//!
//! What the store answers is not predictable, so each operation takes a
//! [`StoreSession`] that records, in order, every call made on the store:
//! which entry it was for, what was handed to it, and what it came to. The
//! contracts state exactly which calls are made and what is answered for
//! every possible answer of the store.

use vstd::prelude::*;
use keyring_core::{Entry, Error};
use crate::text::{chars_of, string_from_chars, trim, trim_seq};

verus! {

/// The current credential service.
pub const SERVICE: &'static str = "ai.standardagents.apiforcursor";

/// The service that earlier versions stored the key under.
pub const LEGACY_SERVICE: &'static str = "ai.standardagents.cursorapi";

/// The credential's account name.
pub const ACCOUNT: &'static str = "cursor-api-key";

#[verifier::external_type_specification]
#[verifier::external_body]
pub struct ExEntry(Entry);

/// A failure of the credential store, with the store's message.
pub enum StoreError {
    /// No credential is stored for the entry (`keyring_core::Error::NoEntry`).
    NoEntry(String),
    /// Any other failure.
    Other(String),
}

// ---------------------------------------------------------------------------
// Trusted calls into keyring-core
// ---------------------------------------------------------------------------

/// Calls `keyring_core::Entry::new` for a service and account in the default
/// store; a failure becomes its message (`Display`). Whether it succeeds
/// depends on the store that was registered, so nothing is promised. (It
/// panics if the store's lock was poisoned.)
#[verifier::external_body]
fn open_entry(service: &str, account: &str) -> Result<Entry, String> {
    match Entry::new(service, account) {
        Ok(entry) => Ok(entry),
        Err(e) => Err(e.to_string()),
    }
}

/// Calls `Entry::get_password`. `Error::NoEntry` becomes
/// [`StoreError::NoEntry`], any other error [`StoreError::Other`], each with
/// the error's message (`Display`). The answer depends on what the store
/// holds, so nothing is promised.
#[verifier::external_body]
fn read_password(entry: &Entry) -> Result<String, StoreError> {
    match entry.get_password() {
        Ok(password) => Ok(password),
        Err(Error::NoEntry) => Err(StoreError::NoEntry(Error::NoEntry.to_string())),
        Err(e) => Err(StoreError::Other(e.to_string())),
    }
}

/// Calls `Entry::set_password`, its errors converted as for
/// [`read_password`]. The outcome depends on the store, so nothing is
/// promised.
#[verifier::external_body]
fn write_password(entry: &Entry, password: &str) -> Result<(), StoreError> {
    match entry.set_password(password) {
        Ok(()) => Ok(()),
        Err(Error::NoEntry) => Err(StoreError::NoEntry(Error::NoEntry.to_string())),
        Err(e) => Err(StoreError::Other(e.to_string())),
    }
}

/// Calls `Entry::delete_credential`, its errors converted as for
/// [`read_password`]. The outcome depends on the store, so nothing is
/// promised.
#[verifier::external_body]
fn erase_credential(entry: &Entry) -> Result<(), StoreError> {
    match entry.delete_credential() {
        Ok(()) => Ok(()),
        Err(Error::NoEntry) => Err(StoreError::NoEntry(Error::NoEntry.to_string())),
        Err(e) => Err(StoreError::Other(e.to_string())),
    }
}

// ---------------------------------------------------------------------------
// The record of calls
// ---------------------------------------------------------------------------

/// A failure of the store as recorded: no entry, or another failure, with
/// the message.
pub enum StoreFault {
    NoEntry(Seq<char>),
    Other(Seq<char>),
}

/// One call made on the credential store, with what it came to.
pub enum StoreCall {
    /// An entry was opened for `service` and `account`; `error` holds the
    /// message when that failed.
    Open { service: Seq<char>, account: Seq<char>, error: Option<Seq<char>> },
    /// The entry's password was read.
    Read { service: Seq<char>, account: Seq<char>, answer: Result<Seq<char>, StoreFault> },
    /// `password` was written to the entry.
    Write {
        service: Seq<char>,
        account: Seq<char>,
        password: Seq<char>,
        failure: Option<StoreFault>,
    },
    /// The entry's credential was deleted.
    Erase { service: Seq<char>, account: Seq<char>, failure: Option<StoreFault> },
}

/// The recorded form of a store failure.
pub open spec fn fault_view(e: StoreError) -> StoreFault {
    match e {
        StoreError::NoEntry(m) => StoreFault::NoEntry(m@),
        StoreError::Other(m) => StoreFault::Other(m@),
    }
}

/// The recorded form of a read's answer.
pub open spec fn answer_view(r: Result<String, StoreError>) -> Result<Seq<char>, StoreFault> {
    match r {
        Ok(p) => Ok(p@),
        Err(e) => Err(fault_view(e)),
    }
}

/// The recorded form of a change's outcome: its failure, if any.
pub open spec fn failure_view(r: Result<(), StoreError>) -> Option<StoreFault> {
    match r {
        Ok(()) => None,
        Err(e) => Some(fault_view(e)),
    }
}

/// A session with the credential store: the calls made through it so far.
pub struct StoreSession {
    calls: Ghost<Seq<StoreCall>>,
}

impl StoreSession {
    /// The calls made through this session, in order.
    pub closed spec fn calls(&self) -> Seq<StoreCall> {
        self.calls@
    }

    /// A session in which nothing was done yet.
    pub fn new() -> (s: StoreSession)
        ensures
            s.calls() == Seq::<StoreCall>::empty(),
    {
        StoreSession { calls: Ghost(Seq::empty()) }
    }
}

/// An entry of the store, with the service and account it was opened for.
struct OpenEntry {
    entry: Entry,
    service: Ghost<Seq<char>>,
    account: Ghost<Seq<char>>,
}

impl OpenEntry {
    closed spec fn service(&self) -> Seq<char> {
        self.service@
    }

    closed spec fn account(&self) -> Seq<char> {
        self.account@
    }
}

/// Opens the entry for `service` and `account`, recording the call.
fn open(session: &mut StoreSession, service: &str, account: &str) -> (r: Result<OpenEntry, String>)
    ensures
        final(session).calls() == old(session).calls().push(
            StoreCall::Open {
                service: service@,
                account: account@,
                error: match r {
                    Ok(_) => None,
                    Err(m) => Some(m@),
                },
            },
        ),
        r matches Ok(e) ==> e.service() == service@ && e.account() == account@,
{
    let r = open_entry(service, account);
    let ghost failure = match &r {
        Ok(_) => None,
        Err(m) => Some(m@),
    };
    session.calls = Ghost(
        session.calls@.push(StoreCall::Open { service: service@, account: account@, error: failure }),
    );
    match r {
        Ok(entry) => Ok(OpenEntry { entry, service: Ghost(service@), account: Ghost(account@) }),
        Err(m) => Err(m),
    }
}

/// Reads the entry's password, recording the call.
fn read(session: &mut StoreSession, e: &OpenEntry) -> (r: Result<String, StoreError>)
    ensures
        final(session).calls() == old(session).calls().push(
            StoreCall::Read { service: e.service(), account: e.account(), answer: answer_view(r) },
        ),
{
    let r = read_password(&e.entry);
    session.calls = Ghost(
        session.calls@.push(
            StoreCall::Read { service: e.service(), account: e.account(), answer: answer_view(r) },
        ),
    );
    r
}

/// Writes `password` to the entry, recording the call.
fn write(session: &mut StoreSession, e: &OpenEntry, password: &str) -> (r: Result<(), StoreError>)
    ensures
        final(session).calls() == old(session).calls().push(
            StoreCall::Write {
                service: e.service(),
                account: e.account(),
                password: password@,
                failure: failure_view(r),
            },
        ),
{
    let r = write_password(&e.entry, password);
    session.calls = Ghost(
        session.calls@.push(
            StoreCall::Write {
                service: e.service(),
                account: e.account(),
                password: password@,
                failure: failure_view(r),
            },
        ),
    );
    r
}

/// Deletes the entry's credential, recording the call.
fn erase(session: &mut StoreSession, e: &OpenEntry) -> (r: Result<(), StoreError>)
    ensures
        final(session).calls() == old(session).calls().push(
            StoreCall::Erase { service: e.service(), account: e.account(), failure: failure_view(r) },
        ),
{
    let r = erase_credential(&e.entry);
    session.calls = Ghost(
        session.calls@.push(
            StoreCall::Erase {
                service: e.service(),
                account: e.account(),
                failure: failure_view(r),
            },
        ),
    );
    r
}

/// The calls a session made after it held `before` and came to hold `after`.
pub open spec fn made_since(before: Seq<StoreCall>, after: Seq<StoreCall>) -> Seq<StoreCall> {
    after.skip(before.len() as int)
}

/// `after` is `before` with calls added at the end.
pub open spec fn extends(before: Seq<StoreCall>, after: Seq<StoreCall>) -> bool {
    before.len() <= after.len() && after.take(before.len() as int) == before
}

/// The meaning of a text result.
pub open spec fn text_result(r: Result<String, String>) -> Result<Seq<char>, Seq<char>> {
    match r {
        Ok(t) => Ok(t@),
        Err(e) => Err(e@),
    }
}

/// The meaning of a result without a value.
pub open spec fn unit_result(r: Result<(), String>) -> Result<(), Seq<char>> {
    match r {
        Ok(()) => Ok(()),
        Err(e) => Err(e@),
    }
}

/// The message of a recorded store failure.
pub open spec fn fault_message(f: StoreFault) -> Seq<char> {
    match f {
        StoreFault::NoEntry(m) => m,
        StoreFault::Other(m) => m,
    }
}

// ---------------------------------------------------------------------------
// Reading the key
// ---------------------------------------------------------------------------

/// What reading the key answers when `calls` are the calls it made, or
/// `None` when these are not the calls it makes. It opens and reads the
/// current entry; a found key is the answer and a failure its message. When
/// no key is stored there it opens and reads the legacy entry: a key found
/// there is the answer and is moved (see [`moves_key`]), so that it is never
/// lost; no key there gives the empty key.
pub open spec fn read_key_outcome(calls: Seq<StoreCall>) -> Option<Result<Seq<char>, Seq<char>>> {
    if calls.len() == 0 {
        None
    } else {
        match calls[0] {
            StoreCall::Open { service, account, error } => if service != SERVICE@ || account
                != ACCOUNT@ {
                None
            } else {
                match error {
                    Some(m) => if calls.len() == 1 {
                        Some(Err(m))
                    } else {
                        None
                    },
                    None => if calls.len() < 2 {
                        None
                    } else {
                        match calls[1] {
                            StoreCall::Read { service, account, answer } => if service
                                != SERVICE@ || account != ACCOUNT@ {
                                None
                            } else {
                                match answer {
                                    Ok(k) => if calls.len() == 2 {
                                        Some(Ok(k))
                                    } else {
                                        None
                                    },
                                    Err(StoreFault::Other(m)) => if calls.len() == 2 {
                                        Some(Err(m))
                                    } else {
                                        None
                                    },
                                    Err(StoreFault::NoEntry(_)) => legacy_read_outcome(
                                        calls.skip(2),
                                    ),
                                }
                            },
                            _ => None,
                        }
                    },
                }
            },
            _ => None,
        }
    }
}

/// The part of [`read_key_outcome`] after the current entry had no key.
pub open spec fn legacy_read_outcome(calls: Seq<StoreCall>) -> Option<Result<Seq<char>, Seq<char>>> {
    if calls.len() == 0 {
        None
    } else {
        match calls[0] {
            StoreCall::Open { service, account, error } => if service != LEGACY_SERVICE@
                || account != ACCOUNT@ {
                None
            } else {
                match error {
                    Some(m) => if calls.len() == 1 {
                        Some(Err(m))
                    } else {
                        None
                    },
                    None => if calls.len() < 2 {
                        None
                    } else {
                        match calls[1] {
                            StoreCall::Read { service, account, answer } => if service
                                != LEGACY_SERVICE@ || account != ACCOUNT@ {
                                None
                            } else {
                                match answer {
                                    Ok(k) => if moves_key(calls.skip(2), k) {
                                        Some(Ok(k))
                                    } else {
                                        None
                                    },
                                    Err(StoreFault::NoEntry(_)) => if calls.len() == 2 {
                                        Some(Ok(Seq::<char>::empty()))
                                    } else {
                                        None
                                    },
                                    Err(StoreFault::Other(m)) => if calls.len() == 2 {
                                        Some(Err(m))
                                    } else {
                                        None
                                    },
                                }
                            },
                            _ => None,
                        }
                    },
                }
            },
            _ => None,
        }
    }
}

/// `calls` move `key` from the legacy service: it is written to the current
/// entry and, only when that succeeded, the legacy credential is deleted
/// (whatever that came to).
pub open spec fn moves_key(calls: Seq<StoreCall>, key: Seq<char>) -> bool {
    calls.len() > 0 && match calls[0] {
        StoreCall::Write { service, account, password, failure } => {
            &&& service == SERVICE@ && account == ACCOUNT@ && password == key
            &&& match failure {
                Some(_) => calls.len() == 1,
                None => calls.len() == 2 && (calls[1] matches StoreCall::Erase { service, account, .. }
                    && service == LEGACY_SERVICE@ && account == ACCOUNT@),
            }
        },
        _ => false,
    }
}

/// What looking up a password found.
pub enum KeyLookup {
    /// A stored password.
    Found(String),
    /// No credential is stored.
    Missing,
    /// The store failed, with this message.
    Failed(String),
}

/// What to do after looking in the current service.
pub enum KeyStep {
    /// Answer with this result.
    Done(Result<String, String>),
    /// Look in the legacy service.
    TryLegacy,
}

/// After looking in the current service: a found key is the answer, a
/// failure is the error, and a missing key sends the search to the legacy
/// service.
pub fn after_primary(lookup: KeyLookup) -> (step: KeyStep)
    ensures
        lookup matches KeyLookup::Found(k) ==> (step matches KeyStep::Done(Ok(r)) && r == k),
        lookup matches KeyLookup::Failed(m) ==> (step matches KeyStep::Done(Err(r)) && r == m),
        lookup is Missing ==> step is TryLegacy,
{
    match lookup {
        KeyLookup::Found(k) => KeyStep::Done(Ok(k)),
        KeyLookup::Failed(m) => KeyStep::Done(Err(m)),
        KeyLookup::Missing => KeyStep::TryLegacy,
    }
}

/// After looking in the legacy service: a found key is the answer and is to
/// be moved to the current service (`true`); a missing one gives the empty
/// key; a failure is the error.
pub fn after_legacy(lookup: KeyLookup) -> (r: (Result<String, String>, bool))
    ensures
        lookup matches KeyLookup::Found(k) ==> (r.0 matches Ok(v) && v == k && r.1),
        lookup is Missing ==> (r.0 matches Ok(v) && v@.len() == 0 && !r.1),
        lookup matches KeyLookup::Failed(m) ==> (r.0 matches Err(e) && e == m && !r.1),
{
    match lookup {
        KeyLookup::Found(k) => (Ok(k), true),
        KeyLookup::Missing => (Ok(String::new()), false),
        KeyLookup::Failed(m) => (Err(m), false),
    }
}

/// What a password lookup found: the password, no entry, or another
/// failure with its message.
fn lookup_of(r: Result<String, StoreError>) -> (l: KeyLookup)
    ensures
        r matches Ok(k) ==> (l matches KeyLookup::Found(v) && v == k),
        r matches Err(StoreError::NoEntry(_)) ==> l is Missing,
        r matches Err(StoreError::Other(m)) ==> (l matches KeyLookup::Failed(v) && v == m),
{
    match r {
        Ok(k) => KeyLookup::Found(k),
        Err(StoreError::NoEntry(_)) => KeyLookup::Missing,
        Err(StoreError::Other(m)) => KeyLookup::Failed(m),
    }
}

/// Reads the stored API key, moving it from the legacy service when it is
/// only found there; the empty key when none is stored; a failure of the
/// store as its message (see [`read_key_outcome`]).
pub fn read_api_key(session: &mut StoreSession) -> (r: Result<String, String>)
    ensures
        extends(old(session).calls(), final(session).calls()),
        read_key_outcome(made_since(old(session).calls(), final(session).calls())) == Some(
            text_result(r),
        ),
{
    let ghost before = session.calls();
    let entry = match open(session, SERVICE, ACCOUNT) {
        Ok(e) => e,
        Err(m) => {
            proof {
                assert(made_since(before, session.calls()) =~= seq![session.calls().last()]);
                assert(session.calls().take(before.len() as int) =~= before);
            }
            return Err(m);
        },
    };
    let first = read(session, &entry);
    let ghost c1 = session.calls();
    match after_primary(lookup_of(first)) {
        KeyStep::Done(r) => {
            proof {
                assert(made_since(before, c1) =~= seq![c1[c1.len() - 2], c1.last()]);
                assert(c1.take(before.len() as int) =~= before);
            }
            r
        },
        KeyStep::TryLegacy => {
            let legacy = match open(session, LEGACY_SERVICE, ACCOUNT) {
                Ok(e) => e,
                Err(m) => {
                    proof {
                        let c = session.calls();
                        assert(made_since(before, c) =~= seq![c1[c1.len() - 2], c1.last(), c.last()]);
                        assert(c.take(before.len() as int) =~= before);
                        assert(made_since(before, c).skip(2) =~= seq![c.last()]);
                    }
                    return Err(m);
                },
            };
            let second = read(session, &legacy);
            let ghost c2 = session.calls();
            let ghost answer2 = answer_view(second);
            let (r, migrate) = after_legacy(lookup_of(second));
            let ghost c3 = c2;
            if migrate {
                if let Ok(k) = &r {
                    let saved = write(session, &entry, k.as_str());
                    proof {
                        c3 = session.calls();
                    }
                    if saved.is_ok() {
                        let _ = erase(session, &legacy);
                    }
                }
            }
            proof {
                let c = session.calls();
                let t = made_since(before, c);
                assert(c.take(before.len() as int) =~= before);
                assert(t[2] == c2[c2.len() - 2]);
                assert(t[3] == c2.last());
                assert(t[0] == c1[c1.len() - 2]);
                assert(t[1] == c1.last());
                assert(first matches Err(StoreError::NoEntry(_)));
                assert(t[1] matches StoreCall::Read { answer: Err(StoreFault::NoEntry(_)), .. });
                assert(read_key_outcome(t) == legacy_read_outcome(t.skip(2)));
                if migrate {
                    let w = c3.last();
                    if w matches StoreCall::Write { failure: None, .. } {
                        assert(t =~= seq![c1[c1.len() - 2], c1.last(), c2[c2.len() - 2], c2.last(), w, c.last()]);
                        assert(t.skip(4) =~= seq![w, c.last()]);
                    } else {
                        assert(c == c3);
                        assert(t =~= seq![c1[c1.len() - 2], c1.last(), c2[c2.len() - 2], c2.last(), w]);
                        assert(t.skip(4) =~= seq![w]);
                    }
                    assert(moves_key(t.skip(4), answer2->Ok_0));
                } else {
                    assert(t =~= seq![c1[c1.len() - 2], c1.last(), c2[c2.len() - 2], c2.last()]);
                    assert(t.skip(2) =~= seq![c2[c2.len() - 2], c2.last()]);
                }
                let u = t.skip(2);
                assert(u[0] == c2[c2.len() - 2]);
                assert(u[1] == c2.last());
                match answer2 {
                    Ok(k) => {
                        assert(u.skip(2) =~= t.skip(4));
                    },
                    Err(StoreFault::NoEntry(_)) => {
                        assert(u.len() == 2);
                        assert(r matches Ok(v) && v@ =~= Seq::<char>::empty());
                    },
                    Err(StoreFault::Other(_)) => {
                        assert(u.len() == 2);
                    },
                }
                assert(legacy_read_outcome(u) == Some(text_result(r)));
            }
            r
        },
    }
}

/// Reads the stored API key (see [`read_api_key`]).
pub fn get_api_key(session: &mut StoreSession) -> (r: Result<String, String>)
    ensures
        extends(old(session).calls(), final(session).calls()),
        read_key_outcome(made_since(old(session).calls(), final(session).calls())) == Some(
            text_result(r),
        ),
{
    read_api_key(session)
}

// ---------------------------------------------------------------------------
// Storing and deleting the key
// ---------------------------------------------------------------------------

/// The key as it is stored: without surrounding whitespace.
pub fn normalize_key(key: &str) -> (r: String)
    ensures
        r@ == trim_seq(key@),
{
    let chars = chars_of(key);
    let t = trim(chars.as_slice());
    string_from_chars(t.as_slice())
}

/// What storing `key` answers when `calls` are the calls it made, or `None`
/// when these are not the calls it makes: it opens the current entry and
/// writes `key` without surrounding whitespace to it; a failure is its
/// message.
pub open spec fn set_key_outcome(calls: Seq<StoreCall>, key: Seq<char>) -> Option<Result<(), Seq<char>>> {
    if calls.len() == 0 {
        None
    } else {
        match calls[0] {
            StoreCall::Open { service, account, error } => if service != SERVICE@ || account
                != ACCOUNT@ {
                None
            } else {
                match error {
                    Some(m) => if calls.len() == 1 {
                        Some(Err(m))
                    } else {
                        None
                    },
                    None => if calls.len() != 2 {
                        None
                    } else {
                        match calls[1] {
                            StoreCall::Write { service, account, password, failure } => if service
                                == SERVICE@ && account == ACCOUNT@ && password == trim_seq(key) {
                                match failure {
                                    None => Some(Ok(())),
                                    Some(f) => Some(Err(fault_message(f))),
                                }
                            } else {
                                None
                            },
                            _ => None,
                        }
                    },
                }
            },
            _ => None,
        }
    }
}

/// Stores `key`, without surrounding whitespace, under the current service
/// (see [`set_key_outcome`]).
pub fn set_api_key(session: &mut StoreSession, key: String) -> (r: Result<(), String>)
    ensures
        extends(old(session).calls(), final(session).calls()),
        set_key_outcome(made_since(old(session).calls(), final(session).calls()), key@) == Some(
            unit_result(r),
        ),
{
    let ghost before = session.calls();
    let entry = match open(session, SERVICE, ACCOUNT) {
        Ok(e) => e,
        Err(m) => {
            proof {
                assert(made_since(before, session.calls()) =~= seq![session.calls().last()]);
                assert(session.calls().take(before.len() as int) =~= before);
            }
            return Err(m);
        },
    };
    let stored = normalize_key(key.as_str());
    let w = write(session, &entry, stored.as_str());
    proof {
        let c = session.calls();
        assert(made_since(before, c) =~= seq![c[c.len() - 2], c.last()]);
        assert(c.take(before.len() as int) =~= before);
    }
    match w {
        Ok(()) => Ok(()),
        Err(StoreError::NoEntry(m)) => Err(m),
        Err(StoreError::Other(m)) => Err(m),
    }
}

/// What a change to the store came to.
pub enum StoreOutcome {
    Succeeded,
    /// No credential was stored for the entry.
    NoEntry,
    /// The store failed, with this message.
    Failed(String),
}

/// What a change to the store came to.
fn store_outcome(r: Result<(), StoreError>) -> (o: StoreOutcome)
    ensures
        r is Ok ==> o is Succeeded,
        r matches Err(StoreError::NoEntry(_)) ==> o is NoEntry,
        r matches Err(StoreError::Other(m)) ==> (o matches StoreOutcome::Failed(v) && v == m),
{
    match r {
        Ok(()) => StoreOutcome::Succeeded,
        Err(StoreError::NoEntry(_)) => StoreOutcome::NoEntry,
        Err(StoreError::Other(m)) => StoreOutcome::Failed(m),
    }
}

/// What deleting the credential amounts to: success, also when there was
/// nothing to delete; otherwise the store's message.
pub fn deletion_outcome(outcome: StoreOutcome) -> (r: Result<(), String>)
    ensures
        !(outcome is Failed) ==> r is Ok,
        outcome matches StoreOutcome::Failed(m) ==> (r matches Err(e) && e == m),
{
    match outcome {
        StoreOutcome::Failed(m) => Err(m),
        _ => Ok(()),
    }
}

/// What deleting the key answers when `calls` are the calls it made, or
/// `None` when these are not the calls it makes: it opens the current entry
/// and deletes its credential; deleting succeeds also when nothing was
/// stored, and another failure is its message.
pub open spec fn delete_key_outcome(calls: Seq<StoreCall>) -> Option<Result<(), Seq<char>>> {
    if calls.len() == 0 {
        None
    } else {
        match calls[0] {
            StoreCall::Open { service, account, error } => if service != SERVICE@ || account
                != ACCOUNT@ {
                None
            } else {
                match error {
                    Some(m) => if calls.len() == 1 {
                        Some(Err(m))
                    } else {
                        None
                    },
                    None => if calls.len() != 2 {
                        None
                    } else {
                        match calls[1] {
                            StoreCall::Erase { service, account, failure } => if service
                                == SERVICE@ && account == ACCOUNT@ {
                                match failure {
                                    Some(StoreFault::Other(m)) => Some(Err(m)),
                                    _ => Some(Ok(())),
                                }
                            } else {
                                None
                            },
                            _ => None,
                        }
                    },
                }
            },
            _ => None,
        }
    }
}

/// Deletes the stored key under the current service; deleting a key that is
/// not there succeeds (see [`delete_key_outcome`]).
pub fn delete_api_key(session: &mut StoreSession) -> (r: Result<(), String>)
    ensures
        extends(old(session).calls(), final(session).calls()),
        delete_key_outcome(made_since(old(session).calls(), final(session).calls())) == Some(
            unit_result(r),
        ),
{
    let ghost before = session.calls();
    let entry = match open(session, SERVICE, ACCOUNT) {
        Ok(e) => e,
        Err(m) => {
            proof {
                assert(made_since(before, session.calls()) =~= seq![session.calls().last()]);
                assert(session.calls().take(before.len() as int) =~= before);
            }
            return Err(m);
        },
    };
    let outcome = erase(session, &entry);
    proof {
        let c = session.calls();
        assert(made_since(before, c) =~= seq![c[c.len() - 2], c.last()]);
        assert(c.take(before.len() as int) =~= before);
    }
    deletion_outcome(store_outcome(outcome))
}

/// Whether a key is stored, given what reading it gave: a non-empty key
/// means yes; a failure stays a failure.
pub fn key_presence(read: Result<String, String>) -> (r: Result<bool, String>)
    ensures
        read matches Ok(k) ==> (r matches Ok(b) && b == (k@.len() > 0)),
        read matches Err(e) ==> (r matches Err(f) && f == e),
{
    match read {
        Ok(k) => Ok(!k.as_str().is_empty()),
        Err(e) => Err(e),
    }
}

/// Whether a non-empty key is stored: the presence of what reading the key
/// (see [`read_key_outcome`]) answers.
pub fn has_api_key(session: &mut StoreSession) -> (r: Result<bool, String>)
    ensures
        extends(old(session).calls(), final(session).calls()),
        read_key_outcome(made_since(old(session).calls(), final(session).calls())) matches Some(
            read,
        ) && match read {
            Ok(k) => r matches Ok(b) && b == (k.len() > 0),
            Err(m) => r matches Err(e) && e@ == m,
        },
{
    key_presence(read_api_key(session))
}

} // verus!
