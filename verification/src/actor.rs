//! The actor-root capability: reading and replacing the root of the actor's state.

use crate::address::{ActorID, Address, AddressView, ContentAddress};
use crate::messaging::{FakeMessenger, Messaging, MessagingError, Receipt, TokensReceived};
use vstd::prelude::*;

verus! {

/// Why the root could not be replaced.
#[derive(Clone, Copy, Debug, PartialEq, Eq)]
pub enum RootUpdateError {
    /// The actor has been deleted.
    ActorDeleted,
    /// The actor runs in a read-only context.
    ReadOnly,
}

/// Why the actor's own state could not be reached.
#[derive(Clone, Copy, Debug, PartialEq, Eq)]
pub enum ActorError {
    /// The actor has no state.
    NoState,
    /// The root could not be replaced.
    RootUpdate(RootUpdateError),
}

/// The means to read and to replace the root of the actor's state.
///
/// The root is the single source of truth and may change during any call
/// to another actor: `root_cid` promises no particular answer.
pub trait Actor {
    /// The current root.
    fn root_cid(&self) -> (r: Result<ContentAddress, ActorError>)
    ;

    /// Makes `address` the root.
    fn set_root(&mut self, address: &ContentAddress) -> (r: Result<(), RootUpdateError>)
    ;
}

/// A request to make `address` the root, and what the actor answered.
pub ghost struct RootRequest {
    pub address: ContentAddress,
    pub answer: Result<(), RootUpdateError>,
}

/// Asks the actor to make `address` its root: the actor is afterwards as
/// that call left it.
pub fn set_root_of<A: Actor>(actor: &mut A, address: &ContentAddress) -> (r: Result<
    (),
    RootUpdateError,
>)
    ensures
        exists|a: &mut A|
            *a == *old(actor) && #[trigger] call_ensures(A::set_root, (a, address), r) && *final(actor) == *final(a),
{
    actor.set_root(address)
}

/// An actor for tests, whose root is a field.
#[derive(Debug)]
pub struct FakeActor {
    pub root: ContentAddress,
}

impl Actor for FakeActor {
    fn root_cid(&self) -> (r: Result<ContentAddress, ActorError>)
        ensures
            r is Ok,
            r->Ok_0@ == self.root@,
    {
        Ok(self.root.duplicate())
    }

    fn set_root(&mut self, address: &ContentAddress) -> (r: Result<(), RootUpdateError>)
        ensures
            r is Ok,
            final(self).root@ == address@,
    {
        self.root = address.duplicate();
        Ok(())
    }
}

/// Everything that an actor asks of its host: messaging, its own root, and
/// who called it.
pub trait Runtime: Messaging + Actor {
    /// The account that made the call being served.
    fn caller(&self) -> (r: ActorID)
    ;
}

/// A runtime for tests: a `FakeMessenger`, a `FakeActor`, and a fixed caller.
#[derive(Debug)]
pub struct FakeRuntime {
    pub messenger: FakeMessenger,
    pub actor: FakeActor,
    pub caller: ActorID,
}

impl Messaging for FakeRuntime {
    open spec fn can_initialise(&self, address: AddressView) -> bool {
        self.messenger.can_initialise(address)
    }

    fn call_receiver_hook(&self, notice: &TokensReceived) -> (r: Result<Receipt, MessagingError>)
        ensures
            r is Ok,
            r->Ok_0.exit_code == (if notice.operator_data@.len() == 0 {
                crate::messaging::EXIT_OK
            } else {
                crate::messaging::SYS_INVALID_RECEIVER
            }),
            r->Ok_0.return_data@ == notice.operator_data@,
            r->Ok_0.gas_used == 0,
    {
        self.messenger.call_receiver_hook(notice)
    }

    fn resolve_id(&self, address: &Address) -> (r: Result<ActorID, MessagingError>)
        ensures
            match FakeMessenger::resolves(address@) {
                Some(id) => r == Ok::<ActorID, MessagingError>(id),
                None => r is Err && r->Err_0 is AddressNotResolved,
            },
    {
        self.messenger.resolve_id(address)
    }

    fn initialise_account(&self, address: &Address) -> (r: Result<ActorID, MessagingError>)
        ensures
            address@ is Bls ==> r == Ok::<ActorID, MessagingError>(self.messenger.first_id),
            address@ is Actor ==> r is Err && r->Err_0 is AddressNotInitialised,
    {
        self.messenger.initialise_account(address)
    }
}

impl Actor for FakeRuntime {
    fn root_cid(&self) -> (r: Result<ContentAddress, ActorError>)
        ensures
            r is Ok,
            r->Ok_0@ == self.actor.root@,
    {
        self.actor.root_cid()
    }

    fn set_root(&mut self, address: &ContentAddress) -> (r: Result<(), RootUpdateError>)
        ensures
            r is Ok,
            final(self).actor.root@ == address@,
            final(self).messenger == old(self).messenger,
            final(self).caller == old(self).caller,
    {
        self.actor.set_root(address)
    }
}

impl Runtime for FakeRuntime {
    fn caller(&self) -> (r: ActorID)
        ensures
            r == self.caller,
    {
        self.caller
    }
}

} // verus!
