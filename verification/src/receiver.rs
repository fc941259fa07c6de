//! The receiver hook: a notification that is owed to the recipient of
//! tokens, to be sent exactly once.

use crate::messaging::{
    Messaging, MessagingError, Receipt, TokensReceived, TokensReceivedView, EXIT_OK,
};
use crate::address::ActorID;
use vstd::prelude::*;

verus! {

/// What an operation keeps across the call of its hook, to build its
/// result from afterwards. It takes up the data that the recipient returned.
pub trait RecipientData: View + Sized {
    /// The view after the recipient's answer was taken up.
    spec fn answered(v: Self::V, data: Seq<u8>) -> Self::V;

    /// Takes up the data that the recipient returned.
    fn set_recipient_data(&mut self, data: Vec<u8>)
        ensures
            final(self)@ == Self::answered(old(self)@, data@),
    ;
}

/// Why a hook did not hand back its intermediate.
#[derive(Debug)]
pub enum ReceiverHookError {
    /// The hook had been called before.
    AlreadyCalled,
    /// The call itself failed.
    Messaging(MessagingError),
    /// The receiver refused the tokens.
    Receiver { address: ActorID, exit_code: u32, return_data: Vec<u8> },
}

/// How the answer to a notification decides the result of a hook: a
/// receipt with `EXIT_OK` hands back the intermediate with the returned data
/// taken up; any other receipt is a refusal by the receiver `to`, reported
/// with its exit code and data; a failed call is reported as such.
pub open spec fn settled<T: RecipientData>(
    outcome: Result<Receipt, MessagingError>,
    to: ActorID,
    intermediate: T::V,
    r: Result<T, ReceiverHookError>,
) -> bool {
    match outcome {
        Ok(receipt) => if receipt.exit_code == EXIT_OK {
            r is Ok && r->Ok_0@ == T::answered(intermediate, receipt.return_data@)
        } else {
            &&& r is Err
            &&& r->Err_0 is Receiver
            &&& r->Err_0->address == to
            &&& r->Err_0->exit_code == receipt.exit_code
            &&& r->Err_0->return_data@ == receipt.return_data@
        },
        Err(e) => r is Err && r->Err_0 == ReceiverHookError::Messaging(e),
    }
}

/// Decides the result of a hook from the answer to its notification.
pub fn settle<T: RecipientData>(
    outcome: Result<Receipt, MessagingError>,
    to: ActorID,
    intermediate: T,
) -> (r: Result<T, ReceiverHookError>)
    ensures
        settled(outcome, to, intermediate@, r),
{
    match outcome {
        Ok(receipt) => {
            if receipt.exit_code == EXIT_OK {
                let mut intermediate = intermediate;
                intermediate.set_recipient_data(receipt.return_data);
                Ok(intermediate)
            } else {
                Err(
                    ReceiverHookError::Receiver {
                        address: to,
                        exit_code: receipt.exit_code,
                        return_data: receipt.return_data,
                    },
                )
            }
        },
        Err(e) => Err(ReceiverHookError::Messaging(e)),
    }
}

/// A notification that is still owed, with the intermediate of the
/// operation that owes it. It is pending until `call` sends it, and called
/// ever after.
///
/// The operation that returned the hook has already changed the ledger. A
/// hook that is dropped without being called leaves that change in place
/// and the recipient without notice: whoever holds a hook owes its call.
#[derive(Debug)]
pub struct ReceiverHook<T: RecipientData> {
    notice: TokensReceived,
    called: bool,
    result_data: Option<T>,
}

impl<T: RecipientData> ReceiverHook<T> {
    /// The representation invariant: a pending hook holds its intermediate.
    pub closed spec fn valid(&self) -> bool {
        !self.called ==> self.result_data is Some
    }

    /// Whether the notification is still owed.
    pub closed spec fn pending(&self) -> bool {
        !self.called
    }

    /// The notification.
    pub closed spec fn notice(&self) -> TokensReceivedView {
        self.notice@
    }

    /// `outcome` is an answer of `msg` to the notification of this hook.
    pub open spec fn answered_by<M: Messaging>(
        &self,
        msg: &M,
        outcome: Result<Receipt, MessagingError>,
    ) -> bool {
        exists|notice: TokensReceived|
            notice@ == self.notice() && #[trigger] call_ensures(
                M::call_receiver_hook,
                (msg, &notice),
                outcome,
            )
    }

    /// The intermediate that a pending hook holds.
    pub closed spec fn intermediate(&self) -> T::V
        recommends
            self.pending(),
    {
        self.result_data->Some_0@
    }

    /// A pending hook.
    pub fn new(notice: TokensReceived, result_data: T) -> (r: Self)
        ensures
            r.valid(),
            r.pending(),
            r.notice() == notice@,
            r.intermediate() == result_data@,
    {
        ReceiverHook { notice, called: false, result_data: Some(result_data) }
    }

    /// Whether the notification is still owed.
    pub fn is_pending(&self) -> (r: bool)
        ensures
            r == self.pending(),
    {
        !self.called
    }

    /// The account that is notified.
    pub fn recipient(&self) -> (r: ActorID)
        ensures
            r == self.notice().to,
    {
        self.notice.to
    }

    /// Sends the notification, once: a pending hook makes exactly one call
    /// to the receiver and settles its result by `settled`; a hook that was
    /// called before makes no call and fails with `AlreadyCalled`. Either way
    /// the hook is called afterwards.
    pub fn call<M: Messaging>(&mut self, msg: &M) -> (r: Result<T, ReceiverHookError>)
        requires
            old(self).valid(),
        ensures
            final(self).valid(),
            !final(self).pending(),
            final(self).notice() == old(self).notice(),
            !old(self).pending() ==> r is Err && r->Err_0 is AlreadyCalled,
            old(self).pending() ==> exists|outcome: Result<Receipt, MessagingError>|
                old(self).answered_by(msg, outcome) && #[trigger] settled(
                    outcome,
                    old(self).notice().to,
                    old(self).intermediate(),
                    r,
                ),
    {
        if self.called {
            return Err(ReceiverHookError::AlreadyCalled);
        }
        self.called = true;
        let intermediate = match self.result_data.take() {
            Some(t) => t,
            None => {
                return Err(ReceiverHookError::AlreadyCalled);
            },
        };
        let outcome = msg.call_receiver_hook(&self.notice);
        let ghost answer = outcome;
        let r = settle(outcome, self.notice.to, intermediate);
        assert(old(self).answered_by(msg, answer));
        assert(settled(answer, old(self).notice().to, old(self).intermediate(), r));
        r
    }
}

} // verus!
