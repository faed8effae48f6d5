//! The broadcast coordinator: gates publication on administrator credentials,
//! plans one outbound message per confirmed subscriber, and drives the
//! sequential dispatch under the all-or-nothing policy — the first delivery
//! failure aborts the remainder of the broadcast.

use crate::codec::{basic_authentication, decodes_to};
use crate::errors::Error;
use crate::store::{confirmed_emails, credentials_accepted, ModelManager};
use vstd::prelude::*;

verus! {

/// The newsletter content: one HTML body and one plain-text body.
#[derive(Debug, Clone)]
pub struct Content {
    pub html: String,
    pub text: String,
}

/// The newsletter to broadcast, as the boundary layer hands it over.
#[derive(Debug, Clone)]
pub struct BodyData {
    pub title: String,
    pub content: Content,
}

/// One outbound message, ready for the email collaborator.
#[derive(Debug, Clone)]
pub struct OutgoingEmail {
    pub to: String,
    pub subject: String,
    pub html: String,
    pub text: String,
}

/// True when `plan` carries the given newsletter to exactly the given
/// recipients, in order.
pub open spec fn plan_for(
    plan: Seq<OutgoingEmail>,
    recipients: Seq<Seq<char>>,
    title: Seq<char>,
    html: Seq<char>,
    text: Seq<char>,
) -> bool {
    &&& plan.len() == recipients.len()
    &&& forall|i: int|
        0 <= i < plan.len() ==> (#[trigger] plan[i]).to@ == recipients[i] && plan[i].subject@
            == title && plan[i].html@ == html && plan[i].text@ == text
}

/// Plans a newsletter broadcast: validates the administrator credentials
/// carried by the authorization header, and on success returns one outbound
/// message per confirmed subscriber, in list order.
///
/// Succeeds if and only if the connection is ready and the header carries
/// credentials that a stored administrator accepts. Every failure — malformed
/// header, unknown user, wrong secret, store not ready — is one and the same
/// authentication failure, with one and the same message, and carries no plan:
/// the email collaborator is reached only through a returned plan, so a
/// rejected publication dispatches nothing.
pub fn publish_newsletter(mm: &ModelManager, authorization: &str, body: &BodyData) -> (r: Result<
    Vec<OutgoingEmail>,
    Error,
>)
    ensures
        r is Ok <==> (mm@.conn is Ready && exists|u: Seq<char>, p: Seq<char>|
            #![auto]
            decodes_to(authorization@, u, p) && credentials_accepted(mm@.users, u, p)),
        (forall|u: Seq<char>, p: Seq<char>|
            decodes_to(authorization@, u, p) ==> !credentials_accepted(mm@.users, u, p)) ==> r
            is Err,
        r matches Ok(plan) ==> plan_for(
            plan@,
            confirmed_emails(mm@.subs),
            body.title@,
            body.content.html@,
            body.content.text@,
        ),
        r matches Err(e) ==> (e matches Error::Auth(m) && m@ == "invalid credentials"@),
{
    let credentials = match basic_authentication(authorization) {
        Ok(c) => c,
        Err(_) => {
            proof {
                assert forall|u: Seq<char>, p: Seq<char>| !(decodes_to(authorization@, u, p)
                    && credentials_accepted(mm@.users, u, p)) by {
                    if decodes_to(authorization@, u, p) {
                        assert(false);
                    }
                }
            }
            return Err(Error::Auth(String::from_str("invalid credentials")));
        },
    };
    match mm.validate_credentials(&credentials) {
        Ok(_) => {},
        Err(_) => {
            proof {
                if mm@.conn is Ready {
                    assert forall|u: Seq<char>, p: Seq<char>| !(decodes_to(authorization@, u, p)
                        && credentials_accepted(mm@.users, u, p)) by {
                        if decodes_to(authorization@, u, p) {
                            assert(u == credentials.username@ && p == credentials.password@);
                        }
                    }
                }
            }
            return Err(Error::Auth(String::from_str("invalid credentials")));
        },
    }
    let subscribers = match mm.get_confirmed_subscribers() {
        Ok(subscribers) => subscribers,
        Err(_) => {
            // Unreachable: accepted credentials need a ready connection, and
            // a ready connection always yields the confirmed list.
            return Err(Error::Auth(String::from_str("invalid credentials")));
        },
    };
    let ghost recipients = confirmed_emails(mm@.subs);
    let mut plan: Vec<OutgoingEmail> = Vec::new();
    let mut k: usize = 0;
    while k < subscribers.len()
        invariant
            0 <= k <= subscribers.len(),
            crate::store::emails_of(subscribers@) == recipients,
            plan@.len() == k,
            forall|i: int|
                0 <= i < k ==> (#[trigger] plan@[i]).to@ == recipients[i] && plan@[i].subject@
                    == body.title@ && plan@[i].html@ == body.content.html@ && plan@[i].text@
                    == body.content.text@,
        decreases subscribers.len() - k,
    {
        let recipient = &subscribers[k];
        plan.push(
            OutgoingEmail {
                to: recipient.email.clone(),
                subject: body.title.clone(),
                html: body.content.html.clone(),
                text: body.content.text.clone(),
            },
        );
        proof {
            assert(recipients[k as int] == crate::store::emails_of(subscribers@)[k as int]);
        }
        k = k + 1;
    }
    Ok(plan)
}

/// One broadcast in progress: the planned messages, how far dispatch has
/// come, and whether a failed delivery has aborted the rest.
#[derive(Debug)]
pub struct BroadcastRun {
    pub plan: Vec<OutgoingEmail>,
    pub next: usize,
    pub aborted: bool,
}

impl BroadcastRun {
    /// Dispatch never runs past the plan.
    pub open spec fn wf(&self) -> bool {
        self.next <= self.plan@.len()
    }

    /// Starts dispatching a plan from its first message.
    pub fn new(plan: Vec<OutgoingEmail>) -> (r: BroadcastRun)
        ensures
            r.plan == plan,
            r.next == 0,
            !r.aborted,
            r.wf(),
    {
        BroadcastRun { plan, next: 0, aborted: false }
    }

    /// The message to hand to the email collaborator next — none once the
    /// plan is exhausted, and none ever again after a delivery has failed:
    /// one failure aborts the remaining broadcast.
    pub fn next_dispatch(&self) -> (r: Option<&OutgoingEmail>)
        requires
            self.wf(),
        ensures
            r is Some <==> (!self.aborted && self.next < self.plan@.len()),
            r matches Some(e) ==> *e == self.plan@[self.next as int],
    {
        if self.aborted || self.next >= self.plan.len() {
            None
        } else {
            Some(&self.plan[self.next])
        }
    }

    /// Records the collaborator's answer for the message last handed out:
    /// a delivery moves dispatch to the next message, a failure aborts the
    /// broadcast for good.
    pub fn record_outcome(&mut self, delivered: bool)
        requires
            old(self).wf(),
            !old(self).aborted,
            old(self).next < old(self).plan@.len(),
        ensures
            final(self).plan == old(self).plan,
            final(self).wf(),
            delivered ==> final(self).next == old(self).next + 1 && !final(self).aborted,
            !delivered ==> final(self).aborted && final(self).next == old(self).next,
    {
        if delivered {
            let n = self.plan.len();
            assert(self.next < n);
            self.next = self.next + 1;
        } else {
            self.aborted = true;
        }
    }
}

} // verus!
