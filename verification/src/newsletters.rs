//! The broadcast engine: an authenticated operator fans a newsletter issue
//! out to every confirmed subscriber.
//!
//! Stored addresses are re-validated at read time; an address that no
//! longer parses is skipped, and only that recipient. The caller drives the
//! sends one by one through `Broadcast`; the first hard transport failure
//! aborts the remaining fan-out — that asymmetry is deliberate and
//! documented behaviour.

use vstd::prelude::*;
use vstd::string::*;
use crate::authentication::argon2_accepts;
use crate::authentication::basic_authentication;
use crate::authentication::basic_credentials_of;
use crate::authentication::validate_credentials;
use crate::authentication::AuthError;
use crate::domain::email_is_valid;
use crate::domain::SubscriberEmail;
use crate::store::confirmed_rows;
use crate::store::cred_lookup;
use crate::store::store_wf;
use crate::store::Store;
use crate::store::SubscriberModel;

verus! {

/// A newsletter issue: title and the two body renderings. Transient; it
/// exists only for the duration of one broadcast request.
pub struct BodyData {
    pub title: String,
    pub content: Content,
}

/// The two renderings of an issue body.
pub struct Content {
    pub html: String,
    pub text: String,
}

impl Content {
    /// Assembles the body renderings, rejecting a missing field as the
    /// request decoding would: the error names the first missing field.
    pub fn from_parts(html: Option<String>, text: Option<String>) -> (r: Result<Content, String>)
        ensures
            r is Ok <==> html is Some && text is Some,
            r matches Ok(c) ==> c.html@ == html->Some_0@ && c.text@ == text->Some_0@,
            r matches Err(m) ==> (html is None && m@ == "missing field `html`"@) || (
            html is Some && text is None && m@ == "missing field `text`"@),
    {
        let html = match html {
            Some(h) => h,
            None => {
                return Err(String::from_str("missing field `html`"));
            },
        };
        let text = match text {
            Some(t) => t,
            None => {
                return Err(String::from_str("missing field `text`"));
            },
        };
        Ok(Content { html, text })
    }
}

impl BodyData {
    /// Assembles an issue, rejecting a missing field as the request
    /// decoding would: the error names the first missing field.
    pub fn from_parts(title: Option<String>, content: Option<Content>) -> (r: Result<
        BodyData,
        String,
    >)
        ensures
            r is Ok <==> title is Some && content is Some,
            r matches Ok(b) ==> b.title@ == title->Some_0@ && b.content == content->Some_0,
            r matches Err(m) ==> (title is None && m@ == "missing field `title`"@) || (
            title is Some && content is None && m@ == "missing field `content`"@),
    {
        let title = match title {
            Some(t) => t,
            None => {
                return Err(String::from_str("missing field `title`"));
            },
        };
        let content = match content {
            Some(c) => c,
            None => {
                return Err(String::from_str("missing field `content`"));
            },
        };
        Ok(BodyData { title, content })
    }
}

/// What can go wrong while publishing an issue.
#[derive(Debug)]
pub enum PublishError {
    /// The request was not authenticated; surfaced as 401 with a
    /// `WWW-Authenticate` challenge.
    AuthError(AuthError),
    /// Everything else — store failures, transport failures; surfaced
    /// as 500. Carries the reason.
    UnexpectedError(String),
}

impl PublishError {
    /// The HTTP status this failure is surfaced as.
    pub fn status_code(&self) -> (r: u16)
        ensures
            self is AuthError ==> r == 401,
            self is UnexpectedError ==> r == 500,
    {
        match self {
            PublishError::AuthError(_) => 401,
            PublishError::UnexpectedError(_) => 500,
        }
    }

    /// A short human-readable description.
    pub fn message(&self) -> (r: String)
        ensures
            self is AuthError ==> r@ == "Authentication failed"@,
            self matches PublishError::UnexpectedError(m) ==> r@ == m@,
    {
        match self {
            PublishError::AuthError(_) => String::from_str("Authentication failed"),
            PublishError::UnexpectedError(m) => m.clone(),
        }
    }
}

/// The challenge attached to every 401 from the publishing endpoint.
pub fn www_authenticate_header() -> (r: String)
    ensures
        r@ == "Basic realm=\"publish\""@,
{
    String::from_str("Basic realm=\"publish\"")
}

// ---------------------------------------------------------------------------
// Confirmed recipients
// ---------------------------------------------------------------------------

/// A recipient whose stored address still parses.
pub struct ConfirmedSubscriber {
    pub email: SubscriberEmail,
}

/// The confirmed rows whose stored address still parses, in stored order.
pub open spec fn deliverable_of(s: Seq<SubscriberModel>) -> Seq<SubscriberModel> {
    s.filter(|r: SubscriberModel| email_is_valid(r.email))
}

/// The addresses of these rows, in order.
pub open spec fn emails_of(s: Seq<SubscriberModel>) -> Seq<Seq<char>> {
    s.map_values(|r: SubscriberModel| r.email)
}

/// The addresses a broadcast over this store will be sent to, in order.
pub open spec fn planned_recipients(m: crate::store::StoreModel) -> Seq<Seq<char>> {
    emails_of(deliverable_of(confirmed_rows(m)))
}

/// The subscriber rows a planned send to `e` can come from: confirmed,
/// still-parsing address, and that address is `e`.
pub open spec fn matching_rows(s: Seq<SubscriberModel>, e: Seq<char>) -> Seq<SubscriberModel> {
    s.filter(
        |r: SubscriberModel|
            crate::store::is_confirmed(r) && email_is_valid(r.email) && r.email == e,
    )
}

proof fn lemma_send_count_seq(s: Seq<SubscriberModel>, e: Seq<char>)
    ensures
        emails_of(deliverable_of(crate::store::confirmed_of(s))).to_multiset().count(e)
            == matching_rows(s, e).len(),
    decreases s.len(),
{
    broadcast use vstd::seq_lib::group_to_multiset_ensures;

    reveal(Seq::filter);
    if s.len() == 0 {
        assert(crate::store::confirmed_of(s) =~= Seq::<SubscriberModel>::empty());
        assert(deliverable_of(crate::store::confirmed_of(s))
            =~= Seq::<SubscriberModel>::empty());
        assert(emails_of(deliverable_of(crate::store::confirmed_of(s)))
            =~= Seq::<Seq<char>>::empty());
        assert(matching_rows(s, e) =~= Seq::<SubscriberModel>::empty());
        assert(Seq::<Seq<char>>::empty().to_multiset().count(e) == 0);
    } else {
        let rest = s.drop_last();
        let last = s.last();
        lemma_send_count_seq(rest, e);
        let crest = crate::store::confirmed_of(rest);
        let drest = deliverable_of(crest);
        let erest = emails_of(drest);
        assert(crest.push(last).drop_last() =~= crest);
        assert(crest.push(last).last() == last);
        if crate::store::is_confirmed(last) && email_is_valid(last.email) {
            assert(crate::store::confirmed_of(s) =~= crest.push(last));
            assert(deliverable_of(crest.push(last)) =~= drest.push(last));
            assert(emails_of(drest.push(last)) =~= erest.push(last.email));
            assert(emails_of(deliverable_of(crate::store::confirmed_of(s))).to_multiset()
                == erest.push(last.email).to_multiset());
            assert(erest.push(last.email).to_multiset() == erest.to_multiset().insert(
                last.email,
            ));
            if last.email == e {
                assert(matching_rows(s, e) =~= matching_rows(rest, e).push(last));
            } else {
                assert(matching_rows(s, e) =~= matching_rows(rest, e));
            }
        } else {
            if crate::store::is_confirmed(last) {
                assert(crate::store::confirmed_of(s) =~= crest.push(last));
                assert(deliverable_of(crest.push(last)) =~= drest);
            } else {
                assert(crate::store::confirmed_of(s) =~= crest);
            }
            assert(emails_of(deliverable_of(crate::store::confirmed_of(s))) == erest);
            assert(matching_rows(s, e) =~= matching_rows(rest, e));
        }
    }
}

/// Law: one broadcast plans exactly one send per confirmed subscriber row
/// whose stored address still parses, and none for anyone else: for every
/// address, the number of planned sends to it equals the number of such
/// rows carrying it. In particular an unconfirmed subscriber receives
/// nothing.
pub proof fn lemma_send_count(m: crate::store::StoreModel, e: Seq<char>)
    ensures
        planned_recipients(m).to_multiset().count(e) == matching_rows(m.subscribers, e).len(),
{
    lemma_send_count_seq(m.subscribers, e);
}

/// Reads the confirmed subscribers and re-validates each stored address:
/// one entry per confirmed row, in stored order, `Ok` exactly when the
/// address still parses, `Err` carrying the validation message otherwise.
pub fn get_confirmed_subscribers(store: &Store) -> (r: Vec<Result<ConfirmedSubscriber, String>>)
    ensures
        r@.len() == confirmed_rows(store@).len(),
        forall|i: int|
            0 <= i < r@.len() ==> match #[trigger] r@[i] {
                Ok(cs) => email_is_valid(confirmed_rows(store@)[i].email) && cs.email@
                    == confirmed_rows(store@)[i].email,
                Err(m) => !email_is_valid(confirmed_rows(store@)[i].email) && m@
                    == confirmed_rows(store@)[i].email + " is not a valid subscriber email"@,
            },
{
    let rows = store.list_confirmed_subscribers();
    let mut r: Vec<Result<ConfirmedSubscriber, String>> = Vec::new();
    let mut i: usize = 0;
    while i < rows.len()
        invariant
            crate::store::subscriber_models(rows@) == confirmed_rows(store@),
            i <= rows@.len(),
            r@.len() == i,
            forall|j: int|
                0 <= j < i ==> match #[trigger] r@[j] {
                    Ok(cs) => email_is_valid(confirmed_rows(store@)[j].email) && cs.email@
                        == confirmed_rows(store@)[j].email,
                    Err(m) => !email_is_valid(confirmed_rows(store@)[j].email) && m@
                        == confirmed_rows(store@)[j].email
                        + " is not a valid subscriber email"@,
                },
        decreases rows@.len() - i,
    {
        proof {
            assert(crate::store::subscriber_models(rows@)[i as int] == rows@[i as int]@);
        }
        let email = rows[i].email.clone();
        match SubscriberEmail::parse(email) {
            Ok(e) => r.push(Ok(ConfirmedSubscriber { email: e })),
            Err(m) => r.push(Err(m)),
        }
        i += 1;
    }
    r
}

// ---------------------------------------------------------------------------
// The broadcast
// ---------------------------------------------------------------------------

/// One email handed to the transport.
pub struct EmailSend {
    pub to: String,
    pub subject: String,
    pub html_body: String,
    pub text_body: String,
}

/// Mathematical image of a broadcast in progress.
#[verifier::ext_equal]
pub ghost struct BroadcastModel {
    pub title: Seq<char>,
    pub html: Seq<char>,
    pub text: Seq<char>,
    pub recipients: Seq<Seq<char>>,
    pub sent: int,
}

/// An authenticated broadcast in progress: the planned recipients, in
/// order, and how many have been sent to. The caller performs each send
/// and reports the outcome; the first reported failure aborts the rest.
pub struct Broadcast {
    issue: BodyData,
    recipients: Vec<String>,
    sent: usize,
}

impl View for Broadcast {
    type V = BroadcastModel;

    closed spec fn view(&self) -> BroadcastModel {
        BroadcastModel {
            title: self.issue.title@,
            html: self.issue.content.html@,
            text: self.issue.content.text@,
            recipients: self.recipients.deep_view(),
            sent: self.sent as int,
        }
    }
}

impl Broadcast {
    /// The next email to hand to the transport, `None` when the fan-out
    /// is complete. The subject is the issue's title.
    pub fn next_send(&self) -> (r: Option<EmailSend>)
        ensures
            self@.sent < self@.recipients.len() ==> (r matches Some(e) && e.to@
                == self@.recipients[self@.sent] && e.subject@ == self@.title && e.html_body@
                == self@.html && e.text_body@ == self@.text),
            self@.sent >= self@.recipients.len() ==> r is None,
    {
        if self.sent < self.recipients.len() {
            proof {
                assert(self.recipients.deep_view()[self.sent as int]
                    == self.recipients@[self.sent as int]@);
            }
            Some(
                EmailSend {
                    to: self.recipients[self.sent].clone(),
                    subject: self.issue.title.clone(),
                    html_body: self.issue.content.html.clone(),
                    text_body: self.issue.content.text.clone(),
                },
            )
        } else {
            None
        }
    }

    /// Records one successful send and moves on to the next recipient.
    pub fn record_success(&mut self)
        requires
            old(self)@.sent < old(self)@.recipients.len(),
        ensures
            final(self)@ == (BroadcastModel { sent: old(self)@.sent + 1, ..old(self)@ }),
    {
        let len = self.recipients.len();
        proof {
            assert(self@.recipients.len() == self.recipients@.len());
        }
        self.sent = self.sent + 1;
        proof {
            assert(self@ =~= (BroadcastModel { sent: old(self)@.sent + 1, ..old(self)@ }));
        }
    }

    /// Records a hard transport failure: the fan-out is abandoned, and the
    /// error names the recipient whose send failed.
    pub fn record_failure(self) -> (e: PublishError)
        requires
            self@.sent < self@.recipients.len(),
        ensures
            e matches PublishError::UnexpectedError(m) && m@
                == "Failed to send newsletter issue to "@ + self@.recipients[self@.sent],
    {
        proof {
            assert(self.recipients.deep_view()[self.sent as int]
                == self.recipients@[self.sent as int]@);
        }
        let mut m = String::from_str("Failed to send newsletter issue to ");
        m.append(self.recipients[self.sent].as_str());
        PublishError::UnexpectedError(m)
    }

    /// Whether every planned recipient has been sent to.
    pub fn is_done(&self) -> (r: bool)
        ensures
            r == (self@.sent == self@.recipients.len()),
    {
        proof {
            assert(self@.recipients.len() == self.recipients@.len());
        }
        self.sent == self.recipients.len()
    }

    /// How many sends have been recorded.
    pub fn sent_count(&self) -> (r: usize)
        ensures
            r == self@.sent,
    {
        self.sent
    }

    /// The planned recipients, in send order.
    pub fn recipients(&self) -> (r: &Vec<String>)
        ensures
            r.deep_view() == self@.recipients,
    {
        &self.recipients
    }
}

/// Authenticates the request and plans the fan-out of one issue: exactly
/// one send per confirmed subscriber whose stored address still parses, in
/// stored order, and none for anyone else. A missing or malformed
/// Authorization header, an unknown username and a wrong password are all
/// rejected before any store read.
pub fn publish_newsletter(store: &Store, body: BodyData, authorization: Option<&[u8]>) -> (r:
    Result<Broadcast, PublishError>)
    requires
        store_wf(store@),
    ensures
        match authorization {
            Option::None => (r matches Err(PublishError::AuthError(a)) && a is Malformed),
            Option::Some(h) => match basic_credentials_of(h@) {
                Option::None => (r matches Err(PublishError::AuthError(a)) && a is Malformed),
                Option::Some(cr) => match cred_lookup(store@, cr.0) {
                    Option::None => (r matches Err(PublishError::AuthError(a))
                        && a is InvalidCredentials),
                    Option::Some(c) => {
                        &&& (r is Ok <==> argon2_accepts(cr.1, c.password_hash))
                        &&& (r matches Ok(b) ==> b@ == (BroadcastModel {
                            title: body.title@,
                            html: body.content.html@,
                            text: body.content.text@,
                            recipients: planned_recipients(store@),
                            sent: 0,
                        }))
                        &&& (r is Err ==> (r matches Err(PublishError::AuthError(a))
                            && a is InvalidCredentials))
                    },
                },
            },
        },
{
    let credentials = match basic_authentication(authorization) {
        Ok(c) => c,
        Err(e) => {
            return Err(PublishError::AuthError(e));
        },
    };
    match validate_credentials(store, &credentials) {
        Ok(_) => {},
        Err(e) => {
            return Err(
                match e {
                    AuthError::Unexpected(m) => PublishError::UnexpectedError(m),
                    other => PublishError::AuthError(other),
                },
            );
        },
    }
    let subscribers = get_confirmed_subscribers(store);
    let ghost cr = confirmed_rows(store@);
    let mut recipients: Vec<String> = Vec::new();
    let mut i: usize = 0;
    while i < subscribers.len()
        invariant
            subscribers@.len() == cr.len(),
            cr == confirmed_rows(store@),
            forall|j: int|
                0 <= j < subscribers@.len() ==> match #[trigger] subscribers@[j] {
                    Ok(cs) => email_is_valid(cr[j].email) && cs.email@ == cr[j].email,
                    Err(m) => !email_is_valid(cr[j].email),
                },
            i <= subscribers@.len(),
            recipients.deep_view() == emails_of(deliverable_of(cr.take(i as int))),
        decreases subscribers@.len() - i,
    {
        let ghost prefix = cr.take(i as int);
        match &subscribers[i] {
            Ok(subscriber) => {
                recipients.push(String::from_str(subscriber.email.as_str()));
            },
            Err(_) => {
                // invalid stored address: skip this recipient only
            },
        }
        i += 1;
        proof {
            let next = cr.take(i as int);
            assert(next.drop_last() =~= prefix);
            assert(next.last() == cr[i - 1]);
            reveal(Seq::filter);
            if email_is_valid(cr[i - 1].email) {
                assert(deliverable_of(next) =~= deliverable_of(prefix).push(cr[i - 1]));
                assert(emails_of(deliverable_of(next)) =~= emails_of(
                    deliverable_of(prefix),
                ).push(cr[i - 1].email));
            } else {
                assert(deliverable_of(next) =~= deliverable_of(prefix));
            }
            assert(recipients.deep_view() =~= emails_of(deliverable_of(next)));
        }
    }
    proof {
        assert(cr.take(cr.len() as int) =~= cr);
    }
    let b = Broadcast { issue: body, recipients, sent: 0 };
    proof {
        assert(b@ =~= (BroadcastModel {
            title: b@.title,
            html: b@.html,
            text: b@.text,
            recipients: planned_recipients(store@),
            sent: 0,
        }));
    }
    Ok(b)
}

} // verus!
