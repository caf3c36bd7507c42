//! The intake service: validates a registration request, drives one atomic
//! transaction against the store, and prepares the confirmation email that
//! is sent only after the transaction committed.

use vstd::prelude::*;
use vstd::slice::slice_index_get;
use vstd::slice::slice_subrange;
use vstd::string::*;
use crate::domain::email_is_valid;
use crate::domain::name_is_valid;
use crate::domain::NewSubscriber;
use crate::domain::SubscriberEmail;
use crate::domain::SubscriberName;
use crate::store::has_subscriber_id;
use crate::store::has_token;
use crate::store::insert_subscriber;
use crate::store::store_token;
use crate::store::store_wf;
use crate::store::subscribe_transition;
use crate::store::txn_covered;
use crate::store::txn_covers;
use crate::store::txn_has_subscriber_id;
use crate::store::txn_has_token;
use crate::store::Store;
use crate::store::StoreError;

verus! {

/// Raw registration input, exactly as the two form fields arrive.
pub struct FormData {
    pub email: String,
    pub name: String,
}

/// Validates raw form input into a `NewSubscriber`: the name first, then
/// the email; the first failure is reported.
pub fn parse_subscriber(form: FormData) -> (r: Result<NewSubscriber, String>)
    ensures
        r is Ok <==> name_is_valid(form.name@) && email_is_valid(form.email@),
        r matches Ok(n) ==> n.name@ == form.name@ && n.email@ == form.email@,
        r matches Err(m) ==> (!name_is_valid(form.name@) && m@ == form.name@
            + " is not a valid subscriber name"@) || (name_is_valid(form.name@)
            && !email_is_valid(form.email@) && m@ == form.email@
            + " is not a valid subscriber email"@),
{
    let name = match SubscriberName::parse(form.name) {
        Ok(n) => n,
        Err(e) => {
            return Err(e);
        },
    };
    let email = match SubscriberEmail::parse(form.email) {
        Ok(e) => e,
        Err(e) => {
            return Err(e);
        },
    };
    Ok(NewSubscriber { email, name })
}

// ---------------------------------------------------------------------------
// Form decoding
// ---------------------------------------------------------------------------

/// The value of a hexadecimal digit, or `None` for any other byte.
pub open spec fn hex_val(b: u8) -> Option<int> {
    if 0x30 <= b <= 0x39 {
        Some((b - 0x30) as int)
    } else if 0x41 <= b <= 0x46 {
        Some((b - 0x41 + 10) as int)
    } else if 0x61 <= b <= 0x66 {
        Some((b - 0x61 + 10) as int)
    } else {
        None
    }
}

pub open spec fn cons_byte(b: u8, rest: Option<Seq<u8>>) -> Option<Seq<u8>> {
    match rest {
        Option::Some(d) => Some(seq![b] + d),
        Option::None => None,
    }
}

/// Percent-decoding of `s` from position `i` on: `+` is a space, `%hh` is
/// the byte the two hex digits spell, everything else stands for itself.
/// `None` when a `%` is not followed by two hex digits.
pub open spec fn pct_decoded_from(s: Seq<u8>, i: int) -> Option<Seq<u8>>
    recommends
        0 <= i <= s.len(),
    decreases s.len() - i,
{
    if i < 0 || i >= s.len() {
        Some(Seq::empty())
    } else if s[i] == 0x2B {
        cons_byte(0x20, pct_decoded_from(s, i + 1))
    } else if s[i] == 0x25 {
        if i + 3 <= s.len() {
            match (hex_val(s[i + 1]), hex_val(s[i + 2])) {
                (Option::Some(h), Option::Some(l)) => cons_byte(
                    (h * 16 + l) as u8,
                    pct_decoded_from(s, i + 3),
                ),
                _ => None,
            }
        } else {
            None
        }
    } else {
        cons_byte(s[i], pct_decoded_from(s, i + 1))
    }
}

pub open spec fn pct_decoded(s: Seq<u8>) -> Option<Seq<u8>> {
    pct_decoded_from(s, 0)
}

/// A percent-decoded value as text: the decoded bytes, read as UTF-8.
pub open spec fn decoded_value(v: Seq<u8>) -> Option<Seq<char>> {
    match pct_decoded(v) {
        Option::Some(d) => if vstd::utf8::valid_utf8(d) {
            Some(vstd::utf8::decode_utf8(d))
        } else {
            None
        },
        Option::None => None,
    }
}

/// `i` is the first occurrence of `b` in `s`.
pub open spec fn first_byte_at(s: Seq<u8>, b: u8, i: int) -> bool {
    &&& 0 <= i < s.len()
    &&& s[i] == b
    &&& forall|j: int| 0 <= j < i ==> #[trigger] s[j] != b
}

/// The first occurrence is unique: no other index can witness it.
proof fn lemma_first_byte_unique(s: Seq<u8>, b: u8, a: int)
    requires
        first_byte_at(s, b, a),
    ensures
        forall|w: int| w != a ==> !first_byte_at(s, b, w),
{
    assert forall|w: int| w != a implies !first_byte_at(s, b, w) by {
        if first_byte_at(s, b, w) {
            if w < a {
                assert(s[w] != b);
            } else {
                assert(s[a] != b);
            }
        }
    }
}

pub open spec fn name_key() -> Seq<u8> {
    seq![0x6Eu8, 0x61u8, 0x6Du8, 0x65u8]
}

pub open spec fn email_key() -> Seq<u8> {
    seq![0x65u8, 0x6Du8, 0x61u8, 0x69u8, 0x6Cu8]
}

/// The key/value split of one `key=value` segment, at its first `=`. The
/// value may itself contain `=`.
pub open spec fn pair_of(seg: Seq<u8>) -> Option<(Seq<u8>, Seq<u8>)> {
    if exists|j: int| first_byte_at(seg, 0x3D, j) {
        let j = choose|j: int| first_byte_at(seg, 0x3D, j);
        Some((seg.subrange(0, j), seg.skip(j + 1)))
    } else {
        None
    }
}

/// The (email, name) pair a registration body carries, when it is exactly
/// two `&`-separated `key=value` segments with the raw keys `name` and
/// `email`, in either order, whose percent-decoded values are UTF-8.
pub open spec fn parse_form_spec(s: Seq<u8>) -> Option<(Seq<char>, Seq<char>)> {
    if exists|i: int| first_byte_at(s, 0x26, i) {
        let i = choose|i: int| first_byte_at(s, 0x26, i);
        let seg0 = s.subrange(0, i);
        let seg1 = s.skip(i + 1);
        if exists|j: int| 0 <= j < seg1.len() && #[trigger] seg1[j] == 0x26 {
            None
        } else {
            match (pair_of(seg0), pair_of(seg1)) {
                (Option::Some(p0), Option::Some(p1)) => {
                    if p0.0 == name_key() && p1.0 == email_key() {
                        match (decoded_value(p1.1), decoded_value(p0.1)) {
                            (Option::Some(email), Option::Some(name)) => Some((email, name)),
                            _ => None,
                        }
                    } else if p0.0 == email_key() && p1.0 == name_key() {
                        match (decoded_value(p0.1), decoded_value(p1.1)) {
                            (Option::Some(email), Option::Some(name)) => Some((email, name)),
                            _ => None,
                        }
                    } else {
                        None
                    }
                },
                _ => None,
            }
        }
    } else {
        None
    }
}

fn find_byte(s: &[u8], from: usize, b: u8) -> (r: Option<usize>)
    requires
        from <= s@.len(),
    ensures
        match r {
            Option::Some(i) => from <= i < s@.len() && s@[i as int] == b && forall|j: int|
                from <= j < i ==> #[trigger] s@[j] != b,
            Option::None => forall|j: int| from <= j < s@.len() ==> #[trigger] s@[j] != b,
        },
{
    let mut i = from;
    while i < s.len()
        invariant
            from <= i <= s@.len(),
            forall|j: int| from <= j < i ==> #[trigger] s@[j] != b,
        decreases s@.len() - i,
    {
        if *slice_index_get(s, i) == b {
            return Some(i);
        }
        i += 1;
    }
    None
}

fn hex_digit(b: u8) -> (r: Option<u8>)
    ensures
        match r {
            Option::Some(v) => hex_val(b) == Some(v as int) && v < 16,
            Option::None => hex_val(b) is None,
        },
{
    if 0x30 <= b && b <= 0x39 {
        Some(b - 0x30)
    } else if 0x41 <= b && b <= 0x46 {
        Some(b - 0x41 + 10)
    } else if 0x61 <= b && b <= 0x66 {
        Some(b - 0x61 + 10)
    } else {
        None
    }
}

fn percent_decode(seg: &[u8]) -> (r: Option<Vec<u8>>)
    ensures
        match r {
            Option::Some(v) => pct_decoded(seg@) == Some(v@),
            Option::None => pct_decoded(seg@) is None,
        },
{
    let mut out: Vec<u8> = Vec::new();
    let mut i: usize = 0;
    while i < seg.len()
        invariant
            i <= seg@.len(),
            pct_decoded(seg@) == (match pct_decoded_from(seg@, i as int) {
                Option::Some(d) => Some(out@ + d),
                Option::None => None::<Seq<u8>>,
            }),
        decreases seg@.len() - i,
    {
        let ghost i0 = i as int;
        let ghost out0 = out@;
        let b = *slice_index_get(seg, i);
        if b == 0x2B {
            out.push(0x20);
            i += 1;
            proof {
                if pct_decoded_from(seg@, i as int) is Some {
                    let d = pct_decoded_from(seg@, i as int)->Some_0;
                    assert(out0 + (seq![0x20u8] + d) =~= out@ + d);
                }
            }
        } else if b == 0x25 {
            if seg.len() - i >= 3 {
                let h = hex_digit(*slice_index_get(seg, i + 1));
                let l = hex_digit(*slice_index_get(seg, i + 2));
                match (h, l) {
                    (Some(hv), Some(lv)) => {
                        let decoded: u8 = hv * 16 + lv;
                        out.push(decoded);
                        i += 3;
                        proof {
                            if pct_decoded_from(seg@, i as int) is Some {
                                let d = pct_decoded_from(seg@, i as int)->Some_0;
                                assert(out0 + (seq![decoded] + d) =~= out@ + d);
                            }
                        }
                    },
                    _ => {
                        return None;
                    },
                }
            } else {
                return None;
            }
        } else {
            out.push(b);
            i += 1;
            proof {
                if pct_decoded_from(seg@, i as int) is Some {
                    let d = pct_decoded_from(seg@, i as int)->Some_0;
                    assert(out0 + (seq![b] + d) =~= out@ + d);
                }
            }
        }
    }
    proof {
        assert(out@ + Seq::<u8>::empty() =~= out@);
    }
    Some(out)
}

fn is_name_key(seg: &[u8]) -> (r: bool)
    ensures
        r == (seg@ == name_key()),
{
    if seg.len() != 4 {
        proof {
            if seg@ == name_key() {
                assert(seg@.len() == 4);
            }
        }
        return false;
    }
    let r = *slice_index_get(seg, 0) == 0x6E && *slice_index_get(seg, 1) == 0x61
        && *slice_index_get(seg, 2) == 0x6D && *slice_index_get(seg, 3) == 0x65;
    proof {
        if r {
            assert(seg@ =~= name_key());
        } else if seg@ == name_key() {
            assert(seg@[0] == 0x6E && seg@[1] == 0x61 && seg@[2] == 0x6D && seg@[3] == 0x65);
        }
    }
    r
}

fn is_email_key(seg: &[u8]) -> (r: bool)
    ensures
        r == (seg@ == email_key()),
{
    if seg.len() != 5 {
        proof {
            if seg@ == email_key() {
                assert(seg@.len() == 5);
            }
        }
        return false;
    }
    let r = *slice_index_get(seg, 0) == 0x65 && *slice_index_get(seg, 1) == 0x6D
        && *slice_index_get(seg, 2) == 0x61 && *slice_index_get(seg, 3) == 0x69
        && *slice_index_get(seg, 4) == 0x6C;
    proof {
        if r {
            assert(seg@ =~= email_key());
        } else if seg@ == email_key() {
            assert(seg@[0] == 0x65 && seg@[1] == 0x6D && seg@[2] == 0x61 && seg@[3] == 0x69
                && seg@[4] == 0x6C);
        }
    }
    r
}

fn split_pair<'a>(seg: &'a [u8]) -> (r: Option<(&'a [u8], &'a [u8])>)
    ensures
        match r {
            Option::Some(p) => pair_of(seg@) == Some((p.0@, p.1@)),
            Option::None => pair_of(seg@) is None,
        },
{
    match find_byte(seg, 0, 0x3D) {
        Some(j) => {
            proof {
                assert(first_byte_at(seg@, 0x3D, j as int));
                lemma_first_byte_unique(seg@, 0x3D, j as int);
            }
            let n = seg.len();
            let k = slice_subrange(seg, 0, j);
            let v = slice_subrange(seg, j + 1, n);
            proof {
                assert(v@ =~= seg@.skip(j + 1));
            }
            Some((k, v))
        },
        None => {
            proof {
                assert forall|j: int| !first_byte_at(seg@, 0x3D, j) by {
                    if first_byte_at(seg@, 0x3D, j) {
                        assert(seg@[j] != 0x3D);
                    }
                }
            }
            None
        },
    }
}

fn decode_field(v: &[u8]) -> (r: Option<String>)
    ensures
        match r {
            Option::Some(s) => decoded_value(v@) == Some(s@),
            Option::None => decoded_value(v@) is None,
        },
{
    match percent_decode(v) {
        Some(bytes) => {
            let ghost decoded = bytes@;
            match crate::authentication::utf8_to_string(bytes) {
                Some(s) => Some(s),
                None => None,
            }
        },
        None => None,
    }
}

/// Decodes a registration request body: exactly two `&`-separated
/// `key=value` segments with the raw keys `name` and `email`, in either
/// order, percent-decoded (`+` as space) and read as UTF-8. The fields are
/// handed back raw; validation is `subscribe`'s job.
pub fn parse_form_data(body: &[u8]) -> (r: Option<FormData>)
    ensures
        match parse_form_spec(body@) {
            Option::Some(p) => r matches Some(f) && f.email@ == p.0 && f.name@ == p.1,
            Option::None => r is None,
        },
{
    let amp = match find_byte(body, 0, 0x26) {
        Some(a) => a,
        None => {
            proof {
                assert forall|i: int| !first_byte_at(body@, 0x26, i) by {
                    if first_byte_at(body@, 0x26, i) {
                        assert(body@[i] != 0x26);
                    }
                }
            }
            return None;
        },
    };
    proof {
        assert(first_byte_at(body@, 0x26, amp as int));
        lemma_first_byte_unique(body@, 0x26, amp as int);
    }
    let n = body.len();
    let ghost spec_seg1 = body@.skip(amp + 1);
    match find_byte(body, amp + 1, 0x26) {
        Some(a2) => {
            proof {
                assert(spec_seg1[a2 - amp - 1] == 0x26);
            }
            return None;
        },
        None => {
            proof {
                assert forall|j: int| 0 <= j < spec_seg1.len() implies #[trigger] spec_seg1[j]
                    != 0x26 by {
                    assert(spec_seg1[j] == body@[amp + 1 + j]);
                }
            }
        },
    }
    let seg0 = slice_subrange(body, 0, amp);
    let seg1 = slice_subrange(body, amp + 1, n);
    proof {
        assert(seg1@ =~= spec_seg1);
    }
    let (k0, v0) = match split_pair(seg0) {
        Some(p) => p,
        None => {
            return None;
        },
    };
    let (k1, v1) = match split_pair(seg1) {
        Some(p) => p,
        None => {
            return None;
        },
    };
    if is_name_key(k0) && is_email_key(k1) {
        let email = match decode_field(v1) {
            Some(e) => e,
            None => {
                return None;
            },
        };
        let name = match decode_field(v0) {
            Some(n) => n,
            None => {
                return None;
            },
        };
        Some(FormData { email, name })
    } else if is_email_key(k0) && is_name_key(k1) {
        let email = match decode_field(v0) {
            Some(e) => e,
            None => {
                return None;
            },
        };
        let name = match decode_field(v1) {
            Some(n) => n,
            None => {
                return None;
            },
        };
        Some(FormData { email, name })
    } else {
        None
    }
}

// ---------------------------------------------------------------------------
// Subscription tokens
// ---------------------------------------------------------------------------

/// A token character: URL-safe alphanumeric ASCII.
pub open spec fn is_token_char(c: char) -> bool {
    ||| 0x61 <= (c as u32) <= 0x7A  // 'a' ..= 'z'
    ||| 0x41 <= (c as u32) <= 0x5A  // 'A' ..= 'Z'
    ||| 0x30 <= (c as u32) <= 0x39  // '0' ..= '9'
}

/// A well-formed subscription token: 25 alphanumeric characters.
pub open spec fn token_wf(t: Seq<char>) -> bool {
    t.len() == 25 && forall|i: int| 0 <= i < t.len() ==> is_token_char(#[trigger] t[i])
}

/// Relies on rand's `Alphanumeric` distribution, sampled from the thread's
/// cryptographically seeded generator: every sample is one of `A`-`Z`,
/// `a`-`z`, `0`-`9`. Nothing else can be promised of a random draw.
#[verifier::external_body]
fn sample_alphanumeric() -> (c: String)
    ensures
        c@.len() == 1,
        is_token_char(c@[0]),
{
    let b: u8 = rand::Rng::sample(&mut rand::thread_rng(), rand::distributions::Alphanumeric);
    String::from(char::from(b))
}

/// Draws a fresh 25-character alphanumeric token.
pub fn generate_subscription_token() -> (t: String)
    ensures
        token_wf(t@),
{
    let mut t = String::new();
    let mut i: usize = 0;
    while i < 25
        invariant
            t@.len() == i,
            i <= 25,
            forall|j: int| 0 <= j < i ==> is_token_char(#[trigger] t@[j]),
        decreases 25 - i,
    {
        let c = sample_alphanumeric();
        t.append(c.as_str());
        i += 1;
    }
    t
}

/// Relies on uuid's `Uuid::new_v4` for a fresh random subscriber id;
/// nothing can be promised of a random draw.
#[verifier::external_body]
fn fresh_subscriber_id() -> (id: u128) {
    uuid::Uuid::new_v4().as_u128()
}

/// Relies on chrono's `Utc::now` for the subscription timestamp; nothing
/// can be promised of the clock.
#[verifier::external_body]
fn now_timestamp_millis() -> (t: i64) {
    chrono::Utc::now().timestamp_millis()
}

// ---------------------------------------------------------------------------
// The confirmation email
// ---------------------------------------------------------------------------

/// The link a new subscriber must visit to confirm the address.
pub open spec fn confirmation_link(base_url: Seq<char>, token: Seq<char>) -> Seq<char> {
    base_url + "/subscriptions/confirm?subscription_token="@ + token
}

pub open spec fn confirmation_text_body(link: Seq<char>) -> Seq<char> {
    "Welcome to our newsletter!\nVisit "@ + link + " to confirm your subscription."@
}

pub open spec fn confirmation_html_body(link: Seq<char>) -> Seq<char> {
    "Welcome to our newsletter!<br />Click <a href=\""@ + link
        + "\">here</a> to confirm your subscription."@
}

/// The confirmation email, ready for the transport: built by the library,
/// sent by the caller only after the transaction committed.
pub struct ConfirmationEmail {
    pub to: String,
    pub subject: String,
    pub html_body: String,
    pub text_body: String,
}

/// Builds the confirmation email for a new subscriber.
pub fn build_confirmation_email(email: &SubscriberEmail, base_url: &str, token: &str) -> (e:
    ConfirmationEmail)
    ensures
        e.to@ == email@,
        e.subject@ == "Welcome!"@,
        e.html_body@ == confirmation_html_body(confirmation_link(base_url@, token@)),
        e.text_body@ == confirmation_text_body(confirmation_link(base_url@, token@)),
{
    let mut link = String::from_str(base_url);
    link.append("/subscriptions/confirm?subscription_token=");
    link.append(token);
    let mut text = String::from_str("Welcome to our newsletter!\nVisit ");
    text.append(link.as_str());
    text.append(" to confirm your subscription.");
    let mut html = String::from_str("Welcome to our newsletter!<br />Click <a href=\"");
    html.append(link.as_str());
    html.append("\">here</a> to confirm your subscription.");
    ConfirmationEmail {
        to: String::from_str(email.as_str()),
        subject: String::from_str("Welcome!"),
        html_body: html,
        text_body: text,
    }
}

// ---------------------------------------------------------------------------
// Errors
// ---------------------------------------------------------------------------

/// What can go wrong while registering a subscriber.
#[derive(Debug)]
pub enum SubscribeError {
    /// The name or the address was rejected; carries the reason.
    ValidationError(String),
    /// A store operation failed; the subscriber was not persisted.
    UnexpectedError(StoreError),
    /// The subscriber was persisted, but the confirmation email could not
    /// be delivered; carries the transport's reason.
    ConfirmationDeliveryFailed(String),
}

impl SubscribeError {
    /// The HTTP status this failure is surfaced as: a validation failure
    /// is the client's, everything else is a server error.
    pub fn status_code(&self) -> (r: u16)
        ensures
            self is ValidationError ==> r == 400,
            !(self is ValidationError) ==> r == 500,
    {
        match self {
            SubscribeError::ValidationError(_) => 400,
            SubscribeError::UnexpectedError(_) => 500,
            SubscribeError::ConfirmationDeliveryFailed(_) => 500,
        }
    }

    /// A short human-readable description.
    pub fn message(&self) -> (r: String)
        ensures
            self matches SubscribeError::ValidationError(m) ==> r@ == m@,
            self is UnexpectedError ==> r@ == "failed to create a new subscriber"@,
            self is ConfirmationDeliveryFailed ==> r@
                == "failed to send a confirmation email"@,
    {
        match self {
            SubscribeError::ValidationError(m) => m.clone(),
            SubscribeError::UnexpectedError(_) => String::from_str(
                "failed to create a new subscriber",
            ),
            SubscribeError::ConfirmationDeliveryFailed(_) => String::from_str(
                "failed to send a confirmation email",
            ),
        }
    }
}

// ---------------------------------------------------------------------------
// The subscribe flow
// ---------------------------------------------------------------------------

/// What a successful registration hands back: the issued identifiers and
/// the confirmation email still to be sent.
pub struct SubscribeReceipt {
    pub subscriber_id: u128,
    pub token: String,
    pub subscribed_at: i64,
    pub email: ConfirmationEmail,
}

/// Registers a subscriber: validates, then inserts the subscriber and its
/// token in one transaction. Nothing is persisted on any failure; on
/// success the caller still has to send `email` — delivery is deliberately
/// outside the transaction.
pub fn subscribe(store: &mut Store, form: FormData, base_url: &str) -> (r: Result<
    SubscribeReceipt,
    SubscribeError,
>)
    requires
        store_wf(old(store)@),
    ensures
        store_wf(final(store)@),
        r matches Err(SubscribeError::ValidationError(_)) <==> !(name_is_valid(form.name@)
            && email_is_valid(form.email@)),
        r is Err ==> final(store)@ == old(store)@,
        r is Err ==> (r matches Err(SubscribeError::ValidationError(_)) || r matches Err(
            SubscribeError::UnexpectedError(StoreError::ConstraintViolation),
        )),
        // a collision needs something to collide with: on a store that
        // already holds no row, success is owed for valid input
        r matches Err(SubscribeError::UnexpectedError(_)) ==> old(store)@.subscribers.len() > 0
            || old(store)@.tokens.len() > 0,
        name_is_valid(form.name@) && email_is_valid(form.email@) && old(
            store,
        )@.subscribers.len() == 0 && old(store)@.tokens.len() == 0 ==> r is Ok,
        r matches Ok(rc) ==> {
            &&& token_wf(rc.token@)
            &&& !has_subscriber_id(old(store)@, rc.subscriber_id)
            &&& !has_token(old(store)@, rc.token@)
            &&& final(store)@ == subscribe_transition(
                old(store)@,
                rc.subscriber_id,
                form.email@,
                form.name@,
                rc.subscribed_at,
                rc.token@,
            )
            &&& rc.email.to@ == form.email@
            &&& rc.email.subject@ == "Welcome!"@
            &&& rc.email.html_body@ == confirmation_html_body(
                confirmation_link(base_url@, rc.token@),
            )
            &&& rc.email.text_body@ == confirmation_text_body(
                confirmation_link(base_url@, rc.token@),
            )
        },
{
    let new_subscriber = match parse_subscriber(form) {
        Ok(n) => n,
        Err(e) => {
            return Err(SubscribeError::ValidationError(e));
        },
    };
    let subscriber_id = fresh_subscriber_id();
    let subscribed_at = now_timestamp_millis();
    let token = generate_subscription_token();
    let mut txn = store.begin();
    match insert_subscriber(store, &mut txn, &new_subscriber, subscriber_id, subscribed_at) {
        Ok(_) => {},
        Err(e) => {
            // only an id already present can be the cause: the fresh
            // transaction stages nothing yet
            proof {
                assert(!txn_has_subscriber_id(txn@, subscriber_id));
                assert(has_subscriber_id(store@, subscriber_id));
            }
            return Err(SubscribeError::UnexpectedError(e));
        },
    }
    proof {
        assert(txn@.subscribers[0].id == subscriber_id);
        assert(txn_has_subscriber_id(txn@, subscriber_id));
    }
    match store_token(store, &mut txn, subscriber_id, token.as_str()) {
        Ok(_) => {},
        Err(e) => {
            // the owner is staged and the transaction holds no token yet,
            // so only a token already present can be the cause
            proof {
                assert(!txn_has_token(txn@, token@));
                assert(has_token(store@, token@));
            }
            return Err(SubscribeError::UnexpectedError(e));
        },
    }
    proof {
        assert(txn@.tokens[0].subscriber_id == txn@.subscribers[0].id);
        assert(txn_covers(txn@, txn@.subscribers[0].id));
        assert(txn_covered(txn@));
    }
    let ghost m0 = store@;
    store.commit(txn);
    proof {
        assert(store@.subscribers =~= m0.subscribers.push(store@.subscribers.last()));
        assert(store@ =~= subscribe_transition(
            m0,
            subscriber_id,
            new_subscriber.email@,
            new_subscriber.name@,
            subscribed_at,
            token@,
        ));
    }
    let email = build_confirmation_email(&new_subscriber.email, base_url, token.as_str());
    Ok(SubscribeReceipt { subscriber_id, token, subscribed_at, email })
}

} // verus!
