//! Validated subscriber data: display names and email addresses.
//!
//! A `SubscriberName` or `SubscriberEmail` can only be built through `parse`,
//! so holding one is proof that the contained string passed validation.

use vstd::prelude::*;
use vstd::string::*;

verus! {

// ---------------------------------------------------------------------------
// Subscriber names
// ---------------------------------------------------------------------------

/// Characters that a display name may never contain.
pub open spec fn is_forbidden_name_char(c: char) -> bool {
    ||| c == '/'
    ||| c == '('
    ||| c == ')'
    ||| c == '"'
    ||| c == '<'
    ||| c == '>'
    ||| c == '\\'
    ||| c == '{'
    ||| c == '}'
}

/// The Unicode `White_Space` characters, the set that `str::trim` removes.
pub open spec fn is_whitespace_char(c: char) -> bool {
    let u = c as u32;
    ||| u == 0x09
    ||| u == 0x0A
    ||| u == 0x0B
    ||| u == 0x0C
    ||| u == 0x0D
    ||| u == 0x20
    ||| u == 0x85
    ||| u == 0xA0
    ||| u == 0x1680
    ||| (0x2000 <= u && u <= 0x200A)
    ||| u == 0x2028
    ||| u == 0x2029
    ||| u == 0x202F
    ||| u == 0x205F
    ||| u == 0x3000
}

/// True when the string is empty or consists of whitespace only.
pub open spec fn all_whitespace(s: Seq<char>) -> bool {
    forall|j: int| 0 <= j < s.len() ==> is_whitespace_char(#[trigger] s[j])
}

/// The number of extended grapheme clusters in a string; what the
/// outside segmentation routine counts.
pub uninterp spec fn grapheme_count(s: Seq<char>) -> nat;

/// Relies on unicode_segmentation's `graphemes` iterator: the number of
/// extended grapheme clusters of a string depends on its characters alone.
#[verifier::external_body]
fn count_graphemes(s: &str) -> (n: usize)
    ensures
        n as nat == grapheme_count(s@),
{
    unicode_segmentation::UnicodeSegmentation::graphemes(s, true).count()
}

/// A display name is accepted when, after trimming, it is not empty, it has
/// at most 256 graphemes, and it contains none of the forbidden characters.
pub open spec fn name_is_valid(s: Seq<char>) -> bool {
    &&& !all_whitespace(s)
    &&& grapheme_count(s) <= 256
    &&& forall|j: int| 0 <= j < s.len() ==> !is_forbidden_name_char(#[trigger] s[j])
}

fn char_is_whitespace(c: char) -> (r: bool)
    ensures
        r == is_whitespace_char(c),
{
    let u = c as u32;
    u == 0x09 || u == 0x0A || u == 0x0B || u == 0x0C || u == 0x0D || u == 0x20 || u == 0x85
        || u == 0xA0 || u == 0x1680 || (0x2000 <= u && u <= 0x200A) || u == 0x2028 || u == 0x2029
        || u == 0x202F || u == 0x205F || u == 0x3000
}

fn char_is_forbidden(c: char) -> (r: bool)
    ensures
        r == is_forbidden_name_char(c),
{
    c == '/' || c == '(' || c == ')' || c == '"' || c == '<' || c == '>' || c == '\\' || c == '{'
        || c == '}'
}

/// Decides `name_is_valid` for a candidate display name.
pub fn is_valid_name(s: &str) -> (r: bool)
    ensures
        r == name_is_valid(s@),
{
    let len = s.unicode_len();
    let mut trimmed_empty = true;
    let mut has_forbidden = false;
    let mut i: usize = 0;
    while i < len
        invariant
            len == s@.len(),
            i <= len,
            trimmed_empty == forall|j: int| 0 <= j < i ==> is_whitespace_char(#[trigger] s@[j]),
            has_forbidden == exists|j: int|
                0 <= j < i && is_forbidden_name_char(#[trigger] s@[j]),
        decreases len - i,
    {
        let c = s.get_char(i);
        if !char_is_whitespace(c) {
            trimmed_empty = false;
        }
        if char_is_forbidden(c) {
            has_forbidden = true;
        }
        i += 1;
    }
    if trimmed_empty || has_forbidden {
        return false;
    }
    let graphemes = count_graphemes(s);
    graphemes <= 256
}

/// A display name that passed validation.
pub struct SubscriberName(String);

impl View for SubscriberName {
    type V = Seq<char>;

    closed spec fn view(&self) -> Seq<char> {
        self.0@
    }
}

impl SubscriberName {
    /// Accepts the string when `name_is_valid` holds of it; otherwise hands
    /// back a message naming the rejected input.
    pub fn parse(s: String) -> (r: Result<SubscriberName, String>)
        ensures
            r is Ok <==> name_is_valid(s@),
            r matches Ok(n) ==> n@ == s@,
            r matches Err(m) ==> m@ == s@ + " is not a valid subscriber name"@,
    {
        if is_valid_name(s.as_str()) {
            Ok(SubscriberName(s))
        } else {
            let mut m = s;
            m.append(" is not a valid subscriber name");
            Err(m)
        }
    }

    /// Gives the inner string back, consuming the validated wrapper.
    pub fn inner(self) -> (r: String)
        ensures
            r@ == self@,
    {
        self.0
    }

    /// Borrows the validated name.
    pub fn as_str(&self) -> (r: &str)
        ensures
            r@ == self@,
    {
        self.0.as_str()
    }
}

// ---------------------------------------------------------------------------
// Subscriber email addresses
// ---------------------------------------------------------------------------

/// Characters an address may contain: printable, no whitespace or controls.
pub open spec fn is_email_char(c: char) -> bool {
    (c as u32) > 0x20 && (c as u32) != 0x7F
}

/// The part after the `@`: non-empty, holds at least one dot, and no dot
/// stands at either end or immediately beside another.
pub open spec fn domain_ok(d: Seq<char>) -> bool {
    &&& d.len() >= 1
    &&& d[0] != '.'
    &&& d[d.len() - 1] != '.'
    &&& exists|k: int| 0 <= k < d.len() && #[trigger] d[k] == '.'
    &&& forall|k: int| 0 <= k && k + 1 < d.len() ==> !(#[trigger] d[k] == '.' && d[k + 1] == '.')
}

/// The address splits at `i`: the sole `@` sits there, a non-empty local
/// part stands before it and an acceptable domain after it.
pub open spec fn email_split_ok(s: Seq<char>, i: int) -> bool {
    &&& 1 <= i && i + 2 <= s.len()
    &&& s[i] == '@'
    &&& forall|j: int| 0 <= j < s.len() && j != i ==> #[trigger] s[j] != '@'
    &&& domain_ok(s.subrange(i + 1, s.len() as int))
}

/// An address is accepted when every character is printable and it splits
/// into local part and domain at exactly one `@`.
pub open spec fn email_is_valid(s: Seq<char>) -> bool {
    &&& forall|j: int| 0 <= j < s.len() ==> is_email_char(#[trigger] s[j])
    &&& exists|i: int| email_split_ok(s, i)
}

/// Decides `email_is_valid` for a candidate address.
pub fn is_valid_email(s: &str) -> (r: bool)
    ensures
        r == email_is_valid(s@),
{
    let len = s.unicode_len();
    // One pass: locate the unique `@`, reject a second one, and check that
    // every character is acceptable.
    let mut at: Option<usize> = None;
    let mut ok = true;
    let mut i: usize = 0;
    while i < len
        invariant
            len == s@.len(),
            i <= len,
            ok == forall|j: int| 0 <= j < i ==> is_email_char(#[trigger] s@[j]),
            match at {
                Some(a) => a < i && s@[a as int] == '@' && forall|j: int|
                    0 <= j < i && j != a ==> #[trigger] s@[j] != '@',
                None => forall|j: int| 0 <= j < i ==> #[trigger] s@[j] != '@',
            },
        decreases len - i,
    {
        let c = s.get_char(i);
        let u = c as u32;
        if !(u > 0x20 && u != 0x7F) {
            ok = false;
        }
        if c == '@' {
            match at {
                None => {
                    at = Some(i);
                },
                Some(_) => {
                    // a second `@`: no split index can satisfy `email_split_ok`
                    proof {
                        let a = at.unwrap() as int;
                        assert forall|w: int| !email_split_ok(s@, w) by {
                            if email_split_ok(s@, w) {
                                if w != a {
                                    assert(s@[a] != '@');
                                } else {
                                    assert(s@[i as int] != '@');
                                }
                            }
                        }
                    }
                    return false;
                },
            }
        }
        i += 1;
    }
    if !ok {
        return false;
    }
    let a = match at {
        Some(a) => a,
        None => {
            return false;
        },
    };
    if a < 1 || len - a < 2 {
        proof {
            assert forall|w: int| !email_split_ok(s@, w) by {
                if email_split_ok(s@, w) && w != a {
                    assert(s@[a as int] != '@');
                }
            }
        }
        return false;
    }
    // Check the domain, the characters after the `@`.
    let ghost d = s@.subrange(a + 1, len as int);
    if s.get_char(a + 1) == '.' || s.get_char(len - 1) == '.' {
        proof {
            lemma_no_other_split(s@, a as int);
        }
        return false;
    }
    let mut has_dot = false;
    let mut double_dot = false;
    let mut k: usize = a + 1;
    while k < len
        invariant
            len == s@.len(),
            a + 1 <= k <= len,
            d == s@.subrange(a + 1, len as int),
            has_dot == exists|j: int| a + 1 <= j < k && #[trigger] s@[j] == '.',
            double_dot == exists|j: int|
                a + 1 <= j < k && j + 1 < len && #[trigger] s@[j] == '.' && s@[j + 1] == '.',
        decreases len - k,
    {
        if s.get_char(k) == '.' {
            has_dot = true;
            if k + 1 < len && s.get_char(k + 1) == '.' {
                double_dot = true;
            }
        }
        k += 1;
    }
    proof {
        assert forall|j: int| 0 <= j < d.len() implies d[j] == s@[a + 1 + j] by {}
    }
    if has_dot && !double_dot {
        proof {
            assert(domain_ok(d)) by {
                let j = choose|j: int| a + 1 <= j < len && #[trigger] s@[j] == '.';
                assert(d[j - a - 1] == '.');
                assert forall|k2: int| 0 <= k2 && k2 + 1 < d.len() implies !(#[trigger] d[k2]
                    == '.' && d[k2 + 1] == '.') by {
                    if d[k2] == '.' && d[k2 + 1] == '.' {
                        assert(s@[a + 1 + k2] == '.' && s@[a + 1 + k2 + 1] == '.');
                    }
                }
            }
            assert(email_split_ok(s@, a as int));
        }
        true
    } else {
        proof {
            lemma_no_other_split(s@, a as int);
            if has_dot && double_dot {
                let j = choose|j: int|
                    a + 1 <= j < len && j + 1 < len && #[trigger] s@[j] == '.' && s@[j + 1]
                        == '.';
                assert(!domain_ok(d)) by {
                    if domain_ok(d) {
                        assert(d[j - a - 1] == '.' && d[j - a - 1 + 1] == '.');
                    }
                }
            } else {
                assert(!domain_ok(d)) by {
                    if domain_ok(d) {
                        let j = choose|k2: int| 0 <= k2 < d.len() && #[trigger] d[k2] == '.';
                        assert(s@[a + 1 + j] == '.');
                    }
                }
            }
        }
        false
    }
}

/// When the sole `@` stands at `a`, no other index can witness a split.
proof fn lemma_no_other_split(s: Seq<char>, a: int)
    requires
        0 <= a < s.len(),
        s[a] == '@',
    ensures
        forall|w: int| w != a ==> !email_split_ok(s, w),
{
    assert forall|w: int| w != a implies !email_split_ok(s, w) by {
        if email_split_ok(s, w) {
            assert(s[a] != '@');
        }
    }
}

/// An email address that passed validation.
pub struct SubscriberEmail(String);

impl View for SubscriberEmail {
    type V = Seq<char>;

    closed spec fn view(&self) -> Seq<char> {
        self.0@
    }
}

impl SubscriberEmail {
    /// Accepts the string when `email_is_valid` holds of it; otherwise hands
    /// back a message naming the rejected input.
    pub fn parse(s: String) -> (r: Result<SubscriberEmail, String>)
        ensures
            r is Ok <==> email_is_valid(s@),
            r matches Ok(e) ==> e@ == s@,
            r matches Err(m) ==> m@ == s@ + " is not a valid subscriber email"@,
    {
        if is_valid_email(s.as_str()) {
            Ok(SubscriberEmail(s))
        } else {
            let mut m = s;
            m.append(" is not a valid subscriber email");
            Err(m)
        }
    }

    /// Gives the inner string back, consuming the validated wrapper.
    pub fn inner(self) -> (r: String)
        ensures
            r@ == self@,
    {
        self.0
    }

    /// Borrows the validated address.
    pub fn as_str(&self) -> (r: &str)
        ensures
            r@ == self@,
    {
        self.0.as_str()
    }
}

/// A validated registration request: the intake service builds one from raw
/// form input before anything is persisted.
pub struct NewSubscriber {
    pub email: SubscriberEmail,
    pub name: SubscriberName,
}

} // verus!
