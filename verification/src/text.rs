//! Small verified text utilities shared across the crate.

use vstd::prelude::*;
use vstd::string::*;

verus! {

/// Character-by-character equality of two string slices.
pub fn str_eq(a: &str, b: &str) -> (r: bool)
    ensures
        r == (a@ == b@),
{
    let alen = a.unicode_len();
    let blen = b.unicode_len();
    if alen != blen {
        proof {
            if a@ == b@ {
                assert(a@.len() == b@.len());
            }
        }
        return false;
    }
    let mut i: usize = 0;
    while i < alen
        invariant
            alen == a@.len(),
            blen == b@.len(),
            alen == blen,
            i <= alen,
            forall|j: int| 0 <= j < i ==> a@[j] == b@[j],
        decreases alen - i,
    {
        if a.get_char(i) != b.get_char(i) {
            return false;
        }
        i += 1;
    }
    proof {
        assert(a@ =~= b@);
    }
    true
}

/// The rendering of an error and its chain of causes: the error, a blank
/// line, then one `Caused by:` paragraph per cause.
pub open spec fn chain_text(top: Seq<char>, causes: Seq<Seq<char>>) -> Seq<char>
    decreases causes.len(),
{
    if causes.len() == 0 {
        top + "\n\n"@
    } else {
        chain_text(top, causes.drop_last()) + "Caused by:\n\t"@ + causes.last() + "\n"@
    }
}

/// Renders an error and its chain of causes for diagnostics.
pub fn error_chain_fmt(top: &str, causes: &Vec<String>) -> (r: String)
    ensures
        r@ == chain_text(top@, causes.deep_view()),
{
    let mut r = String::from_str(top);
    r.append("\n\n");
    let mut i: usize = 0;
    while i < causes.len()
        invariant
            i <= causes@.len(),
            r@ == chain_text(top@, causes.deep_view().take(i as int)),
        decreases causes@.len() - i,
    {
        let ghost prefix = causes.deep_view().take(i as int);
        r.append("Caused by:\n\t");
        r.append(causes[i].as_str());
        r.append("\n");
        i += 1;
        proof {
            assert(causes.deep_view()[i - 1] == causes@[i - 1]@);
            let next = causes.deep_view().take(i as int);
            assert(next.drop_last() =~= prefix);
            assert(next.last() == causes.deep_view()[i - 1]);
            assert(r@ =~= chain_text(top@, next));
        }
    }
    proof {
        assert(causes.deep_view().take(causes@.len() as int) =~= causes.deep_view());
    }
    r
}

} // verus!
