//! Account and contract addresses.
use vstd::prelude::*;

use crate::keymap::KeyEq;

verus! {

/// An account or contract address, held in its text (strkey) form.
/// Two addresses are the same exactly when their texts are equal.
pub struct Addr {
    text: String,
}

impl View for Addr {
    type V = Seq<char>;

    closed spec fn view(&self) -> Seq<char> {
        self.text@
    }
}

impl Addr {
    /// The address written as `text`.
    pub fn new(text: String) -> (a: Addr)
        ensures
            a@ == text@,
    {
        Addr { text }
    }

    /// The address's text form.
    pub fn text(&self) -> (r: &String)
        ensures
            r@ == self@,
    {
        &self.text
    }

    /// Whether `self` and `other` are the same address.
    pub fn same(&self, other: &Addr) -> (r: bool)
        ensures
            r == (self@ == other@),
    {
        self.text.eq(&other.text)
    }
}

/// The views of a sequence of addresses.
pub open spec fn addrs_view(v: Seq<Addr>) -> Seq<Seq<char>> {
    v.map_values(|a: Addr| a@)
}

/// Whether `a` occurs in `v`.
pub fn contains_addr(v: &Vec<Addr>, a: &Addr) -> (r: bool)
    ensures
        r == addrs_view(v@).contains(a@),
{
    let n = v.len();
    let mut i: usize = 0;
    while i < n
        invariant
            n == v@.len(),
            i <= n,
            forall|j: int| 0 <= j < i ==> #[trigger] v@[j]@ != a@,
        decreases n - i,
    {
        if v[i].same(a) {
            proof {
                assert(addrs_view(v@)[i as int] == a@);
            }
            return true;
        }
        i = i + 1;
    }
    proof {
        if addrs_view(v@).contains(a@) {
            let j = choose|j: int| 0 <= j < addrs_view(v@).len() && addrs_view(v@)[j] == a@;
            assert(v@[j]@ == a@);
        }
    }
    false
}

/// Whether no address occurs twice in `v`.
pub fn distinct_addrs(v: &Vec<Addr>) -> (r: bool)
    ensures
        r == addrs_view(v@).no_duplicates(),
{
    let ghost s = addrs_view(v@);
    let n = v.len();
    let mut i: usize = 0;
    while i < n
        invariant
            n == v@.len(),
            s == addrs_view(v@),
            i <= n,
            forall|a: int, b: int| 0 <= a < i && 0 <= b < i && a != b ==> s[a] != s[b],
        decreases n - i,
    {
        let mut j: usize = 0;
        while j < i
            invariant
                n == v@.len(),
                s == addrs_view(v@),
                j <= i < n,
                forall|b: int| 0 <= b < j ==> s[b] != s[i as int],
            decreases i - j,
        {
            if v[j].same(&v[i]) {
                proof {
                    assert(s[j as int] == s[i as int]);
                }
                return false;
            }
            j = j + 1;
        }
        i = i + 1;
    }
    true
}

impl Clone for Addr {
    fn clone(&self) -> (r: Self)
        ensures
            r@ == self@,
    {
        Addr { text: self.text.clone() }
    }
}

impl KeyEq for Addr {
    fn key_eq(&self, other: &Self) -> (r: bool) {
        self.same(other)
    }
}

} // verus!
