//! Account identifiers: the textual (strkey) form of an on-chain address.
use vstd::prelude::*;

verus! {

/// An on-chain address, held as the bytes of its textual (strkey) encoding.
/// Two accounts are the same exactly when their encodings are equal.
pub struct Account {
    pub id: Vec<u8>,
}

impl View for Account {
    type V = Seq<u8>;

    open spec fn view(&self) -> Seq<u8> {
        self.id@
    }
}

impl Account {
    /// Builds an account from the bytes of its textual encoding.
    pub fn from_bytes(bytes: Vec<u8>) -> (r: Account)
        ensures
            r@ == bytes@,
    {
        Account { id: bytes }
    }

    /// The bytes of the textual encoding.
    pub fn as_bytes(&self) -> (r: &Vec<u8>)
        ensures
            r@ == self@,
    {
        &self.id
    }

    /// Whether `self` and `other` denote the same address.
    pub fn same_as(&self, other: &Account) -> (r: bool)
        ensures
            r == (self@ == other@),
    {
        let n = self.id.len();
        if n != other.id.len() {
            return false;
        }
        let mut i: usize = 0;
        while i < n
            invariant
                n == self.id@.len(),
                n == other.id@.len(),
                i <= n,
                forall|j: int| 0 <= j < i ==> self.id@[j] == other.id@[j],
            decreases n - i,
        {
            if self.id[i] != other.id[i] {
                return false;
            }
            i = i + 1;
        }
        assert(self.id@ =~= other.id@);
        true
    }

    /// An independent copy of this account.
    pub fn duplicate(&self) -> (r: Account)
        ensures
            r@ == self@,
    {
        Account { id: self.id.clone() }
    }
}


/// Whether no address occurs twice in `accounts`.
pub fn distinct_accounts(accounts: &Vec<Account>) -> (r: bool)
    ensures
        r == accounts@.map_values(|a: Account| a@).no_duplicates(),
{
    let ghost s = accounts@.map_values(|a: Account| a@);
    let n = accounts.len();
    let mut i: usize = 0;
    while i < n
        invariant
            n == accounts@.len(),
            s == accounts@.map_values(|a: Account| a@),
            i <= n,
            forall|a: int, b: int| 0 <= a < i && a < b < n ==> s[a] != s[b],
        decreases n - i,
    {
        let mut j: usize = i + 1;
        while j < n
            invariant
                n == accounts@.len(),
                s == accounts@.map_values(|a: Account| a@),
                i < n,
                i + 1 <= j <= n,
                forall|a: int, b: int| 0 <= a < i && a < b < n ==> s[a] != s[b],
                forall|b: int| i < b < j ==> s[i as int] != s[b],
            decreases n - j,
        {
            if accounts[i].same_as(&accounts[j]) {
                assert(s[i as int] == s[j as int]);
                return false;
            }
            j = j + 1;
        }
        i = i + 1;
    }
    assert forall|a: int, b: int| 0 <= a < s.len() && 0 <= b < s.len() && a != b implies s[a]
        != s[b] by {
        if a < b {
        } else {
        }
    }
    true
}

/// In a sequence without repetitions, an element's position is the one it
/// stands at.
pub proof fn lemma_index_of_distinct(s: Seq<Seq<u8>>, i: int)
    requires
        s.no_duplicates(),
        0 <= i < s.len(),
    ensures
        s.contains(s[i]),
        s.index_of(s[i]) == i,
{
    assert(0 <= i < s.len() && s[i] == s[i]);
    let j = s.index_of(s[i]);
    assert(0 <= j < s.len() && s[j] == s[i]);
}

} // verus!
