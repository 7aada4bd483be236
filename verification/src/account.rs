use vstd::prelude::*;

verus! {

/// An external identity: the raw bytes of its owner principal plus an
/// optional subaccount. Equality is structural.
pub struct AccountId {
    pub owner: Vec<u8>,
    pub subaccount: Option<Vec<u8>>,
}

/// The mathematical value of an account key: the owner bytes and the
/// optional subaccount bytes.
pub type AccountKey = (Seq<u8>, Option<Seq<u8>>);

impl View for AccountId {
    type V = AccountKey;

    open spec fn view(&self) -> AccountKey {
        (
            self.owner@,
            match self.subaccount {
                Some(ref s) => Some(s@),
                None => None,
            },
        )
    }
}

/// Byte-wise equality of two byte vectors, decided by a verified scan.
pub fn bytes_eq(a: &Vec<u8>, b: &Vec<u8>) -> (r: bool)
    ensures
        r == (a@ == b@),
{
    if a.len() != b.len() {
        proof {
            assert(a@ != b@) by {
                assert(a@.len() != b@.len());
            }
        }
        return false;
    }
    let n = a.len();
    let mut i: usize = 0;
    while i < n
        invariant
            i <= n,
            n == a.len(),
            a.len() == b.len(),
            forall|j: int| 0 <= j < i ==> a@[j] == b@[j],
        decreases n - i,
    {
        if a[i] != b[i] {
            return false;
        }
        i += 1;
    }
    proof {
        assert(a@ =~= b@);
    }
    true
}

/// Structural equality of two account identifiers, stated over their views.
pub fn account_eq(a: &AccountId, b: &AccountId) -> (r: bool)
    ensures
        r == (a@ == b@),
{
    let owners_match = bytes_eq(&a.owner, &b.owner);
    if !owners_match {
        return false;
    }
    match (&a.subaccount, &b.subaccount) {
        (None, None) => true,
        (Some(sa), Some(sb)) => bytes_eq(sa, sb),
        _ => false,
    }
}

/// A copy of an account identifier with the same view.
pub fn clone_account(a: &AccountId) -> (r: AccountId)
    ensures
        r@ == a@,
{
    let owner = clone_bytes(&a.owner);
    let subaccount = match &a.subaccount {
        Some(s) => Some(clone_bytes(s)),
        None => None,
    };
    AccountId { owner, subaccount }
}

/// A copy of a byte vector with the same view.
pub fn clone_bytes(a: &Vec<u8>) -> (r: Vec<u8>)
    ensures
        r@ == a@,
{
    let n = a.len();
    let mut r: Vec<u8> = Vec::new();
    let mut i: usize = 0;
    while i < n
        invariant
            i <= n,
            n == a.len(),
            r@ == a@.take(i as int),
        decreases n - i,
    {
        r.push(a[i]);
        proof {
            assert(r@ =~= a@.take(i + 1 as int));
        }
        i += 1;
    }
    proof {
        assert(a@.take(n as int) =~= a@);
    }
    r
}

} // verus!
