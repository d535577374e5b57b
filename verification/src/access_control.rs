//! Role-based access control for the attestation contract.
//!
//! Each address holds a bitmap of roles (ADMIN, ATTESTOR, BUSINESS,
//! OPERATOR); no role is held by default. The list of role holders names
//! every address that holds at least one role, each once. A pause flag
//! blocks sensitive operations.
use vstd::prelude::*;
use vstd::string::StrSliceExecFns;
use crate::store::Store;
use crate::types::Address;

verus! {

/// Full protocol control; may assign and revoke all roles.
pub const ROLE_ADMIN: u32 = 1;

/// May submit attestations on behalf of businesses.
pub const ROLE_ATTESTOR: u32 = 2;

/// May submit its own attestations.
pub const ROLE_BUSINESS: u32 = 4;

/// May perform routine operations (pause, unpause).
pub const ROLE_OPERATOR: u32 = 8;

/// Why an access check failed.
#[derive(Clone, Copy, Debug, PartialEq, Eq, Structural)]
pub enum AccessError {
    NotAdmin,
    NotAttestor,
    NotBusiness,
    NotOperator,
    NotAdminOrAttestor,
    ContractPaused,
}

/// Equality of two string slices, character by character.
pub fn str_eq(a: &str, b: &str) -> (r: bool)
    ensures
        r == (a@ == b@),
{
    let n = a.unicode_len();
    let m = b.unicode_len();
    if n != m {
        return false;
    }
    let mut i: usize = 0;
    while i < n
        invariant
            i <= n,
            n == a@.len(),
            m == b@.len(),
            n == m,
            forall|j: int| 0 <= j < i ==> a@[j] == b@[j],
        decreases n - i,
    {
        if a.get_char(i) != b.get_char(i) {
            return false;
        }
        i = i + 1;
    }
    assert(a@ =~= b@);
    true
}

/// The role bit named by `name`, or 0 for an unknown name.
pub open spec fn spec_role_from_name(name: Seq<char>) -> u32 {
    if name == "ADMIN"@ {
        ROLE_ADMIN
    } else if name == "ATTESTOR"@ {
        ROLE_ATTESTOR
    } else if name == "BUSINESS"@ {
        ROLE_BUSINESS
    } else if name == "OPERATOR"@ {
        ROLE_OPERATOR
    } else {
        0
    }
}

/// Parse a role name into its bit flag; 0 for unknown names.
pub fn role_from_name(name: &str) -> (r: u32)
    ensures
        r == spec_role_from_name(name@),
{
    if str_eq(name, "ADMIN") {
        ROLE_ADMIN
    } else if str_eq(name, "ATTESTOR") {
        ROLE_ATTESTOR
    } else if str_eq(name, "BUSINESS") {
        ROLE_BUSINESS
    } else if str_eq(name, "OPERATOR") {
        ROLE_OPERATOR
    } else {
        0
    }
}

/// Names of the roles set in `roles`, in the order ADMIN, ATTESTOR,
/// BUSINESS, OPERATOR.
pub open spec fn spec_role_names(roles: u32) -> Seq<Seq<char>> {
    (if roles & ROLE_ADMIN != 0 {
        seq!["ADMIN"@]
    } else {
        Seq::empty()
    }) + (if roles & ROLE_ATTESTOR != 0 {
        seq!["ATTESTOR"@]
    } else {
        Seq::empty()
    }) + (if roles & ROLE_BUSINESS != 0 {
        seq!["BUSINESS"@]
    } else {
        Seq::empty()
    }) + (if roles & ROLE_OPERATOR != 0 {
        seq!["OPERATOR"@]
    } else {
        Seq::empty()
    })
}

/// Human-readable names of the roles in a bitmap.
pub fn role_names(roles: u32) -> (r: Vec<String>)
    ensures
        r@.map_values(|s: String| s@) == spec_role_names(roles),
{
    let mut names: Vec<String> = Vec::new();
    let ghost mut expect: Seq<Seq<char>> = Seq::empty();
    if roles & ROLE_ADMIN != 0 {
        names.push(String::from_str("ADMIN"));
    }
    proof {
        expect = if roles & ROLE_ADMIN != 0 { seq!["ADMIN"@] } else { Seq::empty() };
    }
    assert(names@.map_values(|s: String| s@) =~= expect);
    if roles & ROLE_ATTESTOR != 0 {
        names.push(String::from_str("ATTESTOR"));
    }
    proof {
        expect = expect + if roles & ROLE_ATTESTOR != 0 { seq!["ATTESTOR"@] } else { Seq::empty() };
    }
    assert(names@.map_values(|s: String| s@) =~= expect);
    if roles & ROLE_BUSINESS != 0 {
        names.push(String::from_str("BUSINESS"));
    }
    proof {
        expect = expect + if roles & ROLE_BUSINESS != 0 { seq!["BUSINESS"@] } else { Seq::empty() };
    }
    assert(names@.map_values(|s: String| s@) =~= expect);
    if roles & ROLE_OPERATOR != 0 {
        names.push(String::from_str("OPERATOR"));
    }
    proof {
        expect = expect + if roles & ROLE_OPERATOR != 0 { seq!["OPERATOR"@] } else { Seq::empty() };
    }
    assert(names@.map_values(|s: String| s@) =~= expect);
    names
}

/// The predicate "differs from `a`".
pub open spec fn other_than(a: Address) -> spec_fn(Address) -> bool {
    |h: Address| h != a
}

/// Access-control storage.
pub struct AccessControl {
    roles: Store<u64, u32>,
    holders: Vec<Address>,
    paused: bool,
}

impl AccessControl {
    /// Role bitmap of an address (0 when none was stored).
    pub closed spec fn roles_of(&self, a: Address) -> u32 {
        if self.roles@.contains_key(a) {
            self.roles@[a]
        } else {
            0
        }
    }

    pub closed spec fn spec_holders(&self) -> Seq<Address> {
        self.holders@
    }

    pub closed spec fn spec_paused(&self) -> bool {
        self.paused
    }

    /// Invariant: the holder list has no duplicates and names exactly the
    /// addresses with a non-empty role bitmap.
    pub open spec fn wf(&self) -> bool {
        &&& self.spec_holders().no_duplicates()
        &&& forall|a: Address| #[trigger]
            self.spec_holders().contains(a) <==> self.roles_of(a) != 0
    }

    /// Empty access-control storage: no roles, not paused.
    pub fn new() -> (r: Self)
        ensures
            r.wf(),
            forall|a: Address| r.roles_of(a) == 0,
            r.spec_holders() == Seq::<Address>::empty(),
            !r.spec_paused(),
    {
        AccessControl { roles: Store::new(), holders: Vec::new(), paused: false }
    }

    /// Role bitmap of an address; 0 if none assigned.
    pub fn get_roles(&self, account: Address) -> (r: u32)
        ensures
            r == self.roles_of(account),
    {
        match self.roles.get(&account) {
            Some(r) => *r,
            None => 0,
        }
    }

    /// `after` is `self` with the role bitmap of `account` set to `roles`.
    pub open spec fn roles_set_to(&self, after: &Self, account: Address, roles: u32) -> bool {
        &&& forall|a: Address| #[trigger]
            after.roles_of(a) == if a == account {
                roles
            } else {
                self.roles_of(a)
            }
        &&& after.spec_holders() == if roles == 0 {
            self.spec_holders().filter(other_than(account))
        } else if self.spec_holders().contains(account) {
            self.spec_holders()
        } else {
            self.spec_holders().push(account)
        }
        &&& after.spec_paused() == self.spec_paused()
    }

    /// Set the role bitmap of an address and keep the holder list in step:
    /// an address with no roles leaves the list, one with roles joins it.
    pub fn set_roles(&mut self, account: Address, roles: u32)
        requires
            old(self).wf(),
        ensures
            final(self).wf(),
            old(self).roles_set_to(&*final(self), account, roles),
    {
        let ghost old_self = *self;
        self.roles.set(account, roles);
        if roles == 0 {
            let mut new_holders: Vec<Address> = Vec::new();
            let mut i: usize = 0;
            let ghost pred = other_than(account);
            while i < self.holders.len()
                invariant
                    i <= self.holders@.len(),
                    self.holders@ == old_self.holders@,
                    new_holders@ == self.holders@.subrange(0, i as int).filter(pred),
                    pred == other_than(account),
                decreases self.holders@.len() - i,
            {
                let h = self.holders[i];
                proof {
                    let sub = self.holders@.subrange(0, i as int);
                    let sub2 = self.holders@.subrange(0, i + 1);
                    assert(sub2.drop_last() =~= sub);
                    reveal(Seq::filter);
                }
                if h != account {
                    new_holders.push(h);
                }
                i = i + 1;
            }
            assert(self.holders@.subrange(0, self.holders@.len() as int) =~= self.holders@);
            self.holders = new_holders;
            proof {
                let old_h = old_self.holders@;
                broadcast use vstd::seq_lib::group_filter_ensures;
                assert forall|a: Address| #[trigger]
                    self.holders@.contains(a) <==> self.roles_of(a) != 0 by {
                    if a != account {
                        if old_h.contains(a) {
                            let j = choose|j: int| 0 <= j < old_h.len() && old_h[j] == a;
                            assert(pred(old_h[j]));
                        }
                        if self.holders@.contains(a) {
                            let j = choose|j: int|
                                0 <= j < self.holders@.len() && self.holders@[j] == a;
                            assert(old_h.filter(pred).contains(a));
                            old_h.lemma_filter_contains_rev(pred, a);
                        }
                    } else {
                        if self.holders@.contains(a) {
                            let j = choose|j: int|
                                0 <= j < self.holders@.len() && self.holders@[j] == a;
                            assert(pred(self.holders@[j]));
                        }
                    }
                }
                crate::types::lemma_filter_no_duplicates(old_h, pred);
            }
        } else {
            let found = crate::types::contains_address(&self.holders, account);
            if !found {
                self.holders.push(account);
                proof {
                    assert forall|a: Address| #[trigger]
                        self.holders@.contains(a) <==> self.roles_of(a) != 0 by {
                        if a != account && self.holders@.contains(a) {
                            let j = choose|j: int|
                                0 <= j < self.holders@.len() && self.holders@[j] == a;
                            assert(old_self.holders@[j] == a);
                        }
                        if a == account {
                            assert(self.holders@[self.holders@.len() - 1] == a);
                        } else if old_self.holders@.contains(a) {
                            let j = choose|j: int|
                                0 <= j < old_self.holders@.len() && old_self.holders@[j] == a;
                            assert(self.holders@[j] == a);
                        }
                    }
                    assert forall|x: int, y: int|
                        0 <= x < self.holders@.len() && 0 <= y < self.holders@.len() && x != y
                        implies self.holders@[x] != self.holders@[y] by {
                        if x == self.holders@.len() - 1 {
                            assert(old_self.holders@.contains(self.holders@[y]));
                        } else if y == self.holders@.len() - 1 {
                            assert(old_self.holders@.contains(self.holders@[x]));
                        }
                    }
                }
            }
        }
    }

    /// Whether an address holds any of the role bits in `role`.
    pub fn has_role(&self, account: Address, role: u32) -> (r: bool)
        ensures
            r == (self.roles_of(account) & role != 0),
    {
        (self.get_roles(account) & role) != 0
    }

    /// Add role bits to an address.
    pub fn grant_role(&mut self, account: Address, role: u32)
        requires
            old(self).wf(),
        ensures
            final(self).wf(),
            old(self).roles_set_to(&*final(self), account, old(self).roles_of(account) | role),
    {
        let current = self.get_roles(account);
        self.set_roles(account, current | role);
    }

    /// Remove role bits from an address.
    pub fn revoke_role(&mut self, account: Address, role: u32)
        requires
            old(self).wf(),
        ensures
            final(self).wf(),
            old(self).roles_set_to(&*final(self), account, old(self).roles_of(account) & !role),
    {
        let current = self.get_roles(account);
        self.set_roles(account, current & !role);
    }

    /// All addresses that hold some role.
    pub fn get_role_holders(&self) -> (r: Vec<Address>)
        ensures
            r@ == self.spec_holders(),
    {
        crate::types::copy_vec(&self.holders)
    }

    /// The caller must hold ADMIN.
    pub fn require_admin(&self, caller: Address) -> (r: Result<(), AccessError>)
        ensures
            r == if self.roles_of(caller) & ROLE_ADMIN != 0 {
                Ok::<(), AccessError>(())
            } else {
                Err(AccessError::NotAdmin)
            },
    {
        if self.has_role(caller, ROLE_ADMIN) {
            Ok(())
        } else {
            Err(AccessError::NotAdmin)
        }
    }

    /// The caller must hold ATTESTOR.
    pub fn require_attestor(&self, caller: Address) -> (r: Result<(), AccessError>)
        ensures
            r == if self.roles_of(caller) & ROLE_ATTESTOR != 0 {
                Ok::<(), AccessError>(())
            } else {
                Err(AccessError::NotAttestor)
            },
    {
        if self.has_role(caller, ROLE_ATTESTOR) {
            Ok(())
        } else {
            Err(AccessError::NotAttestor)
        }
    }

    /// The caller must hold BUSINESS.
    pub fn require_business(&self, caller: Address) -> (r: Result<(), AccessError>)
        ensures
            r == if self.roles_of(caller) & ROLE_BUSINESS != 0 {
                Ok::<(), AccessError>(())
            } else {
                Err(AccessError::NotBusiness)
            },
    {
        if self.has_role(caller, ROLE_BUSINESS) {
            Ok(())
        } else {
            Err(AccessError::NotBusiness)
        }
    }

    /// The caller must hold OPERATOR.
    pub fn require_operator(&self, caller: Address) -> (r: Result<(), AccessError>)
        ensures
            r == if self.roles_of(caller) & ROLE_OPERATOR != 0 {
                Ok::<(), AccessError>(())
            } else {
                Err(AccessError::NotOperator)
            },
    {
        if self.has_role(caller, ROLE_OPERATOR) {
            Ok(())
        } else {
            Err(AccessError::NotOperator)
        }
    }

    /// The caller must hold ADMIN or ATTESTOR.
    pub fn require_admin_or_attestor(&self, caller: Address) -> (r: Result<(), AccessError>)
        ensures
            r == if self.roles_of(caller) & (ROLE_ADMIN | ROLE_ATTESTOR) != 0 {
                Ok::<(), AccessError>(())
            } else {
                Err(AccessError::NotAdminOrAttestor)
            },
    {
        let roles = self.get_roles(caller);
        if (roles & (ROLE_ADMIN | ROLE_ATTESTOR)) != 0 {
            Ok(())
        } else {
            Err(AccessError::NotAdminOrAttestor)
        }
    }

    /// Whether the caller is the business itself or holds ATTESTOR or ADMIN.
    pub fn require_business_or_attestor(&self, caller: Address, business: Address) -> (r: bool)
        ensures
            r == (caller == business || self.roles_of(caller) & ROLE_ATTESTOR != 0
                || self.roles_of(caller) & ROLE_ADMIN != 0),
    {
        if caller == business {
            return true;
        }
        self.has_role(caller, ROLE_ATTESTOR) || self.has_role(caller, ROLE_ADMIN)
    }

    /// Whether the contract is paused.
    pub fn is_paused(&self) -> (r: bool)
        ensures
            r == self.spec_paused(),
    {
        self.paused
    }

    /// Set the pause flag.
    pub fn set_paused(&mut self, paused: bool)
        requires
            old(self).wf(),
        ensures
            final(self).wf(),
            final(self).spec_paused() == paused,
            forall|a: Address| #[trigger] final(self).roles_of(a) == old(self).roles_of(a),
            final(self).spec_holders() == old(self).spec_holders(),
    {
        self.paused = paused;
    }

    /// The contract must not be paused.
    pub fn require_not_paused(&self) -> (r: Result<(), AccessError>)
        ensures
            r == if self.spec_paused() {
                Err(AccessError::ContractPaused)
            } else {
                Ok::<(), AccessError>(())
            },
    {
        if self.paused {
            Err(AccessError::ContractPaused)
        } else {
            Ok(())
        }
    }
}

/// The roles named by a list of role names: the bitwise OR of the bit of
/// each name (unknown names add nothing).
pub open spec fn roles_of_names(names: Seq<Seq<char>>) -> u32
    decreases names.len(),
{
    if names.len() == 0 {
        0
    } else {
        roles_of_names(names.drop_last()) | spec_role_from_name(names.last())
    }
}

proof fn lemma_roles_of_concat(s: Seq<Seq<char>>, t: Seq<Seq<char>>)
    ensures
        roles_of_names(s + t) == roles_of_names(s) | roles_of_names(t),
    decreases t.len(),
{
    let x = roles_of_names(s);
    if t.len() == 0 {
        assert(s + t =~= s);
        assert(x | 0u32 == x) by (bit_vector);
    } else {
        assert((s + t).drop_last() =~= s + t.drop_last());
        assert((s + t).last() == t.last());
        lemma_roles_of_concat(s, t.drop_last());
        let y = roles_of_names(t.drop_last());
        let z = spec_role_from_name(t.last());
        assert((x | y) | z == x | (y | z)) by (bit_vector);
    }
}

proof fn lemma_roles_of_single(n: Seq<char>)
    ensures
        roles_of_names(seq![n]) == spec_role_from_name(n),
{
    let z = spec_role_from_name(n);
    assert(seq![n].drop_last() =~= Seq::<Seq<char>>::empty());
    assert(seq![n].last() == n);
    assert(roles_of_names(Seq::<Seq<char>>::empty()) == 0);
    assert(0u32 | z == z) by (bit_vector);
}

/// The role bits named by an optional single name: `bit` when `set`.
proof fn lemma_roles_of_part(set: bool, name: Seq<char>, bit: u32)
    requires
        spec_role_from_name(name) == bit,
    ensures
        roles_of_names(if set { seq![name] } else { Seq::empty() }) == if set { bit } else { 0 },
{
    if set {
        lemma_roles_of_single(name);
    }
}

/// Reading back the names of a role bitmap gives the bitmap restricted to
/// the four known roles: the OR of the bits of the names `role_names`
/// lists for `roles` is `roles & (ADMIN | ATTESTOR | BUSINESS | OPERATOR)`.
pub proof fn law_role_names_round_trip(roles: u32)
    ensures
        roles_of_names(spec_role_names(roles)) == roles & (ROLE_ADMIN | ROLE_ATTESTOR | ROLE_BUSINESS
            | ROLE_OPERATOR),
{
    reveal_strlit("ADMIN");
    reveal_strlit("ATTESTOR");
    reveal_strlit("BUSINESS");
    reveal_strlit("OPERATOR");
    assert("ATTESTOR"@.len() != "ADMIN"@.len());
    assert("BUSINESS"@.len() != "ADMIN"@.len());
    assert("BUSINESS"@[0] != "ATTESTOR"@[0]);
    assert("OPERATOR"@.len() != "ADMIN"@.len());
    assert("OPERATOR"@[0] != "ATTESTOR"@[0]);
    assert("OPERATOR"@[0] != "BUSINESS"@[0]);
    let a = if roles & ROLE_ADMIN != 0 { seq!["ADMIN"@] } else { Seq::<Seq<char>>::empty() };
    let b = if roles & ROLE_ATTESTOR != 0 { seq!["ATTESTOR"@] } else { Seq::<Seq<char>>::empty() };
    let c = if roles & ROLE_BUSINESS != 0 { seq!["BUSINESS"@] } else { Seq::<Seq<char>>::empty() };
    let d = if roles & ROLE_OPERATOR != 0 { seq!["OPERATOR"@] } else { Seq::<Seq<char>>::empty() };
    assert(spec_role_names(roles) == a + b + c + d);
    lemma_roles_of_part(roles & ROLE_ADMIN != 0, "ADMIN"@, ROLE_ADMIN);
    lemma_roles_of_part(roles & ROLE_ATTESTOR != 0, "ATTESTOR"@, ROLE_ATTESTOR);
    lemma_roles_of_part(roles & ROLE_BUSINESS != 0, "BUSINESS"@, ROLE_BUSINESS);
    lemma_roles_of_part(roles & ROLE_OPERATOR != 0, "OPERATOR"@, ROLE_OPERATOR);
    lemma_roles_of_concat(a + b + c, d);
    lemma_roles_of_concat(a + b, c);
    lemma_roles_of_concat(a, b);
    let pa = roles_of_names(a);
    let pb = roles_of_names(b);
    let pc = roles_of_names(c);
    let pd = roles_of_names(d);
    assert(pa == roles & 1u32) by {
        assert(roles & 1u32 != 0 ==> roles & 1u32 == 1u32) by (bit_vector);
    }
    assert(pb == roles & 2u32) by {
        assert(roles & 2u32 != 0 ==> roles & 2u32 == 2u32) by (bit_vector);
    }
    assert(pc == roles & 4u32) by {
        assert(roles & 4u32 != 0 ==> roles & 4u32 == 4u32) by (bit_vector);
    }
    assert(pd == roles & 8u32) by {
        assert(roles & 8u32 != 0 ==> roles & 8u32 == 8u32) by (bit_vector);
    }
    assert(((roles & 1u32) | (roles & 2u32)) | (roles & 4u32) | (roles & 8u32) == roles & (1u32 | 2u32
        | 4u32 | 8u32)) by (bit_vector);
}

/// Granting a non-empty set of role bits makes the address hold them.
pub proof fn law_grant_then_has(
    before: &AccessControl,
    after: &AccessControl,
    account: Address,
    role: u32,
)
    requires
        role != 0,
        before.roles_set_to(after, account, before.roles_of(account) | role),
    ensures
        after.roles_of(account) & role != 0,
{
    let cur = before.roles_of(account);
    assert(role != 0 ==> (cur | role) & role != 0) by (bit_vector);
}

/// Revoking role bits leaves none of them held, and other bits untouched.
pub proof fn law_revoke_then_not_has(
    before: &AccessControl,
    after: &AccessControl,
    account: Address,
    role: u32,
    other: u32,
)
    requires
        before.roles_set_to(after, account, before.roles_of(account) & !role),
        other & role == 0,
    ensures
        after.roles_of(account) & role == 0,
        after.roles_of(account) & other == before.roles_of(account) & other,
{
    let cur = before.roles_of(account);
    assert((cur & !role) & role == 0) by (bit_vector);
    assert(other & role == 0 ==> (cur & !role) & other == cur & other) by (bit_vector);
}

/// In well-formed storage an address is listed among the role holders
/// exactly when it holds some role, and no address is listed twice.
pub proof fn law_holders_are_role_bearers(ac: &AccessControl, a: Address)
    requires
        ac.wf(),
    ensures
        ac.spec_holders().contains(a) <==> ac.roles_of(a) != 0,
        ac.spec_holders().no_duplicates(),
{
}

} // verus!
