use vstd::prelude::*;

use crate::table::Table;
use crate::Address;

verus! {

/// Whether some entry of `s` spells `x`.
pub open spec fn seq_has(s: Seq<String>, x: Seq<char>) -> bool {
    exists|i: int| 0 <= i < s.len() && (#[trigger] s[i])@ == x
}

/// `s` with every entry spelling `x` left out, order kept.
pub open spec fn seq_without(s: Seq<String>, x: Seq<char>) -> Seq<String> {
    s.filter(|e: String| e@ != x)
}

/// The text of the administrator role.
pub open spec fn spec_role_admin() -> Seq<char> {
    "ADMIN"@
}

/// The text of the merchant role.
pub open spec fn spec_role_merchant() -> Seq<char> {
    "MERCHANT"@
}

/// The text of the oracle role.
pub open spec fn spec_role_oracle() -> Seq<char> {
    "ORACLE"@
}

/// The text of the settlement-operator role.
pub open spec fn spec_role_settlement_operator() -> Seq<char> {
    "SETTLEMENT_OPERATOR"@
}

/// The administrator role.
pub fn role_admin() -> (r: String)
    ensures
        r@ == spec_role_admin(),
{
    String::from_str("ADMIN")
}

/// The merchant role, granted once a merchant is verified.
pub fn role_merchant() -> (r: String)
    ensures
        r@ == spec_role_merchant(),
{
    String::from_str("MERCHANT")
}

/// The oracle role, allowed to confirm payments.
pub fn role_oracle() -> (r: String)
    ensures
        r@ == spec_role_oracle(),
{
    String::from_str("ORACLE")
}

/// The settlement-operator role, allowed to settle and process refunds.
pub fn role_settlement_operator() -> (r: String)
    ensures
        r@ == spec_role_settlement_operator(),
{
    String::from_str("SETTLEMENT_OPERATOR")
}

/// Why a role operation was refused.
#[derive(Clone, Copy, Debug, PartialEq, Eq, Structural)]
pub enum AccessControlError {
    /// The caller does not hold the administrator role.
    Unauthorized,
    /// The account does not hold the role it tries to give up.
    RoleNotHeld,
}

/// Role-based access control: one administrator and, per role, the ordered list of members.
pub struct AccessControl {
    admin: Option<Address>,
    members: Table<Vec<Address>>,
}

/// Whether `account` holds `role` in a membership map.
pub open spec fn members_have(members: Map<Seq<char>, Seq<String>>, role: Seq<char>, account: Seq<char>) -> bool {
    members.contains_key(role) && seq_has(members[role], account)
}

/// The members of `role` in a membership map (empty when the role was never granted).
pub open spec fn members_of(members: Map<Seq<char>, Seq<String>>, role: Seq<char>) -> Seq<String> {
    if members.contains_key(role) {
        members[role]
    } else {
        Seq::empty()
    }
}

/// A copy of a list of texts.
pub fn clone_strings(list: &Vec<String>) -> (r: Vec<String>)
    ensures
        r@ == list@,
{
    let mut out: Vec<String> = Vec::new();
    let mut i: usize = 0;
    while i < list.len()
        invariant
            i <= list.len(),
            out@ == list@.take(i as int),
        decreases list.len() - i,
    {
        out.push(list[i].clone());
        i = i + 1;
        proof {
            assert(out@ =~= list@.take(i as int));
        }
    }
    assert(list@.take(list.len() as int) =~= list@);
    out
}

/// Leaving `x` out of a list removes it and keeps every other entry's membership.
pub proof fn lemma_without_membership(s: Seq<String>, x: Seq<char>)
    ensures
        !seq_has(seq_without(s, x), x),
        forall|y: Seq<char>| y != x ==> (seq_has(seq_without(s, x), y) == seq_has(s, y)),
    decreases s.len(),
{
    reveal_with_fuel(Seq::<_>::filter, 1);
    if s.len() == 0 {
        assert(seq_without(s, x) =~= Seq::<String>::empty());
    } else {
        let init = s.drop_last();
        lemma_without_membership(init, x);
        assert(s =~= init.push(s.last()));
        let w = seq_without(s, x);
        let wi = seq_without(init, x);
        if s.last()@ != x {
            assert(w =~= wi.push(s.last()));
        } else {
            assert(w =~= wi);
        }
        assert forall|y: Seq<char>| y != x implies (seq_has(w, y) == seq_has(s, y)) by {
            if seq_has(s, y) {
                let i = choose|i: int| 0 <= i < s.len() && (#[trigger] s[i])@ == y;
                if i == s.len() - 1 {
                    assert(w[w.len() - 1] == s.last());
                } else {
                    assert(init[i] == s[i]);
                    assert(seq_has(init, y));
                    let j = choose|j: int| 0 <= j < wi.len() && (#[trigger] wi[j])@ == y;
                    assert(w[j] == wi[j]);
                }
            }
            if seq_has(w, y) {
                let j = choose|j: int| 0 <= j < w.len() && (#[trigger] w[j])@ == y;
                if s.last()@ != x && j == w.len() - 1 {
                    assert(s[s.len() - 1]@ == y);
                } else {
                    assert(w[j] == wi[j]);
                    assert(seq_has(wi, y));
                    assert(seq_has(init, y));
                    let i = choose|i: int| 0 <= i < init.len() && (#[trigger] init[i])@ == y;
                    assert(s[i] == init[i]);
                }
            }
        }
        if seq_has(w, x) {
            let j = choose|j: int| 0 <= j < w.len() && (#[trigger] w[j])@ == x;
            if s.last()@ != x && j == w.len() - 1 {
            } else {
                assert(w[j] == wi[j]);
                assert(seq_has(wi, x));
            }
        }
    }
}

/// Whether some entry of `list` spells `x`.
fn list_contains(list: &Vec<String>, x: &String) -> (r: bool)
    ensures
        r == seq_has(list@, x@),
{
    let mut i: usize = 0;
    while i < list.len()
        invariant
            i <= list.len(),
            forall|j: int| 0 <= j < i ==> list@[j]@ != x@,
        decreases list.len() - i,
    {
        if list[i] == *x {
            return true;
        }
        i = i + 1;
    }
    false
}

/// `list` with every entry spelling `x` left out, order kept.
pub fn list_without(list: &Vec<String>, x: &String) -> (r: Vec<String>)
    ensures
        r@ == seq_without(list@, x@),
{
    let mut out: Vec<String> = Vec::new();
    let mut i: usize = 0;
    while i < list.len()
        invariant
            i <= list.len(),
            out@ == seq_without(list@.take(i as int), x@),
        decreases list.len() - i,
    {
        proof {
            assert(list@.take(i as int + 1).drop_last() =~= list@.take(i as int));
            reveal_with_fuel(Seq::<_>::filter, 1);
        }
        if list[i] != *x {
            out.push(list[i].clone());
        }
        i = i + 1;
    }
    assert(list@.take(list.len() as int) =~= list@);
    out
}

impl AccessControl {
    /// The administrator's address, if one was set.
    pub closed spec fn admin_address(&self) -> Option<Address> {
        self.admin
    }

    /// The administrator, if one was set.
    pub closed spec fn admin_view(&self) -> Option<Seq<char>> {
        match self.admin {
            Some(a) => Some(a@),
            None => None,
        }
    }

    /// The role memberships, by role.
    pub closed spec fn members_view(&self) -> Map<Seq<char>, Seq<String>> {
        self.members@.map_values(|v: Vec<String>| v@)
    }

    /// Whether `account` holds `role`.
    pub open spec fn spec_has_role(&self, role: Seq<char>, account: Seq<char>) -> bool {
        members_have(self.members_view(), role, account)
    }

    /// The ordered members of `role`.
    pub open spec fn spec_members(&self, role: Seq<char>) -> Seq<String> {
        members_of(self.members_view(), role)
    }

    /// Internal consistency of the membership store.
    pub closed spec fn wf(&self) -> bool {
        self.members.wf()
    }

    /// Access control with no administrator and no members.
    pub fn new() -> (r: Self)
        ensures
            r.wf(),
            r.admin_view() is None,
            r.members_view() == Map::<Seq<char>, Seq<String>>::empty(),
    {
        let r = AccessControl { admin: None, members: Table::new() };
        assert(r.members_view() =~= Map::<Seq<char>, Seq<String>>::empty());
        r
    }

    /// Adds `account` to `role` unless it is already there.
    fn add_member(&mut self, role: String, account: Address)
        requires
            old(self).wf(),
        ensures
            final(self).wf(),
            final(self).admin_view() == old(self).admin_view(),
            final(self).admin_address() == old(self).admin_address(),
            final(self).members_view() == old(self).members_view().insert(
                role@,
                if members_have(old(self).members_view(), role@, account@) {
                    old(self).members_view()[role@]
                } else {
                    members_of(old(self).members_view(), role@).push(account)
                },
            ),
            final(self).spec_has_role(role@, account@),
            forall|r2: Seq<char>, a2: Seq<char>|
                (r2 != role@ || a2 != account@) ==> final(self).spec_has_role(r2, a2) == old(self).spec_has_role(r2, a2),
    {
        proof {
            lemma_push_membership(members_of(old(self).members_view(), role@), account);
        }
        let existing = self.members.take(&role);
        match existing {
            Some(mut list) => {
                if list_contains(&list, &account) {
                    self.members.set(role, list);
                } else {
                    list.push(account);
                    self.members.set(role, list);
                }
            },
            None => {
                let mut list: Vec<String> = Vec::new();
                list.push(account);
                self.members.set(role, list);
            },
        }
    }

    /// Makes `admin` the administrator and a member of the administrator role.
    pub fn initialize(&mut self, admin: Address)
        requires
            old(self).wf(),
        ensures
            final(self).wf(),
            final(self).admin_view() == Some(admin@),
            final(self).admin_address() == Some(admin),
            final(self).spec_has_role(spec_role_admin(), admin@),
            forall|r: Seq<char>, a: Seq<char>|
                r != spec_role_admin() ==> (final(self).spec_has_role(r, a) == old(self).spec_has_role(r, a)),
            final(self).spec_members(spec_role_admin()) == (if old(self).spec_has_role(
                spec_role_admin(),
                admin@,
            ) {
                old(self).spec_members(spec_role_admin())
            } else {
                old(self).spec_members(spec_role_admin()).push(admin)
            }),
    {
        let a2 = admin.clone();
        self.admin = Some(admin);
        self.add_member(role_admin(), a2);
    }

    /// Whether `account` holds `role`.
    pub fn has_role(&self, role: &String, account: &Address) -> (r: bool)
        requires
            self.wf(),
        ensures
            r == self.spec_has_role(role@, account@),
    {
        match self.members.get(role) {
            Some(list) => list_contains(list, account),
            None => false,
        }
    }

    /// The administrator, if any.
    pub fn get_admin(&self) -> (r: Option<Address>)
        ensures
            r == self.admin_address(),
            match r {
                Some(a) => self.admin_view() == Some(a@),
                None => self.admin_view() is None,
            },
    {
        match &self.admin {
            Some(a) => Some(a.clone()),
            None => None,
        }
    }

    /// The members of `role`, in the order they were granted it.
    pub fn get_role_members(&self, role: &String) -> (r: Vec<Address>)
        requires
            self.wf(),
        ensures
            r@ == self.spec_members(role@),
    {
        match self.members.get(role) {
            Some(list) => clone_strings(list),
            None => Vec::new(),
        }
    }

    /// The administrator `admin` gives `role` to `account`.
    pub fn grant_role(&mut self, admin: &Address, role: String, account: Address) -> (r: Result<
        (),
        AccessControlError,
    >)
        requires
            old(self).wf(),
        ensures
            final(self).wf(),
            final(self).admin_view() == old(self).admin_view(),
            final(self).admin_address() == old(self).admin_address(),
            !old(self).spec_has_role(spec_role_admin(), admin@) ==> r == Err::<(), AccessControlError>(
                AccessControlError::Unauthorized,
            ) && *final(self) == *old(self),
            old(self).spec_has_role(spec_role_admin(), admin@) ==> r is Ok
                && final(self).spec_has_role(role@, account@) && (forall|r2: Seq<char>, a2: Seq<char>|
                (r2 != role@ || a2 != account@) ==> final(self).spec_has_role(r2, a2) == old(self).spec_has_role(r2, a2)),
    {
        let admin_role = role_admin();
        if !self.has_role(&admin_role, admin) {
            return Err(AccessControlError::Unauthorized);
        }
        self.add_member(role, account);
        Ok(())
    }

    /// Removes `account` from `role`.
    fn remove_member(&mut self, role: &String, account: &Address)
        requires
            old(self).wf(),
        ensures
            final(self).wf(),
            final(self).admin_view() == old(self).admin_view(),
            final(self).admin_address() == old(self).admin_address(),
            !final(self).spec_has_role(role@, account@),
            final(self).spec_members(role@) == seq_without(old(self).spec_members(role@), account@),
            forall|r2: Seq<char>, a2: Seq<char>|
                (r2 != role@ || a2 != account@) ==> final(self).spec_has_role(r2, a2) == old(self).spec_has_role(r2, a2),
    {
        let existing = self.members.take(role);
        match existing {
            Some(list) => {
                let kept = list_without(&list, account);
                proof {
                    lemma_without_membership(list@, account@);
                }
                self.members.set(role.clone(), kept);
            },
            None => {
                proof {
                    assert(seq_without(Seq::<String>::empty(), account@) =~= Seq::<String>::empty());
                }
            },
        }
    }

    /// The administrator `admin` takes `role` away from `account`.
    pub fn revoke_role(&mut self, admin: &Address, role: &String, account: &Address) -> (r: Result<
        (),
        AccessControlError,
    >)
        requires
            old(self).wf(),
        ensures
            final(self).wf(),
            final(self).admin_view() == old(self).admin_view(),
            final(self).admin_address() == old(self).admin_address(),
            !old(self).spec_has_role(spec_role_admin(), admin@) ==> r == Err::<(), AccessControlError>(
                AccessControlError::Unauthorized,
            ) && *final(self) == *old(self),
            old(self).spec_has_role(spec_role_admin(), admin@) ==> r is Ok
                && !final(self).spec_has_role(role@, account@) && final(self).spec_members(role@)
                == seq_without(old(self).spec_members(role@), account@) && (forall|
                r2: Seq<char>,
                a2: Seq<char>,
            |
                (r2 != role@ || a2 != account@) ==> final(self).spec_has_role(r2, a2) == old(self).spec_has_role(r2, a2)),
    {
        let admin_role = role_admin();
        if !self.has_role(&admin_role, admin) {
            return Err(AccessControlError::Unauthorized);
        }
        self.remove_member(role, account);
        Ok(())
    }

    /// `account` gives up `role`.
    pub fn renounce_role(&mut self, account: &Address, role: &String) -> (r: Result<
        (),
        AccessControlError,
    >)
        requires
            old(self).wf(),
        ensures
            final(self).wf(),
            final(self).admin_view() == old(self).admin_view(),
            final(self).admin_address() == old(self).admin_address(),
            !old(self).spec_has_role(role@, account@) ==> r == Err::<(), AccessControlError>(
                AccessControlError::RoleNotHeld,
            ) && *final(self) == *old(self),
            old(self).spec_has_role(role@, account@) ==> r is Ok && !final(self).spec_has_role(
                role@,
                account@,
            ) && (forall|r2: Seq<char>, a2: Seq<char>|
                (r2 != role@ || a2 != account@) ==> final(self).spec_has_role(r2, a2) == old(self).spec_has_role(r2, a2)),
    {
        if !self.has_role(role, account) {
            return Err(AccessControlError::RoleNotHeld);
        }
        self.remove_member(role, account);
        Ok(())
    }

    /// The administrator `current_admin` hands the administrator role over to `new_admin`.
    pub fn transfer_admin(&mut self, current_admin: &Address, new_admin: Address) -> (r: Result<
        (),
        AccessControlError,
    >)
        requires
            old(self).wf(),
        ensures
            final(self).wf(),
            !old(self).spec_has_role(spec_role_admin(), current_admin@) ==> r == Err::<
                (),
                AccessControlError,
            >(AccessControlError::Unauthorized) && *final(self) == *old(self),
            old(self).spec_has_role(spec_role_admin(), current_admin@) ==> r is Ok
                && final(self).admin_view() == Some(new_admin@) && final(self).admin_address() == Some(new_admin)
                && final(self).spec_has_role(
                spec_role_admin(),
                new_admin@,
            ) && (current_admin@ != new_admin@ ==> !final(self).spec_has_role(
                spec_role_admin(),
                current_admin@,
            )) && (forall|r2: Seq<char>, a2: Seq<char>|
                r2 != spec_role_admin() ==> final(self).spec_has_role(r2, a2) == old(self).spec_has_role(r2, a2)),
    {
        let admin_role = role_admin();
        if !self.has_role(&admin_role, current_admin) {
            return Err(AccessControlError::Unauthorized);
        }
        if *current_admin != new_admin {
            self.remove_member(&admin_role, current_admin);
        }
        let a2 = new_admin.clone();
        self.admin = Some(new_admin);
        self.add_member(admin_role, a2);
        Ok(())
    }
}

/// Appending `x` makes it a member and changes no other entry's membership.
pub proof fn lemma_push_membership(s: Seq<String>, x: String)
    ensures
        seq_has(s.push(x), x@),
        forall|y: Seq<char>| y != x@ ==> (seq_has(s.push(x), y) == seq_has(s, y)),
{
    assert(s.push(x)[s.len() as int] == x);
    assert forall|y: Seq<char>| y != x@ implies (seq_has(s.push(x), y) == seq_has(s, y)) by {
        if seq_has(s, y) {
            let i = choose|i: int| 0 <= i < s.len() && (#[trigger] s[i])@ == y;
            assert(s.push(x)[i] == s[i]);
        }
        if seq_has(s.push(x), y) {
            let i = choose|i: int| 0 <= i < s.len() + 1 && (#[trigger] s.push(x)[i])@ == y;
            assert(s.push(x)[i] == s[i]);
        }
    }
}

} // verus!
