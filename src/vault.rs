use vstd::prelude::*;
use crate::bytes::{copy_bytes, same_bytes};

verus! {

/// One stored credential. The secret itself arrives already encrypted by the
/// client, with the parameters it was encrypted under.
#[derive(Debug)]
pub struct PasswordEntry {
    pub service_name: String,
    pub username: String,
    pub encrypted: String,
    pub iv: String,
    pub salt: String,
    pub notes: Option<String>,
}

impl Clone for PasswordEntry {
    fn clone(&self) -> (r: Self)
        ensures
            r == *self,
    {
        PasswordEntry {
            service_name: self.service_name.clone(),
            username: self.username.clone(),
            encrypted: self.encrypted.clone(),
            iv: self.iv.clone(),
            salt: self.salt.clone(),
            notes: match &self.notes {
                Some(n) => Some(n.clone()),
                None => None,
            },
        }
    }
}

/// The entries of one owner, who is known by the bytes of their principal.
struct OwnerEntries {
    owner: Vec<u8>,
    entries: Vec<PasswordEntry>,
}

/// Password entries, kept per owner in the order they were added.
pub struct PasswordVault {
    owners: Vec<OwnerEntries>,
}

spec fn owners_unique(os: Seq<OwnerEntries>) -> bool {
    forall|i: int, j: int|
        0 <= i < os.len() && 0 <= j < os.len() && i != j ==> #[trigger] os[i].owner@ != #[trigger] os[j].owner@
}

spec fn has_owner(os: Seq<OwnerEntries>, k: Seq<u8>) -> bool {
    exists|i: int| 0 <= i < os.len() && #[trigger] os[i].owner@ == k
}

spec fn vault_map(os: Seq<OwnerEntries>) -> Map<Seq<u8>, Seq<PasswordEntry>> {
    Map::new(
        |k: Seq<u8>| has_owner(os, k),
        |k: Seq<u8>| os[choose|i: int| 0 <= i < os.len() && #[trigger] os[i].owner@ == k].entries@,
    )
}

proof fn lemma_vault_at(os: Seq<OwnerEntries>, i: int)
    requires
        owners_unique(os),
        0 <= i < os.len(),
    ensures
        vault_map(os).contains_key(os[i].owner@),
        vault_map(os)[os[i].owner@] == os[i].entries@,
{
    let k = os[i].owner@;
    assert(has_owner(os, k));
    let j = choose|j: int| 0 <= j < os.len() && #[trigger] os[j].owner@ == k;
    assert(i == j);
}

proof fn lemma_vault_update(os: Seq<OwnerEntries>, i: int, e: OwnerEntries)
    requires
        owners_unique(os),
        0 <= i < os.len(),
        e.owner@ == os[i].owner@,
    ensures
        owners_unique(os.update(i, e)),
        vault_map(os.update(i, e)) == vault_map(os).insert(e.owner@, e.entries@),
{
    let ws = os.update(i, e);
    assert forall|a: int, b: int| 0 <= a < ws.len() && 0 <= b < ws.len() && a != b implies #[trigger] ws[a].owner@ != #[trigger] ws[b].owner@ by {
        assert(ws[a].owner@ == os[a].owner@ && ws[b].owner@ == os[b].owner@);
    }
    assert forall|k: Seq<u8>| #[trigger] has_owner(ws, k) == (has_owner(os, k) || k == e.owner@) by {
        if has_owner(ws, k) {
            let j = choose|j: int| 0 <= j < ws.len() && #[trigger] ws[j].owner@ == k;
            assert(os[j].owner@ == k);
        }
        if has_owner(os, k) {
            let j = choose|j: int| 0 <= j < os.len() && #[trigger] os[j].owner@ == k;
            assert(ws[j].owner@ == k);
        }
        if k == e.owner@ {
            assert(ws[i].owner@ == k);
        }
    }
    assert forall|k: Seq<u8>| #[trigger] vault_map(ws).contains_key(k) implies vault_map(ws)[k] == vault_map(os).insert(e.owner@, e.entries@)[k] by {
        let j = choose|j: int| 0 <= j < ws.len() && #[trigger] ws[j].owner@ == k;
        lemma_vault_at(ws, j);
        if j != i {
            lemma_vault_at(os, j);
        }
    }
    assert(vault_map(ws) =~= vault_map(os).insert(e.owner@, e.entries@));
}

proof fn lemma_vault_push(os: Seq<OwnerEntries>, e: OwnerEntries)
    requires
        owners_unique(os),
        !has_owner(os, e.owner@),
    ensures
        owners_unique(os.push(e)),
        vault_map(os.push(e)) == vault_map(os).insert(e.owner@, e.entries@),
{
    let ws = os.push(e);
    let n = os.len() as int;
    assert forall|a: int, b: int| 0 <= a < ws.len() && 0 <= b < ws.len() && a != b implies #[trigger] ws[a].owner@ != #[trigger] ws[b].owner@ by {
        if a == n {
            assert(os[b].owner@ == ws[b].owner@);
        } else if b == n {
            assert(os[a].owner@ == ws[a].owner@);
        }
    }
    assert forall|k: Seq<u8>| #[trigger] has_owner(ws, k) == (has_owner(os, k) || k == e.owner@) by {
        if has_owner(ws, k) {
            let j = choose|j: int| 0 <= j < ws.len() && #[trigger] ws[j].owner@ == k;
            if j < n {
                assert(os[j].owner@ == k);
            }
        }
        if has_owner(os, k) {
            let j = choose|j: int| 0 <= j < os.len() && #[trigger] os[j].owner@ == k;
            assert(ws[j].owner@ == k);
        }
        if k == e.owner@ {
            assert(ws[n].owner@ == k);
        }
    }
    assert forall|k: Seq<u8>| #[trigger] vault_map(ws).contains_key(k) implies vault_map(ws)[k] == vault_map(os).insert(e.owner@, e.entries@)[k] by {
        let j = choose|j: int| 0 <= j < ws.len() && #[trigger] ws[j].owner@ == k;
        lemma_vault_at(ws, j);
        if j != n {
            assert(ws[j] == os[j]);
            lemma_vault_at(os, j);
        }
    }
    assert(vault_map(ws) =~= vault_map(os).insert(e.owner@, e.entries@));
}

/// The entries of `owner`: none for an owner who never added one.
pub open spec fn entries_of(m: Map<Seq<u8>, Seq<PasswordEntry>>, owner: Seq<u8>) -> Seq<PasswordEntry> {
    if m.contains_key(owner) {
        m[owner]
    } else {
        Seq::empty()
    }
}

/// A copy of a list of entries.
fn copy_entries(v: &Vec<PasswordEntry>) -> (r: Vec<PasswordEntry>)
    ensures
        r@ == v@,
{
    let mut r: Vec<PasswordEntry> = Vec::new();
    let mut i: usize = 0;
    while i < v.len()
        invariant
            i <= v@.len(),
            r@ == v@.subrange(0, i as int),
        decreases v@.len() - i,
    {
        r.push(v[i].clone());
        i = i + 1;
        assert(r@ =~= v@.subrange(0, i as int));
    }
    assert(v@.subrange(0, v@.len() as int) =~= v@);
    r
}

impl View for PasswordVault {
    type V = Map<Seq<u8>, Seq<PasswordEntry>>;

    closed spec fn view(&self) -> Map<Seq<u8>, Seq<PasswordEntry>> {
        vault_map(self.owners@)
    }
}

impl PasswordVault {
    pub closed spec fn wf(&self) -> bool {
        owners_unique(self.owners@)
    }

    /// An empty vault.
    pub fn new() -> (r: Self)
        ensures
            r.wf(),
            r@ == Map::<Seq<u8>, Seq<PasswordEntry>>::empty(),
    {
        let r = PasswordVault { owners: Vec::new() };
        assert(r@ =~= Map::<Seq<u8>, Seq<PasswordEntry>>::empty());
        r
    }

    fn find(&self, owner: &Vec<u8>) -> (r: Option<usize>)
        requires
            self.wf(),
        ensures
            match r {
                Some(i) => i < self.owners@.len() && self.owners@[i as int].owner@ == owner@
                    && self@.contains_key(owner@) && self@[owner@] == self.owners@[i as int].entries@,
                None => !self@.contains_key(owner@),
            },
    {
        let mut i: usize = 0;
        while i < self.owners.len()
            invariant
                self.wf(),
                i <= self.owners@.len(),
                forall|j: int| 0 <= j < i ==> #[trigger] self.owners@[j].owner@ != owner@,
            decreases self.owners@.len() - i,
        {
            if same_bytes(&self.owners[i].owner, owner) {
                proof {
                    lemma_vault_at(self.owners@, i as int);
                }
                return Some(i);
            }
            i = i + 1;
        }
        None
    }

    /// The entries of `owner`, in the order they were added.
    pub fn get_passwords(&self, owner: &Vec<u8>) -> (r: Vec<PasswordEntry>)
        requires
            self.wf(),
        ensures
            r@ == entries_of(self@, owner@),
    {
        match self.find(owner) {
            Some(i) => copy_entries(&self.owners[i].entries),
            None => Vec::new(),
        }
    }

    /// Appends `entry` to the entries of `owner`.
    pub fn add_password(&mut self, owner: &Vec<u8>, entry: PasswordEntry) -> (r: bool)
        requires
            old(self).wf(),
        ensures
            final(self).wf(),
            r,
            final(self)@ == old(self)@.insert(owner@, entries_of(old(self)@, owner@).push(entry)),
    {
        let ghost os = self.owners@;
        match self.find(owner) {
            Some(i) => {
                let oe = &mut self.owners[i];
                oe.entries.push(entry);
                proof {
                    lemma_vault_update(os, i as int, self.owners@[i as int]);
                    assert(self.owners@ == os.update(i as int, self.owners@[i as int]));
                }
            },
            None => {
                let mut entries: Vec<PasswordEntry> = Vec::new();
                entries.push(entry);
                let oe = OwnerEntries { owner: copy_bytes(owner), entries };
                assert(oe.entries@ =~= Seq::<PasswordEntry>::empty().push(entry));
                proof {
                    lemma_vault_push(os, oe);
                }
                self.owners.push(oe);
            },
        }
        true
    }

    /// Replaces entry `index` of `owner`; false, with nothing changed, where
    /// `owner` has no such entry.
    pub fn update_password(&mut self, owner: &Vec<u8>, index: usize, entry: PasswordEntry) -> (r: bool)
        requires
            old(self).wf(),
        ensures
            final(self).wf(),
            r == (index < entries_of(old(self)@, owner@).len()),
            r ==> final(self)@ == old(self)@.insert(owner@, entries_of(old(self)@, owner@).update(index as int, entry)),
            !r ==> final(self)@ == old(self)@,
    {
        let ghost os = self.owners@;
        match self.find(owner) {
            Some(i) => {
                if index < self.owners[i].entries.len() {
                    let oe = &mut self.owners[i];
                    oe.entries.set(index, entry);
                    proof {
                        lemma_vault_update(os, i as int, self.owners@[i as int]);
                        assert(self.owners@ == os.update(i as int, self.owners@[i as int]));
                    }
                    true
                } else {
                    false
                }
            },
            None => false,
        }
    }

    /// Removes entry `index` of `owner`, moving the later ones down; false,
    /// with nothing changed, where `owner` has no such entry.
    pub fn delete_password(&mut self, owner: &Vec<u8>, index: usize) -> (r: bool)
        requires
            old(self).wf(),
        ensures
            final(self).wf(),
            r == (index < entries_of(old(self)@, owner@).len()),
            r ==> final(self)@ == old(self)@.insert(owner@, entries_of(old(self)@, owner@).remove(index as int)),
            !r ==> final(self)@ == old(self)@,
    {
        let ghost os = self.owners@;
        match self.find(owner) {
            Some(i) => {
                if index < self.owners[i].entries.len() {
                    let oe = &mut self.owners[i];
                    let _gone = oe.entries.remove(index);
                    proof {
                        lemma_vault_update(os, i as int, self.owners@[i as int]);
                        assert(self.owners@ == os.update(i as int, self.owners@[i as int]));
                    }
                    true
                } else {
                    false
                }
            },
            None => false,
        }
    }
}

} // verus!
