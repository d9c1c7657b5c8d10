//! The contact list.
use crate::crypto::keys::{BundleView, PublicKeyBundle};
use crate::crypto::suite::sha256;
use crate::identity::profile::{ContactView, StoredContact};
use crate::storage::payload::PayloadView;
use crate::storage::vault::{VaultUnlocked, VaultView};
use crate::text;
use crate::text::decimal;
use vstd::prelude::*;

verus! {

/// The name that the contact number `n` gets until the user gives it another.
pub open spec fn contact_label(n: nat) -> Seq<char> {
    "Contact "@ + decimal(n)
}

/// A new contact.
pub open spec fn new_contact(bundle: BundleView, name: Seq<char>, sequence: u64) -> ContactView {
    ContactView {
        id: sha256(bundle.bytes()),
        bundle,
        display_name: name,
        verified: false,
        last_key_seq: 0,
        added_seq: sequence,
    }
}

impl VaultView {
    /// The vault with other contacts.
    pub open spec fn with_contacts(self, contacts: Seq<ContactView>) -> VaultView {
        VaultView { payload: PayloadView { contacts, ..self.payload }, ..self }
    }

    /// The vault with a new contact at the end of the list.
    pub open spec fn with_pushed(self, bundle: BundleView, name: Seq<char>) -> VaultView {
        self.with_contacts(
            self.payload.contacts.push(new_contact(bundle, name, self.payload.sequence)),
        )
    }

    /// The vault with a new contact at the end of the list, one step further in
    /// the sequence.
    pub open spec fn with_contact(self, bundle: BundleView, name: Seq<char>) -> VaultView {
        self.with_pushed(bundle, name).next()
    }
}

/// Puts a contact at the end of the list under a name and says at which place.
pub fn push_contact(vault: &mut VaultUnlocked, bundle: PublicKeyBundle, name: String) -> (r: usize)
    ensures
        final(vault)@ == old(vault)@.with_pushed(bundle@, name@),
        r == old(vault)@.payload.contacts.len(),
        r < final(vault).payload.contacts@.len(),
{
    let sequence: u64 = vault.payload.sequence;
    let place: usize = vault.payload.contacts.len();
    let ghost all = vault@.payload.contacts;
    vault.payload.contacts.push(StoredContact::new(bundle, name, sequence));
    assert(vault@.payload.contacts =~= all.push(new_contact(bundle@, name@, sequence)));
    place
}

/// Puts a contact at the end of the list under its default name and says at
/// which place.
pub fn push_numbered_contact(vault: &mut VaultUnlocked, bundle: PublicKeyBundle) -> (r: usize)
    ensures
        final(vault)@ == old(vault)@.with_pushed(
            bundle@,
            contact_label(old(vault)@.payload.contacts.len() + 1),
        ),
        r == old(vault)@.payload.contacts.len(),
        r < final(vault).payload.contacts@.len(),
{
    let place = push_contact(vault, bundle, String::new());
    let ghost all = vault@.payload.contacts;
    let count: usize = vault.payload.contacts.len();
    let label = text::joined("Contact ", text::decimal_text(count as u64).as_str());
    vault.payload.contacts[place].display_name = label;
    proof {
        let named = ContactView { display_name: label@, ..all[place as int] };
        assert(vault@.payload.contacts =~= all.update(place as int, named));
        assert(vault@.payload.contacts =~= old(vault)@.payload.contacts.push(
            new_contact(bundle@, label@, old(vault)@.payload.sequence),
        ));
    }
    place
}

/// Adds a contact under a name and says at which place.
pub fn add_contact(vault: &mut VaultUnlocked, bundle: PublicKeyBundle, name: String) -> (r: usize)
    requires
        old(vault)@.payload.sequence < u64::MAX,
    ensures
        final(vault)@ == old(vault)@.with_contact(bundle@, name@),
        r == old(vault)@.payload.contacts.len(),
        r < final(vault).payload.contacts@.len(),
{
    let place = push_contact(vault, bundle, name);
    vault.payload.sequence = vault.payload.sequence + 1;
    place
}

/// Adds a contact under its default name and says at which place.
pub fn add_numbered_contact(vault: &mut VaultUnlocked, bundle: PublicKeyBundle) -> (r: usize)
    requires
        old(vault)@.payload.sequence < u64::MAX,
    ensures
        final(vault)@ == old(vault)@.with_contact(
            bundle@,
            contact_label(old(vault)@.payload.contacts.len() + 1),
        ),
        r == old(vault)@.payload.contacts.len(),
        r < final(vault).payload.contacts@.len(),
{
    let place = push_numbered_contact(vault, bundle);
    vault.payload.sequence = vault.payload.sequence + 1;
    place
}

/// The contacts with one marked as verified.
pub open spec fn verified_at(contacts: Seq<ContactView>, i: int) -> Seq<ContactView> {
    contacts.update(i, ContactView { verified: true, ..contacts[i] })
}

/// Marks a contact as verified.
pub fn mark_verified(vault: &mut VaultUnlocked, i: usize)
    requires
        i < old(vault).payload.contacts@.len(),
    ensures
        final(vault)@ == old(vault)@.with_contacts(
            verified_at(old(vault)@.payload.contacts, i as int),
        ),
{
    let ghost all = vault@.payload.contacts;
    vault.payload.contacts[i].verified = true;
    assert(vault@.payload.contacts =~= verified_at(all, i as int));
}

/// Removes a contact.
pub fn remove_contact(vault: &mut VaultUnlocked, i: usize)
    requires
        i < old(vault).payload.contacts@.len(),
    ensures
        final(vault)@ == old(vault)@.with_contacts(
            old(vault)@.payload.contacts.remove(i as int),
        ),
{
    let ghost all = vault@.payload.contacts;
    vault.payload.contacts.remove(i);
    assert(vault@.payload.contacts =~= all.remove(i as int));
}

/// How many unread messages there are in all, counted as the tab bar shows it.
pub open spec fn unread_total(counts: Seq<u32>) -> nat
    decreases counts.len(),
{
    if counts.len() == 0 {
        0
    } else {
        unread_total(counts.drop_last()) + counts.last() as nat
    }
}

/// The unread counts of the conversations.
pub open spec fn unread_counts(v: VaultView) -> Seq<u32> {
    Seq::new(v.payload.conversations.len(), |i: int| v.payload.conversations[i].unread_count)
}

/// A front of the counts adds up to no more than all of them.
proof fn lemma_total_grows(s: Seq<u32>, n: int)
    requires
        0 <= n <= s.len(),
    ensures
        unread_total(s.take(n)) <= unread_total(s),
    decreases s.len() - n,
{
    if n == s.len() {
        assert(s.take(n) =~= s);
    } else {
        lemma_total_grows(s, n + 1);
        assert(s.take(n + 1).drop_last() =~= s.take(n));
    }
}

/// How many unread messages there are in all, if the number fits.
pub fn total_unread(vault: &VaultUnlocked) -> (r: Option<u32>)
    ensures
        match r {
            Some(n) => n == unread_total(unread_counts(vault@)),
            None => unread_total(unread_counts(vault@)) > u32::MAX,
        },
{
    let ghost counts = unread_counts(vault@);
    let mut total: u32 = 0;
    let mut i: usize = 0;
    while i < vault.payload.conversations.len()
        invariant
            i <= counts.len(),
            counts == unread_counts(vault@),
            counts.len() == vault.payload.conversations@.len(),
            total == unread_total(counts.take(i as int)),
        decreases counts.len() - i,
    {
        let n: u32 = vault.payload.conversations[i].unread_count;
        proof {
            assert(vault@.payload.conversations[i as int]
                == vault.payload.conversations@[i as int]@);
            assert(counts.take(i + 1).drop_last() =~= counts.take(i as int));
            lemma_total_grows(counts, i + 1);
        }
        match total.checked_add(n) {
            Some(t) => {
                total = t;
            },
            None => {
                return None;
            },
        }
        i = i + 1;
    }
    assert(counts.take(i as int) =~= counts);
    Some(total)
}

/// The unread count of every contact, in the order of the list.
pub fn contact_unread_counts(vault: &VaultUnlocked) -> (r: Vec<u32>)
    ensures
        r@.len() == vault@.payload.contacts.len(),
        forall|i: int|
            0 <= i < r@.len() ==> #[trigger] r@[i] == vault@.unread(
                vault@.payload.contacts[i].id,
            ),
{
    let mut counts: Vec<u32> = Vec::new();
    let mut i: usize = 0;
    while i < vault.payload.contacts.len()
        invariant
            i == counts@.len(),
            i <= vault.payload.contacts@.len(),
            forall|j: int|
                0 <= j < i ==> #[trigger] counts@[j] == vault@.unread(
                    vault@.payload.contacts[j].id,
                ),
        decreases vault.payload.contacts@.len() - i,
    {
        assert(vault@.payload.contacts[i as int] == vault.payload.contacts@[i as int]@);
        let n: u32 = match vault.find_conversation_by_contact(&vault.payload.contacts[i].id) {
            Some(k) => {
                assert(vault@.payload.conversations[k as int]
                    == vault.payload.conversations@[k as int]@);
                vault.payload.conversations[k].unread_count
            },
            None => 0,
        };
        counts.push(n);
        i = i + 1;
    }
    counts
}

} // verus!
