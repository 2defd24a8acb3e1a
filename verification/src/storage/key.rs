//! The names under which a group client keeps its state in a key-value store.
//!
//! Every name starts with `openmls/`. What belongs to one group stands under
//! `openmls/groups/`, the group's id and `/`; key pairs, key packages and
//! pre-shared keys each stand under a prefix of their own. Ids are taken as
//! they come: a name is the plain concatenation of its parts.

use vstd::prelude::*;
use vstd::string::StringExecFns;

verus! {

/// The decimal digit for `d`, where `d` is below ten.
pub open spec fn digit(d: nat) -> char {
    if d == 0 {
        '0'
    } else if d == 1 {
        '1'
    } else if d == 2 {
        '2'
    } else if d == 3 {
        '3'
    } else if d == 4 {
        '4'
    } else if d == 5 {
        '5'
    } else if d == 6 {
        '6'
    } else if d == 7 {
        '7'
    } else if d == 8 {
        '8'
    } else {
        '9'
    }
}

/// `n` in decimal digits, without leading zeros.
pub open spec fn decimal(n: nat) -> Seq<char>
    decreases n,
{
    if n < 10 {
        seq![digit(n)]
    } else {
        decimal(n / 10).push(digit(n % 10))
    }
}

/// The decimal digit for `d` as a string.
fn digit_str(d: u32) -> (s: &'static str)
    requires
        d < 10,
    ensures
        s@ == seq![digit(d as nat)],
{
    proof {
        reveal_strlit("0");
        reveal_strlit("1");
        reveal_strlit("2");
        reveal_strlit("3");
        reveal_strlit("4");
        reveal_strlit("5");
        reveal_strlit("6");
        reveal_strlit("7");
        reveal_strlit("8");
        reveal_strlit("9");
    }
    let s = if d == 0 {
        "0"
    } else if d == 1 {
        "1"
    } else if d == 2 {
        "2"
    } else if d == 3 {
        "3"
    } else if d == 4 {
        "4"
    } else if d == 5 {
        "5"
    } else if d == 6 {
        "6"
    } else if d == 7 {
        "7"
    } else if d == 8 {
        "8"
    } else {
        "9"
    };
    assert(s@ =~= seq![digit(d as nat)]);
    s
}

/// `n` in decimal digits.
fn to_decimal(n: u32) -> (digits: String)
    ensures
        digits@ == decimal(n as nat),
    decreases n,
{
    if n < 10 {
        String::from_str(digit_str(n))
    } else {
        let mut digits = to_decimal(n / 10);
        digits.append(digit_str(n % 10));
        assert(digits@ =~= decimal(n as nat));
        digits
    }
}

/// `prefix`, then `id`.
fn under(prefix: &str, id: &str) -> (key: String)
    ensures
        key@ == prefix@ + id@,
{
    let mut key = String::from_str(prefix);
    key.append(id);
    key
}

/// `openmls/groups/`, the group's id, then `suffix`.
fn of_group(group_id: &str, suffix: &str) -> (key: String)
    ensures
        key@ == "openmls/groups/"@ + group_id@ + suffix@,
{
    let mut key = under("openmls/groups/", group_id);
    key.append(suffix);
    key
}

/// The configuration with which members join the group.
pub fn group_join_configuration(group_id: &str) -> (key: String)
    ensures
        key@ == "openmls/groups/"@ + group_id@ + "/join-configuration"@,
{
    of_group(group_id, "/join-configuration")
}

/// The client's own leaf nodes in the group.
pub fn group_leaf_nodes(group_id: &str) -> (key: String)
    ensures
        key@ == "openmls/groups/"@ + group_id@ + "/leaf-nodes"@,
{
    of_group(group_id, "/leaf-nodes")
}

/// The list of references to the group's queued proposals.
pub fn group_proposal_references(group_id: &str) -> (key: String)
    ensures
        key@ == "openmls/groups/"@ + group_id@ + "/proposals/references"@,
{
    of_group(group_id, "/proposals/references")
}

/// The queued proposal of the group with this reference.
pub fn group_proposal(group_id: &str, proposal_reference: &str) -> (key: String)
    ensures
        key@ == "openmls/groups/"@ + group_id@ + "/proposals/"@ + proposal_reference@,
{
    let mut key = of_group(group_id, "/proposals/");
    key.append(proposal_reference);
    key
}

/// The group's ratchet tree.
pub fn group_tree(group_id: &str) -> (key: String)
    ensures
        key@ == "openmls/groups/"@ + group_id@ + "/tree"@,
{
    of_group(group_id, "/tree")
}

/// The group's interim transcript hash.
pub fn group_interim_transcript_hash(group_id: &str) -> (key: String)
    ensures
        key@ == "openmls/groups/"@ + group_id@ + "/interim-transcription-hash"@,
{
    of_group(group_id, "/interim-transcription-hash")
}

/// The group's context.
pub fn group_context(group_id: &str) -> (key: String)
    ensures
        key@ == "openmls/groups/"@ + group_id@ + "/context"@,
{
    of_group(group_id, "/context")
}

/// The group's confirmation tag.
pub fn group_confirmation_tag(group_id: &str) -> (key: String)
    ensures
        key@ == "openmls/groups/"@ + group_id@ + "/confirmation-tag"@,
{
    of_group(group_id, "/confirmation-tag")
}

/// The group's state.
pub fn group_state(group_id: &str) -> (key: String)
    ensures
        key@ == "openmls/groups/"@ + group_id@ + "/state"@,
{
    of_group(group_id, "/state")
}

/// The group's message secrets.
pub fn group_message_secrets(group_id: &str) -> (key: String)
    ensures
        key@ == "openmls/groups/"@ + group_id@ + "/message-secrets"@,
{
    of_group(group_id, "/message-secrets")
}

/// The group's store of resumption pre-shared keys.
pub fn group_resumption_pre_shared_key_store(group_id: &str) -> (key: String)
    ensures
        key@ == "openmls/groups/"@ + group_id@ + "/pre-shared-key-store"@,
{
    of_group(group_id, "/pre-shared-key-store")
}

/// The client's own leaf index in the group.
pub fn group_leaf_index(group_id: &str) -> (key: String)
    ensures
        key@ == "openmls/groups/"@ + group_id@ + "/leaf-index"@,
{
    of_group(group_id, "/leaf-index")
}

/// The group's epoch secrets.
pub fn group_epoch_secrets(group_id: &str) -> (key: String)
    ensures
        key@ == "openmls/groups/"@ + group_id@ + "/epoch-secrets"@,
{
    of_group(group_id, "/epoch-secrets")
}

/// The signature key pair with this public key.
pub fn signature_key_pair(public_key: &str) -> (key: String)
    ensures
        key@ == "openmls/signature-keys/"@ + public_key@,
{
    under("openmls/signature-keys/", public_key)
}

/// The encryption key pair with this public key.
pub fn encryption_key_pair(public_key: &str) -> (key: String)
    ensures
        key@ == "openmls/encryption-keys/"@ + public_key@,
{
    under("openmls/encryption-keys/", public_key)
}

/// The list of the group's epochs that key pairs are kept for.
pub fn group_epochs(group_id: &str) -> (key: String)
    ensures
        key@ == "openmls/groups/"@ + group_id@ + "/epochs"@,
{
    of_group(group_id, "/epochs")
}

/// The list of leaf indices that key pairs are kept for in this epoch of the group.
pub fn group_epoch_leaf_indices(group_id: &str, epoch: &str) -> (key: String)
    ensures
        key@ == "openmls/groups/"@ + group_id@ + "/epochs/"@ + epoch@ + "/leafs/indices"@,
{
    let mut key = of_group(group_id, "/epochs/");
    key.append(epoch);
    key.append("/leafs/indices");
    key
}

/// The key pairs kept for this leaf in this epoch of the group. The leaf index
/// stands in the name in decimal digits.
pub fn group_epoch_leaf_key_pairs(group_id: &str, epoch: &str, leaf_index: u32) -> (key: String)
    ensures
        key@ == "openmls/groups/"@ + group_id@ + "/epochs/"@ + epoch@ + "/leafs/"@ + decimal(
            leaf_index as nat,
        ) + "/key-pairs"@,
{
    let mut key = of_group(group_id, "/epochs/");
    key.append(epoch);
    key.append("/leafs/");
    let index = to_decimal(leaf_index);
    key.append(index.as_str());
    key.append("/key-pairs");
    key
}

/// The key package with this hash reference.
pub fn key_package(hash_reference: &str) -> (key: String)
    ensures
        key@ == "openmls/key-packages/"@ + hash_reference@,
{
    under("openmls/key-packages/", hash_reference)
}

/// The pre-shared key with this id.
pub fn pre_shared_key(pre_shared_key_id: &str) -> (key: String)
    ensures
        key@ == "openmls/pre-shared-keys/"@ + pre_shared_key_id@,
{
    under("openmls/pre-shared-keys/", pre_shared_key_id)
}

} // verus!
