use vstd::prelude::*;
use bitcoin::hashes::sha256;
use bitcoin::secp256k1::XOnlyPublicKey;
use bitcoin::secp256k1::SECP256K1;
use bitcoin::util::taproot::LeafVersion;
use bitcoin::util::taproot::TapBranchHash;
use bitcoin::util::taproot::TapLeafHash;
use bitcoin::util::taproot::TapTweakHash;
use bitcoin::util::taproot::TaprootBuilder;
use bitcoin::util::taproot::TaprootBuilderError;
use bitcoin::Script;
use crate::partner::is_leaf_version;

verus! {

/// Largest depth that a taproot script tree admits.
pub const MAX_TREE_DEPTH: u8 = 128;

#[verifier::external_type_specification]
#[verifier::external_body]
pub struct ExTaprootBuilder(TaprootBuilder);

#[verifier::external_type_specification]
#[verifier::external_body]
pub struct ExTaprootBuilderError(TaprootBuilderError);

/// One registration made on a taproot tree builder.
pub enum Slot {
    Leaf { depth: nat, version: u8, script: Seq<u8> },
    Hidden { depth: nat, hash: Seq<u8> },
}

pub open spec fn slot_depth(s: Slot) -> nat {
    match s {
        Slot::Leaf { depth, .. } => depth,
        Slot::Hidden { depth, .. } => depth,
    }
}

/// A taproot tree builder together with the record of the registrations it
/// was built from, in the order they were made.
pub(crate) struct TreeBuilder {
    pub(crate) inner: TaprootBuilder,
    pub(crate) slots: Ghost<Seq<Slot>>,
}

pub(crate) open spec fn builder_slots(b: &TreeBuilder) -> Seq<Slot> {
    b.slots@
}

/// Whether a builder that took the registrations `slots` takes a leaf at
/// `depth` next.
pub uninterp spec fn leaf_accepted(slots: Seq<Slot>, depth: nat) -> bool;

/// Whether a builder that took the registrations `slots` takes a hidden node
/// at `depth` next.
pub uninterp spec fn hidden_accepted(slots: Seq<Slot>, depth: nat) -> bool;

/// Whether a builder that took the registrations `slots` holds one complete
/// tree.
pub uninterp spec fn builder_finalized(slots: Seq<Slot>) -> bool;

/// The tagged leaf hash of a script under a leaf version.
pub uninterp spec fn tap_leaf_hash(version: u8, script: Seq<u8>) -> Seq<u8>;

/// The tagged branch hash of two child node hashes.
pub uninterp spec fn tap_branch_hash(a: Seq<u8>, b: Seq<u8>) -> Seq<u8>;

/// Whether the bytes are the serialization of an x-only public key.
pub uninterp spec fn is_xonly_key(key: Seq<u8>) -> bool;

/// What tweaking the x-only key `key` with the merkle root `root` gives.
pub enum Tweaked {
    /// The serialized output key.
    Output(Seq<u8>),
    InvalidKey,
    /// The tweak is not a valid scalar, or the result is the point at infinity.
    Failed,
}

/// The BIP-341 tweak of the key serialized as `key` by the merkle root `root`.
pub uninterp spec fn tap_tweaked(key: Seq<u8>, root: Seq<u8>) -> Tweaked;

/// Why a key tweak failed.
pub enum TweakError {
    InvalidKey,
    Failed,
}

pub open spec fn tweaked_of(r: Result<[u8; 32], TweakError>) -> Tweaked {
    match r {
        Ok(k) => Tweaked::Output(k@),
        Err(TweakError::InvalidKey) => Tweaked::InvalidKey,
        Err(TweakError::Failed) => Tweaked::Failed,
    }
}

/// Relies on `TaprootBuilder::new`: a builder with nothing registered.
#[verifier::external_body]
pub(crate) fn new_builder() -> (r: TreeBuilder)
    ensures
        builder_slots(&r) == Seq::<Slot>::empty(),
{
    TreeBuilder { inner: TaprootBuilder::new(), slots: Ghost(Seq::empty()) }
}

/// Relies on `LeafVersion::from_consensus`, which accepts every even byte but
/// the annex tag, and on `TaprootBuilder::add_leaf_with_ver`. That refuses any
/// depth over the maximum, takes any other depth into an empty builder, and
/// takes a node at the depth of the single node that a builder holds, which
/// it joins into their parent.
#[verifier::external_body]
pub(crate) fn add_leaf(b: TreeBuilder, depth: u8, script: &Vec<u8>, version: u8) -> (r: Result<
    TreeBuilder,
    TaprootBuilderError,
>)
    requires
        is_leaf_version(version),
    ensures
        r is Ok <==> leaf_accepted(builder_slots(&b), depth as nat),
        r is Ok ==> builder_slots(&r->Ok_0) == builder_slots(&b).push(
            Slot::Leaf { depth: depth as nat, version, script: script@ },
        ),
        depth > MAX_TREE_DEPTH ==> r is Err,
        builder_slots(&b).len() == 0 && depth <= MAX_TREE_DEPTH ==> r is Ok,
        builder_slots(&b).len() == 1 && slot_depth(builder_slots(&b)[0]) == depth && 1 <= depth
            <= MAX_TREE_DEPTH ==> r is Ok,
{
    let ver = LeafVersion::from_consensus(version).expect("even byte other than the annex tag");
    let inner = b.inner.add_leaf_with_ver(depth, Script::from(script.clone()), ver)?;
    let slots = Ghost(b.slots@.push(Slot::Leaf { depth: depth as nat, version, script: script@ }));
    Ok(TreeBuilder { inner, slots })
}

/// Relies on `TaprootBuilder::add_hidden_node`, which refuses any depth over
/// the maximum, takes any other depth into an empty builder, and takes a node
/// at the depth of the single node that a builder holds.
#[verifier::external_body]
pub(crate) fn add_hidden(b: TreeBuilder, depth: u8, hash: &[u8; 32]) -> (r: Result<
    TreeBuilder,
    TaprootBuilderError,
>)
    ensures
        r is Ok <==> hidden_accepted(builder_slots(&b), depth as nat),
        r is Ok ==> builder_slots(&r->Ok_0) == builder_slots(&b).push(
            Slot::Hidden { depth: depth as nat, hash: hash@ },
        ),
        depth > MAX_TREE_DEPTH ==> r is Err,
        builder_slots(&b).len() == 0 && depth <= MAX_TREE_DEPTH ==> r is Ok,
        builder_slots(&b).len() == 1 && slot_depth(builder_slots(&b)[0]) == depth && 1 <= depth
            <= MAX_TREE_DEPTH ==> r is Ok,
{
    let h: sha256::Hash = bitcoin::hashes::Hash::from_inner(*hash);
    let inner = b.inner.add_hidden_node(depth, h)?;
    let slots = Ghost(b.slots@.push(Slot::Hidden { depth: depth as nat, hash: hash@ }));
    Ok(TreeBuilder { inner, slots })
}

/// Relies on `TaprootBuilder::is_finalized`: true when the builder holds one
/// complete tree. A single node at the root, or two nodes at depth one, form
/// one. Once two nodes at depth one made the root, any further node that the
/// builder takes opens a branch that can never close again, since closing it
/// would join a node with the root.
#[verifier::external_body]
pub(crate) fn is_complete(b: &TreeBuilder) -> (r: bool)
    ensures
        r == builder_finalized(builder_slots(b)),
        builder_slots(b).len() == 1 && slot_depth(builder_slots(b)[0]) == 0 ==> r,
        builder_slots(b).len() == 2 && slot_depth(builder_slots(b)[0]) == 1 && slot_depth(
            builder_slots(b)[1],
        ) == 1 ==> r,
        builder_slots(b).len() > 2 && slot_depth(builder_slots(b)[0]) == 1 && slot_depth(
            builder_slots(b)[1],
        ) == 1 ==> !r,
{
    b.inner.is_finalized()
}

/// Relies on `LeafVersion::from_consensus` and `TapLeafHash::from_script`: the
/// BIP-341 leaf hash of a script.
#[verifier::external_body]
pub(crate) fn leaf_hash(script: &Vec<u8>, version: u8) -> (r: [u8; 32])
    requires
        is_leaf_version(version),
    ensures
        r@ == tap_leaf_hash(version, script@),
{
    let ver = LeafVersion::from_consensus(version).expect("even byte other than the annex tag");
    bitcoin::hashes::Hash::into_inner(TapLeafHash::from_script(&Script::from(script.clone()), ver))
}

/// Relies on `TapBranchHash::from_node_hashes`: the BIP-341 hash of a branch
/// from the hashes of its two children.
#[verifier::external_body]
pub(crate) fn branch_hash(a: &[u8; 32], b: &[u8; 32]) -> (r: [u8; 32])
    ensures
        r@ == tap_branch_hash(a@, b@),
{
    let a: sha256::Hash = bitcoin::hashes::Hash::from_inner(*a);
    let b: sha256::Hash = bitcoin::hashes::Hash::from_inner(*b);
    bitcoin::hashes::Hash::into_inner(TapBranchHash::from_node_hashes(a, b))
}

/// Relies on `XOnlyPublicKey::from_slice` to read the key, on
/// `TapTweakHash::from_key_and_tweak` for the tweak, and on
/// `XOnlyPublicKey::tweak_add_assign`, which reports an invalid tweak as an
/// error.
#[verifier::external_body]
pub(crate) fn tap_tweak(key: &[u8; 32], root: &[u8; 32]) -> (r: Result<[u8; 32], TweakError>)
    ensures
        tweaked_of(r) == tap_tweaked(key@, root@),
        r matches Err(TweakError::InvalidKey) <==> !is_xonly_key(key@),
{
    let mut k = XOnlyPublicKey::from_slice(key).map_err(|_| TweakError::InvalidKey)?;
    let root: TapBranchHash = bitcoin::hashes::Hash::from_inner(*root);
    let tweak = TapTweakHash::from_key_and_tweak(k, Some(root));
    match k.tweak_add_assign(SECP256K1, &bitcoin::hashes::Hash::into_inner(tweak)) {
        Ok(_) => Ok(k.serialize()),
        Err(_) => Err(TweakError::Failed),
    }
}

} // verus!
