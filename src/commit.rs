use vstd::prelude::*;
use bitcoin::util::taproot::TaprootBuilderError;
use crate::partner::partner_valid;
use crate::partner::Partner;
use crate::partner::TapretNodePartner;
use crate::partner::TapretPathProof;
use crate::partner::TAPSCRIPT_LEAF_VERSION;
use crate::tree::add_hidden;
use crate::tree::add_leaf;
use crate::tree::branch_hash;
use crate::tree::builder_finalized;
use crate::tree::builder_slots;
use crate::tree::hidden_accepted;
use crate::tree::is_complete;
use crate::tree::leaf_accepted;
use crate::tree::leaf_hash;
use crate::tree::new_builder;
use crate::tree::slot_depth;
use crate::tree::tap_branch_hash;
use crate::tree::tap_leaf_hash;
use crate::tree::tap_tweak;
use crate::tree::tap_tweaked;
use crate::tree::Slot;
use crate::tree::TweakError;
use crate::tree::Tweaked;
use crate::tree::MAX_TREE_DEPTH;

verus! {

/// Opcode `OP_RESERVED`, which pads the commitment script.
pub const OP_RESERVED: u8 = 0x50;

/// Opcode `OP_RETURN`.
pub const OP_RETURN: u8 = 0x6a;

/// Opcode pushing the next 32 bytes.
pub const OP_PUSHBYTES_32: u8 = 0x20;

/// Number of `OP_RESERVED` opcodes that open a commitment script.
pub const RESERVED_PADDING: usize = 29;

/// Why a commitment could not be made.
#[derive(Debug)]
pub enum TapretTreeError {
    /// The partner at this depth failed its structural check.
    InvalidPartnerProof(u8, TapretNodePartner),
    /// The tree builder refused a registration at this depth.
    TreeBuilder(u8, TaprootBuilderError),
    /// The registrations do not form one complete tree.
    IncompleteTree,
    /// The internal key is not a valid x-only public key.
    InvalidKey,
    /// The tweak derived from the merkle root is not a valid scalar, or
    /// adding it gives the point at infinity.
    TweakFailed,
}

/// Mathematical model of the result of a commitment.
pub enum Outcome {
    /// The serialized output key.
    Output(Seq<u8>),
    /// The partner at this depth failed its check.
    InvalidPartner(nat, Partner),
    /// The builder refused a registration at this depth.
    Refused(nat),
    Incomplete,
    InvalidKey,
    TweakFailed,
}

/// The outcome that a commitment result stands for.
pub open spec fn outcome(r: Result<[u8; 32], TapretTreeError>) -> Outcome {
    match r {
        Ok(k) => Outcome::Output(k@),
        Err(TapretTreeError::InvalidPartnerProof(d, p)) => Outcome::InvalidPartner(d as nat, p@),
        Err(TapretTreeError::TreeBuilder(d, _)) => Outcome::Refused(d as nat),
        Err(TapretTreeError::IncompleteTree) => Outcome::Incomplete,
        Err(TapretTreeError::InvalidKey) => Outcome::InvalidKey,
        Err(TapretTreeError::TweakFailed) => Outcome::TweakFailed,
    }
}

/// The script of the commitment leaf: padding, `OP_RETURN`, then a push of
/// the digest.
pub open spec fn commitment_script(msg: Seq<u8>) -> Seq<u8> {
    Seq::new(RESERVED_PADDING as nat, |_i: int| OP_RESERVED) + seq![OP_RETURN, OP_PUSHBYTES_32]
        + msg
}

/// The commitment leaf registered at `depth`.
pub open spec fn commitment_slot(leaf: Seq<u8>, depth: nat) -> Slot {
    Slot::Leaf { depth, version: TAPSCRIPT_LEAF_VERSION, script: leaf }
}

/// Whether a builder holding `slots` takes the registration `s`.
pub open spec fn accepts(slots: Seq<Slot>, s: Slot) -> bool {
    match s {
        Slot::Leaf { depth, .. } => leaf_accepted(slots, depth),
        Slot::Hidden { depth, .. } => hidden_accepted(slots, depth),
    }
}

/// Registers `a` then `b` at `depth`, stopping at the first refusal.
pub open spec fn register_pair(slots: Seq<Slot>, a: Slot, b: Slot, depth: nat) -> Result<
    Seq<Slot>,
    Outcome,
> {
    if !accepts(slots, a) {
        Err(Outcome::Refused(depth))
    } else if !accepts(slots.push(a), b) {
        Err(Outcome::Refused(depth))
    } else {
        Ok(slots.push(a).push(b))
    }
}

/// Checks the partner at `depth`, then registers it beside the commitment
/// leaf: a hidden node to the left, a revealed leaf or branch to the right.
pub open spec fn register(slots: Seq<Slot>, leaf: Seq<u8>, p: Partner, depth: nat) -> Result<
    Seq<Slot>,
    Outcome,
> {
    if !partner_valid(p) {
        Err(Outcome::InvalidPartner(depth, p))
    } else {
        let c = commitment_slot(leaf, depth);
        match p {
            Partner::LeftNode(h) => register_pair(slots, Slot::Hidden { depth, hash: h }, c, depth),
            Partner::RightLeaf(v, s) => register_pair(
                slots,
                c,
                Slot::Leaf { depth, version: v, script: s },
                depth,
            ),
            Partner::RightBranch(h) => register_pair(
                slots,
                c,
                Slot::Hidden { depth, hash: h },
                depth,
            ),
        }
    }
}

/// The registrations for a whole path proof, partner by partner, with depth
/// one more than the partner's index.
pub open spec fn assemble(leaf: Seq<u8>, proof: Seq<Partner>) -> Result<Seq<Slot>, Outcome>
    decreases proof.len(),
{
    if proof.len() == 0 {
        Ok(Seq::empty())
    } else {
        match assemble(leaf, proof.drop_last()) {
            Err(e) => Err(e),
            Ok(slots) => register(slots, leaf, proof.last(), proof.len()),
        }
    }
}

/// The registrations of a commitment: the commitment leaf alone at the root
/// for an empty proof, else those of `assemble`.
pub open spec fn commit_slots(leaf: Seq<u8>, proof: Seq<Partner>) -> Result<Seq<Slot>, Outcome> {
    if proof.len() == 0 {
        if leaf_accepted(Seq::empty(), 0) {
            Ok(seq![commitment_slot(leaf, 0)])
        } else {
            Err(Outcome::Refused(0))
        }
    } else {
        assemble(leaf, proof)
    }
}

/// The hash of the node that a registration stands for.
pub open spec fn slot_hash(s: Slot) -> Seq<u8> {
    match s {
        Slot::Leaf { version, script, .. } => tap_leaf_hash(version, script),
        Slot::Hidden { hash, .. } => hash,
    }
}

/// The merkle root of the complete trees that a commitment registers: a
/// single node at the root, or a pair of nodes at depth one.
pub open spec fn tree_root(slots: Seq<Slot>) -> Seq<u8> {
    if slots.len() == 1 {
        slot_hash(slots[0])
    } else {
        tap_branch_hash(slot_hash(slots[0]), slot_hash(slots[1]))
    }
}

/// The result of committing `msg` under the internal key `key` along `proof`.
pub open spec fn commit_outcome(key: Seq<u8>, msg: Seq<u8>, proof: Seq<Partner>) -> Outcome {
    match commit_slots(commitment_script(msg), proof) {
        Err(e) => e,
        Ok(slots) => if !builder_finalized(slots) {
            Outcome::Incomplete
        } else {
            match tap_tweaked(key, tree_root(slots)) {
                Tweaked::Output(k) => Outcome::Output(k),
                Tweaked::InvalidKey => Outcome::InvalidKey,
                Tweaked::Failed => Outcome::TweakFailed,
            }
        },
    }
}

/// Whether `output_key` is the key that committing `msg` gives.
pub open spec fn verify_spec(key: Seq<u8>, msg: Seq<u8>, proof: Seq<Partner>, output_key: Seq<u8>) -> bool {
    commit_outcome(key, msg, proof) == Outcome::Output(output_key)
}

/// Builds the commitment leaf's script for the digest `msg`.
pub fn commitment_leaf(msg: &[u8; 32]) -> (r: Vec<u8>)
    ensures
        r@ == commitment_script(msg@),
{
    let mut v: Vec<u8> = Vec::new();
    let mut i: usize = 0;
    while i < RESERVED_PADDING
        invariant
            i <= RESERVED_PADDING,
            v@ == Seq::new(i as nat, |_i: int| OP_RESERVED),
        decreases RESERVED_PADDING - i,
    {
        v.push(OP_RESERVED);
        i = i + 1;
        assert(v@ =~= Seq::new(i as nat, |_i: int| OP_RESERVED));
    }
    v.push(OP_RETURN);
    v.push(OP_PUSHBYTES_32);
    let ghost prefix = v@;
    let mut j: usize = 0;
    while j < 32
        invariant
            j <= 32,
            prefix == Seq::new(RESERVED_PADDING as nat, |_i: int| OP_RESERVED) + seq![OP_RETURN, OP_PUSHBYTES_32],
            v@ == prefix + msg@.take(j as int),
        decreases 32 - j,
    {
        v.push(msg[j]);
        j = j + 1;
        assert(v@ =~= prefix + msg@.take(j as int));
    }
    assert(msg@.take(32) =~= msg@);
    v
}

/// Reads a node hash already known to be 32 bytes long.
fn node_hash(h: &Vec<u8>) -> (r: [u8; 32])
    requires
        h@.len() == 32,
    ensures
        r@ == h@,
{
    let mut a: [u8; 32] = [0u8; 32];
    let mut i: usize = 0;
    while i < 32
        invariant
            i <= 32,
            h@.len() == 32,
            forall|j: int| 0 <= j < i ==> a@[j] == h@[j],
        decreases 32 - i,
    {
        a[i] = h[i];
        i = i + 1;
    }
    assert(a@ =~= h@);
    a
}

/// An error that stops the assembly early stops it for every longer proof.
proof fn lemma_assemble_stops(leaf: Seq<u8>, proof: Seq<Partner>, k: int)
    requires
        0 <= k <= proof.len(),
        assemble(leaf, proof.take(k)) is Err,
    ensures
        assemble(leaf, proof) == assemble(leaf, proof.take(k)),
    decreases proof.len(),
{
    if k == proof.len() {
        assert(proof.take(k) =~= proof);
    } else {
        let front = proof.drop_last();
        assert(front.take(k) =~= proof.take(k));
        lemma_assemble_stops(leaf, front, k);
    }
}

/// Commits the digest `msg` into a taproot tree along `supplement` and tweaks
/// the x-only `internal_key` with the tree's merkle root, giving the
/// serialized output key. An empty proof puts the commitment leaf alone at
/// the root, and a single valid partner pairs with it at depth one: both fail
/// only on the key. A longer proof leaves branches open and fails, and one of
/// valid partners deeper than a taproot tree can be fails with a refusal of
/// the builder.
pub fn convolve_commit(internal_key: &[u8; 32], supplement: &TapretPathProof, msg: &[u8; 32]) -> (r:
    Result<[u8; 32], TapretTreeError>)
    ensures
        outcome(r) == commit_outcome(internal_key@, msg@, supplement@),
        supplement@.len() == 0 ==> (r is Ok || r matches Err(TapretTreeError::InvalidKey) || r matches Err(
            TapretTreeError::TweakFailed,
        )),
        supplement@.len() == 1 && partner_valid(supplement@[0]) ==> (r is Ok || r matches Err(
            TapretTreeError::InvalidKey,
        ) || r matches Err(TapretTreeError::TweakFailed)),
        supplement@.len() >= 2 ==> r is Err,
        supplement@.len() > MAX_TREE_DEPTH && (forall|j: int|
            0 <= j < supplement@.len() ==> partner_valid(#[trigger] supplement@[j]))
            ==> r matches Err(TapretTreeError::TreeBuilder(_, _)),
{
    let script = commitment_leaf(msg);
    let ghost leaf = script@;
    let ghost proof = supplement@;
    let mut builder = new_builder();
    let n = supplement.partners.len();
    if n == 0 {
        builder = match add_leaf(builder, 0, &script, TAPSCRIPT_LEAF_VERSION) {
            Ok(b) => b,
            Err(e) => return Err(TapretTreeError::TreeBuilder(0, e)),
        };
        assert(builder_slots(&builder) =~= seq![commitment_slot(leaf, 0)]);
    }
    let mut i: usize = 0;
    while i < n
        invariant
            n == supplement.partners.len(),
            proof == supplement@,
            proof.len() == n,
            leaf == commitment_script(msg@),
            script@ == leaf,
            i <= n,
            i <= MAX_TREE_DEPTH,
            n == 0 ==> commit_slots(leaf, proof) == Ok::<Seq<Slot>, Outcome>(builder_slots(&builder)),
            n > 0 ==> assemble(leaf, proof.take(i as int)) == Ok::<Seq<Slot>, Outcome>(
                builder_slots(&builder),
            ),
            n > 0 ==> builder_slots(&builder).len() == 2 * i,
            n > 0 && i > 0 ==> slot_depth(builder_slots(&builder)[0]) == 1 && slot_depth(
                builder_slots(&builder)[1],
            ) == 1,
            forall|j: int| 0 <= j < i ==> partner_valid(#[trigger] proof[j]),
        decreases n - i,
    {
        let depth: u8 = i as u8 + 1;
        let partner = &supplement.partners[i];
        assert(proof[i as int] == partner@);
        assert(proof.take(i as int + 1).drop_last() =~= proof.take(i as int));
        assert(proof.take(i as int + 1).last() == proof[i as int]);
        if !partner.check() {
            proof {
                lemma_assemble_stops(leaf, proof, i as int + 1);
            }
            return Err(TapretTreeError::InvalidPartnerProof(depth, partner.duplicate()));
        }
        match partner {
            TapretNodePartner::LeftNode(h) => {
                let hash = node_hash(h);
                builder = match add_hidden(builder, depth, &hash) {
                    Ok(b) => b,
                    Err(e) => {
                        proof {
                            lemma_assemble_stops(leaf, proof, i as int + 1);
                        }
                        return Err(TapretTreeError::TreeBuilder(depth, e));
                    },
                };
                builder = match add_leaf(builder, depth, &script, TAPSCRIPT_LEAF_VERSION) {
                    Ok(b) => b,
                    Err(e) => {
                        proof {
                            lemma_assemble_stops(leaf, proof, i as int + 1);
                        }
                        return Err(TapretTreeError::TreeBuilder(depth, e));
                    },
                };
            },
            TapretNodePartner::RightLeaf(l) => {
                builder = match add_leaf(builder, depth, &script, TAPSCRIPT_LEAF_VERSION) {
                    Ok(b) => b,
                    Err(e) => {
                        proof {
                            lemma_assemble_stops(leaf, proof, i as int + 1);
                        }
                        return Err(TapretTreeError::TreeBuilder(depth, e));
                    },
                };
                builder = match add_leaf(builder, depth, &l.script, l.version) {
                    Ok(b) => b,
                    Err(e) => {
                        proof {
                            lemma_assemble_stops(leaf, proof, i as int + 1);
                        }
                        return Err(TapretTreeError::TreeBuilder(depth, e));
                    },
                };
            },
            TapretNodePartner::RightBranch(h) => {
                let hash = node_hash(h);
                builder = match add_leaf(builder, depth, &script, TAPSCRIPT_LEAF_VERSION) {
                    Ok(b) => b,
                    Err(e) => {
                        proof {
                            lemma_assemble_stops(leaf, proof, i as int + 1);
                        }
                        return Err(TapretTreeError::TreeBuilder(depth, e));
                    },
                };
                builder = match add_hidden(builder, depth, &hash) {
                    Ok(b) => b,
                    Err(e) => {
                        proof {
                            lemma_assemble_stops(leaf, proof, i as int + 1);
                        }
                        return Err(TapretTreeError::TreeBuilder(depth, e));
                    },
                };
            },
        }
        i = i + 1;
    }
    if n > 0 {
        assert(proof.take(n as int) =~= proof);
    }
    if !is_complete(&builder) {
        return Err(TapretTreeError::IncompleteTree);
    }
    let root: [u8; 32] = if n == 0 {
        leaf_hash(&script, TAPSCRIPT_LEAF_VERSION)
    } else {
        let c = leaf_hash(&script, TAPSCRIPT_LEAF_VERSION);
        assert(proof.drop_last() =~= Seq::<Partner>::empty());
        assert(proof[0] == supplement.partners[0]@);
        match &supplement.partners[0] {
            TapretNodePartner::LeftNode(h) => branch_hash(&node_hash(h), &c),
            TapretNodePartner::RightLeaf(l) => branch_hash(&c, &leaf_hash(&l.script, l.version)),
            TapretNodePartner::RightBranch(h) => branch_hash(&c, &node_hash(h)),
        }
    };
    match tap_tweak(internal_key, &root) {
        Ok(k) => Ok(k),
        Err(TweakError::InvalidKey) => Err(TapretTreeError::InvalidKey),
        Err(TweakError::Failed) => Err(TapretTreeError::TweakFailed),
    }
}

/// Checks whether `output_key` is the key that committing `msg` along
/// `supplement` under `internal_key` gives, by committing again.
pub fn verify(
    internal_key: &[u8; 32],
    supplement: &TapretPathProof,
    msg: &[u8; 32],
    output_key: &[u8; 32],
) -> (r: bool)
    ensures
        r == verify_spec(internal_key@, msg@, supplement@, output_key@),
{
    let res = convolve_commit(internal_key, supplement, msg);
    match res {
        Ok(k) => {
            assert(commit_outcome(internal_key@, msg@, supplement@) == Outcome::Output(k@));
            let mut i: usize = 0;
            while i < 32
                invariant
                    i <= 32,
                    forall|j: int| 0 <= j < i ==> k@[j] == output_key@[j],
                    commit_outcome(internal_key@, msg@, supplement@) == Outcome::Output(k@),
                decreases 32 - i,
            {
                if k[i] != output_key[i] {
                    assert(k@[i as int] != output_key@[i as int]);
                    assert(k@ != output_key@);
                    return false;
                }
                i = i + 1;
            }
            assert(k@ =~= output_key@);
            true
        },
        Err(_) => false,
    }
}

/// Committing twice to the same digest along the same proof under the same
/// key gives the same result.
pub proof fn lemma_commit_deterministic(
    key: Seq<u8>,
    msg: Seq<u8>,
    proof: Seq<Partner>,
    r1: Result<[u8; 32], TapretTreeError>,
    r2: Result<[u8; 32], TapretTreeError>,
)
    requires
        outcome(r1) == commit_outcome(key, msg, proof),
        outcome(r2) == commit_outcome(key, msg, proof),
    ensures
        outcome(r1) == outcome(r2),
        r1 is Ok <==> r2 is Ok,
        r1 is Ok ==> r1->Ok_0@ == r2->Ok_0@,
{
}

/// Verification accepts the output key of every commitment that succeeds.
pub proof fn lemma_verify_accepts_commit(
    key: Seq<u8>,
    msg: Seq<u8>,
    proof: Seq<Partner>,
    r: Result<[u8; 32], TapretTreeError>,
)
    requires
        outcome(r) == commit_outcome(key, msg, proof),
        r is Ok,
    ensures
        verify_spec(key, msg, proof, r->Ok_0@),
{
}

/// Along a proof of valid partners, the assembly can only stop at a refusal
/// of the builder, at a depth within the proof.
proof fn lemma_valid_assembly_errors(leaf: Seq<u8>, proof: Seq<Partner>)
    requires
        forall|j: int| 0 <= j < proof.len() ==> partner_valid(#[trigger] proof[j]),
    ensures
        match assemble(leaf, proof) {
            Ok(_) => true,
            Err(Outcome::Refused(d)) => 1 <= d <= proof.len(),
            Err(_) => false,
        },
    decreases proof.len(),
{
    if proof.len() > 0 {
        let front = proof.drop_last();
        assert forall|j: int| 0 <= j < front.len() implies partner_valid(#[trigger] front[j]) by {
            assert(front[j] == proof[j]);
        }
        lemma_valid_assembly_errors(leaf, front);
        assert(partner_valid(proof[proof.len() - 1]));
    }
}

/// An invalid partner stops the commitment: no later partner is read, and
/// where every earlier partner is valid, the result is `InvalidPartner` at
/// the partner's depth, unless the builder refused an earlier registration.
pub proof fn lemma_invalid_partner_stops(key: Seq<u8>, msg: Seq<u8>, proof: Seq<Partner>, i: int)
    requires
        0 <= i < proof.len(),
        !partner_valid(proof[i]),
    ensures
        commit_outcome(key, msg, proof) == commit_outcome(key, msg, proof.take(i + 1)),
        assemble(commitment_script(msg), proof.take(i)) is Ok ==> commit_outcome(key, msg, proof)
            == Outcome::InvalidPartner((i + 1) as nat, proof[i]),
        (forall|j: int| 0 <= j < i ==> partner_valid(#[trigger] proof[j])) ==> match commit_outcome(
            key,
            msg,
            proof,
        ) {
            Outcome::InvalidPartner(d, p) => d == i + 1 && p == proof[i],
            Outcome::Refused(d) => 1 <= d <= i,
            _ => false,
        },
{
    let leaf = commitment_script(msg);
    let pre = proof.take(i + 1);
    assert(pre.drop_last() =~= proof.take(i));
    assert(pre.last() == proof[i]);
    assert(pre.take(i + 1) =~= pre);
    lemma_assemble_stops(leaf, proof, i + 1);
    if forall|j: int| 0 <= j < i ==> partner_valid(#[trigger] proof[j]) {
        let front = proof.take(i);
        assert forall|j: int| 0 <= j < front.len() implies partner_valid(#[trigger] front[j]) by {
            assert(front[j] == proof[j]);
        }
        lemma_valid_assembly_errors(leaf, front);
    }
}

} // verus!
