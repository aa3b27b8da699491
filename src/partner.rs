use vstd::prelude::*;

verus! {

/// Leaf version of BIP-342 tapscript.
pub const TAPSCRIPT_LEAF_VERSION: u8 = 0xc0;

/// Byte that would make a leaf version collide with the taproot annex tag.
pub const ANNEX_TAG: u8 = 0x50;

/// Size of a taproot node hash.
pub const NODE_HASH_LEN: usize = 32;

/// Whether `v` is a leaf version that taproot script trees accept: an even
/// byte other than the annex tag.
pub open spec fn is_leaf_version(v: u8) -> bool {
    v % 2 == 0 && v != ANNEX_TAG
}

/// A revealed script leaf: its leaf version byte and its script bytes.
#[derive(Clone, Debug, PartialEq, Eq)]
pub struct LeafScript {
    pub version: u8,
    pub script: Vec<u8>,
}

/// The sibling of the commitment leaf at one depth of the path to the root.
#[derive(Clone, Debug, PartialEq, Eq)]
pub enum TapretNodePartner {
    /// A hidden subtree, given by its hash, standing left of the commitment.
    LeftNode(Vec<u8>),
    /// A revealed script leaf standing right of the commitment.
    RightLeaf(LeafScript),
    /// A revealed subtree, given by its root hash, standing right of the
    /// commitment.
    RightBranch(Vec<u8>),
}

/// Mathematical model of a node partner.
pub enum Partner {
    LeftNode(Seq<u8>),
    RightLeaf(u8, Seq<u8>),
    RightBranch(Seq<u8>),
}

impl View for TapretNodePartner {
    type V = Partner;

    open spec fn view(&self) -> Partner {
        match self {
            TapretNodePartner::LeftNode(h) => Partner::LeftNode(h@),
            TapretNodePartner::RightLeaf(l) => Partner::RightLeaf(l.version, l.script@),
            TapretNodePartner::RightBranch(h) => Partner::RightBranch(h@),
        }
    }
}

/// Structural validity of a node partner. Hidden content cannot be checked
/// beyond the shape of its hash.
pub open spec fn partner_valid(p: Partner) -> bool {
    match p {
        Partner::LeftNode(h) => h.len() == NODE_HASH_LEN,
        Partner::RightLeaf(v, s) => is_leaf_version(v) && s.len() > 0,
        Partner::RightBranch(h) => h.len() == NODE_HASH_LEN,
    }
}

/// Copies a byte vector.
fn copy_bytes(v: &Vec<u8>) -> (r: Vec<u8>)
    ensures
        r@ == v@,
{
    let mut out: Vec<u8> = Vec::new();
    let mut i: usize = 0;
    while i < v.len()
        invariant
            i <= v@.len(),
            out@ == v@.take(i as int),
        decreases v@.len() - i,
    {
        out.push(v[i]);
        i = i + 1;
        assert(out@ =~= v@.take(i as int));
    }
    assert(v@.take(v@.len() as int) =~= v@);
    out
}

impl TapretNodePartner {
    /// An equal partner, owned.
    pub fn duplicate(&self) -> (r: TapretNodePartner)
        ensures
            r@ == self@,
    {
        match self {
            TapretNodePartner::LeftNode(h) => TapretNodePartner::LeftNode(copy_bytes(h)),
            TapretNodePartner::RightLeaf(l) => TapretNodePartner::RightLeaf(
                LeafScript { version: l.version, script: copy_bytes(&l.script) },
            ),
            TapretNodePartner::RightBranch(h) => TapretNodePartner::RightBranch(copy_bytes(h)),
        }
    }

    /// Checks the partner's structure before it enters a tree.
    pub fn check(&self) -> (r: bool)
        ensures
            r == partner_valid(self@),
    {
        match self {
            TapretNodePartner::LeftNode(h) => h.len() == NODE_HASH_LEN,
            TapretNodePartner::RightLeaf(l) => {
                l.version % 2 == 0 && l.version != ANNEX_TAG && l.script.len() > 0
            },
            TapretNodePartner::RightBranch(h) => h.len() == NODE_HASH_LEN,
        }
    }
}

/// The partners of the commitment leaf, from the first depth outward.
#[derive(Clone, Debug, PartialEq, Eq)]
pub struct TapretPathProof {
    pub partners: Vec<TapretNodePartner>,
}

impl View for TapretPathProof {
    type V = Seq<Partner>;

    open spec fn view(&self) -> Seq<Partner> {
        self.partners@.map_values(|p: TapretNodePartner| p@)
    }
}

} // verus!
