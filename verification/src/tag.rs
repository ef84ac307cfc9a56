//! Block references and the tag derived from them for metric labels.

use vstd::prelude::*;

verus! {

/// A caller-supplied reference to a block: either concrete (a number or a
/// hash) or symbolic (the latest or the pending block).
#[derive(Clone, Copy, Debug)]
pub enum BlockId {
    Number(u64),
    Hash([u8; 32]),
    Latest,
    Pending,
}

/// The block tag attached to a request's metrics, derived once per call from
/// a [`BlockId`]. Only the symbolic references carry a tag; concrete block
/// references are not distinguished on the metrics surface.
#[derive(Clone, Copy, Debug, PartialEq, Eq, Structural)]
pub enum BlockTag {
    NoTag,
    Latest,
    Pending,
}

/// The tag a block reference maps to: symbolic references keep their name,
/// concrete ones carry no tag.
pub open spec fn spec_classify(id: BlockId) -> BlockTag {
    match id {
        BlockId::Number(_) => BlockTag::NoTag,
        BlockId::Hash(_) => BlockTag::NoTag,
        BlockId::Latest => BlockTag::Latest,
        BlockId::Pending => BlockTag::Pending,
    }
}

impl From<BlockId> for BlockTag {
    fn from(id: BlockId) -> (r: Self)
        ensures
            r == spec_classify(id),
    {
        match id {
            BlockId::Number(_) | BlockId::Hash(_) => BlockTag::NoTag,
            BlockId::Latest => BlockTag::Latest,
            BlockId::Pending => BlockTag::Pending,
        }
    }
}

impl vstd::std_specs::convert::FromSpecImpl<BlockId> for BlockTag {
    open spec fn obeys_from_spec() -> bool {
        true
    }

    open spec fn from_spec(id: BlockId) -> Self {
        spec_classify(id)
    }
}

impl BlockTag {
    /// The external label of the tag, if it has one: symbolic tags are shown
    /// as `"latest"` / `"pending"`, the absent tag has no label.
    pub fn as_str(self) -> (r: Option<&'static str>)
        ensures
            self is NoTag <==> r is None,
            self is Latest ==> (r matches Some(s) && s@ == "latest"@),
            self is Pending ==> (r matches Some(s) && s@ == "pending"@),
    {
        match self {
            BlockTag::NoTag => None,
            BlockTag::Latest => Some("latest"),
            BlockTag::Pending => Some("pending"),
        }
    }
}

} // verus!
