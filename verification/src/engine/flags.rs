use vstd::prelude::*;

verus! {

/// Processing state of a node, held as a set of bits.
#[derive(Clone, Copy, Debug, PartialEq, Eq, Structural)]
pub struct NodeFlags {
    pub bits: u8,
}

/// Bit set when a node is processed and needs no processing until it changes.
pub const IS_PROCESSED_BIT: u8 = 1;
/// Bit set while a node waits for an external data request.
pub const IS_REQUESTING_BIT: u8 = 2;
/// Bit set when a node cannot be processed in the current state of the graph.
pub const IS_BLOCKED_BIT: u8 = 4;
/// Bit set when the last attempt to process a node ended in an error.
pub const HAD_ERROR_BIT: u8 = 8;

impl NodeFlags {
    /// True when every bit of `other` is set in `self`.
    pub open spec fn has(self, other: NodeFlags) -> bool {
        self.bits & other.bits == other.bits
    }

    /// The flags after toggling every bit of `other`.
    pub open spec fn toggled(self, other: NodeFlags) -> NodeFlags {
        NodeFlags { bits: self.bits ^ other.bits }
    }

    pub fn empty() -> (f: NodeFlags)
        ensures
            f.bits == 0,
    {
        NodeFlags { bits: 0 }
    }

    pub fn is_processed() -> (f: NodeFlags)
        ensures
            f.bits == IS_PROCESSED_BIT,
    {
        NodeFlags { bits: IS_PROCESSED_BIT }
    }

    pub fn is_requesting() -> (f: NodeFlags)
        ensures
            f.bits == IS_REQUESTING_BIT,
    {
        NodeFlags { bits: IS_REQUESTING_BIT }
    }

    pub fn is_blocked() -> (f: NodeFlags)
        ensures
            f.bits == IS_BLOCKED_BIT,
    {
        NodeFlags { bits: IS_BLOCKED_BIT }
    }

    pub fn had_error() -> (f: NodeFlags)
        ensures
            f.bits == HAD_ERROR_BIT,
    {
        NodeFlags { bits: HAD_ERROR_BIT }
    }

    /// True when every bit of `other` is set.
    pub fn contains(&self, other: NodeFlags) -> (r: bool)
        ensures
            r == self.has(other),
    {
        self.bits & other.bits == other.bits
    }

    /// Flips every bit of `other`.
    pub fn toggle(&mut self, other: NodeFlags)
        ensures
            *final(self) == old(self).toggled(other),
    {
        self.bits = self.bits ^ other.bits;
    }
}

/// Toggling the same flags twice gives back the original flags.
pub proof fn law_toggle_twice_restores(f: NodeFlags, g: NodeFlags)
    ensures
        f.toggled(g).toggled(g) == f,
{
    let a = f.bits;
    let b = g.bits;
    assert((a ^ b) ^ b == a) by (bit_vector);
}

/// Toggling one of the four single-bit flags flips whether it is set and
/// leaves the other three as they were.
pub proof fn law_toggle_single_bit(f: NodeFlags, g: NodeFlags, h: NodeFlags)
    requires
        g.bits == IS_PROCESSED_BIT || g.bits == IS_REQUESTING_BIT || g.bits == IS_BLOCKED_BIT
            || g.bits == HAD_ERROR_BIT,
        h.bits == IS_PROCESSED_BIT || h.bits == IS_REQUESTING_BIT || h.bits == IS_BLOCKED_BIT
            || h.bits == HAD_ERROR_BIT,
    ensures
        f.toggled(g).has(g) == !f.has(g),
        h != g ==> f.toggled(g).has(h) == f.has(h),
{
    let a = f.bits;
    let b = g.bits;
    let c = h.bits;
    assert(b == 1u8 || b == 2u8 || b == 4u8 || b == 8u8 ==> (((a ^ b) & b == b) == !(a & b == b)))
        by (bit_vector);
    assert((b == 1u8 || b == 2u8 || b == 4u8 || b == 8u8) && (c == 1u8 || c == 2u8 || c == 4u8
        || c == 8u8) && b != c ==> (((a ^ b) & c == c) == (a & c == c))) by (bit_vector);
}

/// Flags of a node in the form sent to API clients.
#[derive(Clone, Copy, Debug, PartialEq, Eq, Structural)]
pub enum APINodeFlags {
    Unset,
    IsProcessed,
    IsRequesting,
    IsBlocked,
    HadError,
}

/// The API flags that a set of node flags lists, in a fixed order.
pub open spec fn api_flags_of(flags: NodeFlags) -> Seq<APINodeFlags> {
    let s0 = Seq::<APINodeFlags>::empty();
    let s1 = if flags.bits & IS_PROCESSED_BIT == IS_PROCESSED_BIT {
        s0.push(APINodeFlags::IsProcessed)
    } else {
        s0
    };
    let s2 = if flags.bits & IS_REQUESTING_BIT == IS_REQUESTING_BIT {
        s1.push(APINodeFlags::IsRequesting)
    } else {
        s1
    };
    let s3 = if flags.bits & IS_BLOCKED_BIT == IS_BLOCKED_BIT {
        s2.push(APINodeFlags::IsBlocked)
    } else {
        s2
    };
    if flags.bits & HAD_ERROR_BIT == HAD_ERROR_BIT {
        s3.push(APINodeFlags::HadError)
    } else {
        s3
    }
}

impl APINodeFlags {
    pub fn from_node_flags(flags: &NodeFlags) -> (r: Vec<APINodeFlags>)
        ensures
            r@ == api_flags_of(*flags),
    {
        let mut api_flags: Vec<APINodeFlags> = Vec::new();
        if flags.contains(NodeFlags::is_processed()) {
            api_flags.push(APINodeFlags::IsProcessed);
        }
        if flags.contains(NodeFlags::is_requesting()) {
            api_flags.push(APINodeFlags::IsRequesting);
        }
        if flags.contains(NodeFlags::is_blocked()) {
            api_flags.push(APINodeFlags::IsBlocked);
        }
        if flags.contains(NodeFlags::had_error()) {
            api_flags.push(APINodeFlags::HadError);
        }
        api_flags
    }
}

} // verus!
