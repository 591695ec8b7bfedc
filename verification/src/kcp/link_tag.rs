//! Names of KCP links.
use crate::addr::SocketAddr;
use crate::vec_map::MapKey;
use vstd::prelude::*;
use vstd::string::*;

verus! {

/// Which side initiated a link.
#[derive(Debug, Clone, Copy, PartialEq, Eq, Structural, Hash, PartialOrd, Ord)]
pub enum Direction {
    /// The remote side.
    Incoming,
    /// The local side.
    Outgoing,
}

/// Link tag for a KCP link.
#[derive(Debug, Clone, Copy, PartialEq, Eq, Structural, Hash, PartialOrd, Ord)]
pub struct KcpLinkTag {
    /// Local address.
    pub local: SocketAddr,
    /// Remote address.
    pub remote: SocketAddr,
    /// Link direction.
    pub direction: Direction,
}

impl KcpLinkTag {
    /// Creates a link tag for a KCP link.
    pub fn new(local: SocketAddr, remote: SocketAddr, direction: Direction) -> (tag: KcpLinkTag)
        ensures
            tag == (KcpLinkTag { local, remote, direction }),
    {
        KcpLinkTag { local, remote, direction }
    }

    /// Creates an incoming link tag.
    pub fn incoming(local: SocketAddr, remote: SocketAddr) -> (tag: KcpLinkTag)
        ensures
            tag == (KcpLinkTag { local, remote, direction: Direction::Incoming }),
    {
        Self::new(local, remote, Direction::Incoming)
    }

    /// Creates an outgoing link tag.
    pub fn outgoing(local: SocketAddr, remote: SocketAddr) -> (tag: KcpLinkTag)
        ensures
            tag == (KcpLinkTag { local, remote, direction: Direction::Outgoing }),
    {
        Self::new(local, remote, Direction::Outgoing)
    }

    /// Returns the name of the transport.
    pub fn transport_name(&self) -> (name: &'static str)
        ensures
            name@ == "kcp"@,
    {
        "kcp"
    }

    /// Returns the data that is sent along when the link is set up: none.
    pub fn user_data(&self) -> (data: Vec<u8>)
        ensures
            data@.len() == 0,
    {
        Vec::new()
    }

    /// The text shown for this tag, `remote` and `local` being the texts shown
    /// for its addresses.
    pub open spec fn text(self, remote: Seq<char>, local: Seq<char>) -> Seq<char> {
        "KCP "@ + (match self.direction {
            Direction::Incoming => "<-"@,
            Direction::Outgoing => "->"@,
        }) + " "@ + remote + " (local: "@ + local + ")"@
    }

    /// Returns the text shown for this tag, `remote` and `local` being the
    /// texts shown for its addresses.
    pub fn label(&self, remote: &str, local: &str) -> (s: String)
        ensures
            s@ == self.text(remote@, local@),
    {
        let dir = match self.direction {
            Direction::Incoming => "<-",
            Direction::Outgoing => "->",
        };
        "KCP ".to_owned().concat(dir).concat(" ").concat(remote).concat(" (local: ").concat(
            local,
        ).concat(")")
    }
}

impl MapKey for KcpLinkTag {
    type Model = KcpLinkTag;

    open spec fn model(&self) -> KcpLinkTag {
        *self
    }

    fn same_key(&self, other: &Self) -> (r: bool) {
        *self == *other
    }
}

} // verus!
