use vstd::prelude::*;

verus! {

/// Offset of the path inside a Unix socket address: it follows the
/// two-byte address family.
pub const PATH_OFFSET: u32 = 2;
/// Size of the path field of a Unix socket address.
pub const SUN_PATH_LEN: usize = 108;

/// What a Unix socket address names.
#[derive(Clone, Copy, PartialEq, Eq, Structural, Debug)]
pub enum AddressKind {
    /// No name.
    Unnamed,
    /// A filesystem path: bytes `0..end` of the path field.
    Pathname { end: usize },
    /// A name in the abstract namespace: bytes `1..end` of the path field.
    Abstract { end: usize },
}

/// The bytes of the path field the address length covers, capped to the field.
pub open spec fn path_len(socklen: u32) -> int {
    let n = socklen - PATH_OFFSET;
    if n > SUN_PATH_LEN {
        SUN_PATH_LEN as int
    } else {
        n
    }
}

/// A Unix socket address as the kernel filled it: the path field and the
/// address length.
#[derive(Clone, Debug)]
pub struct SocketAddr {
    path: Vec<u8>,
    socklen: u32,
}

impl SocketAddr {
    pub closed spec fn path(&self) -> Seq<u8> {
        self.path@
    }

    pub closed spec fn socklen(&self) -> u32 {
        self.socklen
    }

    /// What the address names: unnamed when the length leaves no path
    /// bytes; abstract when the path starts with a zero byte; otherwise a
    /// path, without its terminating zero.
    pub open spec fn kind_of(&self) -> AddressKind {
        if self.socklen() < PATH_OFFSET || path_len(self.socklen()) == 0 {
            AddressKind::Unnamed
        } else if self.path()[0] == 0 {
            AddressKind::Abstract { end: path_len(self.socklen()) as usize }
        } else {
            AddressKind::Pathname { end: (path_len(self.socklen()) - 1) as usize }
        }
    }

    /// An address from its path field and length; a path field of another
    /// size than the platform's is cut or padded with zeros.
    pub fn from_parts(path: &[u8], socklen: u32) -> (r: SocketAddr)
        ensures
            r.path().len() == SUN_PATH_LEN,
            forall|i: int| 0 <= i < SUN_PATH_LEN && i < path@.len() ==> r.path()[i] == path@[i],
            forall|i: int| path@.len() <= i < SUN_PATH_LEN ==> r.path()[i] == 0,
            r.socklen() == socklen,
    {
        let mut p: Vec<u8> = Vec::new();
        let mut i: usize = 0;
        while i < SUN_PATH_LEN
            invariant
                i <= SUN_PATH_LEN,
                p@.len() == i,
                forall|k: int| 0 <= k < i && k < path@.len() ==> p@[k] == path@[k],
                forall|k: int| path@.len() <= k < i ==> p@[k] == 0,
            decreases SUN_PATH_LEN - i,
        {
            if i < path.len() {
                p.push(path[i]);
            } else {
                p.push(0);
            }
            i = i + 1;
        }
        SocketAddr { path: p, socklen }
    }

    /// What the address names.
    pub fn address(&self) -> (r: AddressKind)
        requires
            self.path().len() == SUN_PATH_LEN,
        ensures
            r == self.kind_of(),
    {
        if self.socklen < PATH_OFFSET {
            return AddressKind::Unnamed;
        }
        let n = self.socklen - PATH_OFFSET;
        let len: usize = if n as u64 > SUN_PATH_LEN as u64 {
            SUN_PATH_LEN
        } else {
            n as usize
        };
        if len == 0 {
            AddressKind::Unnamed
        } else if self.path[0] == 0 {
            AddressKind::Abstract { end: len }
        } else {
            AddressKind::Pathname { end: len - 1 }
        }
    }

    /// Whether the address names nothing.
    pub fn is_unnamed(&self) -> (r: bool)
        requires
            self.path().len() == SUN_PATH_LEN,
        ensures
            r == (self.kind_of() == AddressKind::Unnamed),
    {
        match self.address() {
            AddressKind::Unnamed => true,
            _ => false,
        }
    }

    /// The path bytes, for an address that names a filesystem path.
    pub fn as_pathname(&self) -> (r: Option<&[u8]>)
        requires
            self.path().len() == SUN_PATH_LEN,
        ensures
            self.kind_of() matches AddressKind::Pathname { end } ==> r matches Some(s) && s@
                == self.path().subrange(0, end as int),
            !(self.kind_of() is Pathname) ==> r is None,
    {
        match self.address() {
            AddressKind::Pathname { end } => Some(
                vstd::slice::slice_subrange(self.path.as_slice(), 0, end),
            ),
            _ => None,
        }
    }

    /// The name bytes, for an address in the abstract namespace.
    pub fn as_abstract_namespace(&self) -> (r: Option<&[u8]>)
        requires
            self.path().len() == SUN_PATH_LEN,
        ensures
            self.kind_of() matches AddressKind::Abstract { end } ==> r matches Some(s) && s@
                == self.path().subrange(1, end as int),
            !(self.kind_of() is Abstract) ==> r is None,
    {
        match self.address() {
            AddressKind::Abstract { end } => Some(
                vstd::slice::slice_subrange(self.path.as_slice(), 1, end),
            ),
            _ => None,
        }
    }
}

} // verus!
