//! A minimal in-memory model of the file layer this core consumes: a flat
//! directory of named inodes, each a growable byte sequence with a link
//! count, plus the record kept for every open of a file.
//!
//! The real file system and inode store are outside collaborators; the
//! syscall layer only ever reads the pieces modelled here: whether a path
//! resolves, a stream's bytes and per-open offset, the readable/writable
//! capabilities, and the identity and link count reported by `fstat`.

use vstd::prelude::*;

verus! {

/// `open` flag: write-only access.
pub const OPEN_WRONLY: u32 = 1;
/// `open` flag: read-write access.
pub const OPEN_RDWR: u32 = 2;
/// `open` flag: create the file, truncating it if it already exists.
pub const OPEN_CREATE: u32 = 512;
/// `open` flag: truncate an existing file.
pub const OPEN_TRUNC: u32 = 1024;

/// `mode` bits reported by `fstat` for a regular file.
pub const STAT_MODE_FILE: u32 = 0o100000;

/// What `fstat` fills in for a descriptor: device id, inode id, mode,
/// link count, and ABI padding.
#[derive(Clone, Copy)]
pub struct Stat {
    pub dev: u64,
    pub ino: u64,
    pub mode: u32,
    pub nlink: u32,
    pub pad: [u64; 7],
}

/// One stored file body: its hard-link count and its bytes.
pub struct Inode {
    pub nlink: u32,
    pub data: Vec<u8>,
}

/// One directory entry: a name bound to an inode handle.
pub struct DirEnt {
    pub name: Vec<u8>,
    pub inode: usize,
}

/// The flat in-memory file store.
pub struct Fs {
    pub inodes: Vec<Inode>,
    pub dents: Vec<DirEnt>,
}

/// One entry of the kernel's shared open-file table: a reference-counted
/// handle to a byte stream with its capabilities and read/write cursor.
/// Descriptor slots of several tasks may share one entry (after `dup`),
/// which is what the reference count records.
pub struct OpenFile {
    pub refs: usize,
    pub readable: bool,
    pub writable: bool,
    pub inode: usize,
    pub offset: usize,
}

impl Fs {
    /// Invariant: directory names are distinct and every entry points at a
    /// stored inode.
    pub open spec fn wf(self) -> bool {
        &&& forall|i: int, j: int|
            0 <= i < j < self.dents@.len() ==> (#[trigger] self.dents@[i]).name@ != (
            #[trigger] self.dents@[j]).name@
        &&& forall|i: int|
            0 <= i < self.dents@.len() ==> (#[trigger] self.dents@[i]).inode
                < self.inodes@.len()
    }

    /// Whether some directory entry carries `name`.
    pub open spec fn dir_has(self, name: Seq<u8>) -> bool {
        exists|i: int| 0 <= i < self.dents@.len() && (#[trigger] self.dents@[i]).name@ == name
    }

    /// The inode handle `name` resolves to (meaningful when `dir_has`).
    pub open spec fn dir_ino(self, name: Seq<u8>) -> usize {
        self.dents@[self.dir_idx(name)].inode
    }

    /// The directory index `name` stands at (meaningful when `dir_has`;
    /// with distinct names it is the only match).
    pub open spec fn dir_idx(self, name: Seq<u8>) -> int {
        choose|i: int| 0 <= i < self.dents@.len() && (#[trigger] self.dents@[i]).name@ == name
    }

    /// An empty file store.
    pub fn new() -> (r: Fs)
        ensures
            r.wf(),
            r.dents@.len() == 0,
            r.inodes@.len() == 0,
    {
        Fs { inodes: Vec::new(), dents: Vec::new() }
    }

    /// Resolves a path in the directory.
    pub fn lookup(&self, name: &Vec<u8>) -> (r: Option<usize>)
        requires
            self.wf(),
        ensures
            r.is_some() <==> self.dir_has(name@),
            r.is_some() ==> r.unwrap() == self.dir_ino(name@) && r.unwrap()
                < self.inodes@.len(),
    {
        let n = self.dents.len();
        let mut i: usize = 0;
        while i < n
            invariant
                n == self.dents@.len(),
                0 <= i <= n,
                self.wf(),
                forall|j: int| 0 <= j < i ==> (#[trigger] self.dents@[j]).name@ != name@,
            decreases n - i,
        {
            if bytes_eq(&self.dents[i].name, name) {
                proof {
                    let w = choose|k: int|
                        0 <= k < self.dents@.len() && (#[trigger] self.dents@[k]).name@
                            == name@;
                    assert(w == i);
                }
                return Some(self.dents[i].inode);
            }
            i += 1;
        }
        None
    }
}

/// A run of `n` zero bytes.
pub open spec fn zero_bytes(n: int) -> Seq<u8> {
    Seq::new(n as nat, |i: int| 0u8)
}

/// A file body extended with zeros up to a write cursor beyond its end
/// (a cursor inside the body leaves it as it is).
pub open spec fn write_base(data: Seq<u8>, off: int) -> Seq<u8> {
    if off <= data.len() {
        data
    } else {
        data + zero_bytes(off - data.len())
    }
}

/// A file body after writing `buf` at cursor `off`: bytes before the
/// cursor survive, a cursor beyond the end zero-fills the gap, the
/// buffer overwrites from the cursor on, and any bytes after the
/// overwritten stretch survive.
pub open spec fn written(data: Seq<u8>, off: int, buf: Seq<u8>) -> Seq<u8> {
    write_base(data, off).take(off) + buf + (if off + buf.len() < write_base(data, off).len() {
        write_base(data, off).skip(off + buf.len())
    } else {
        Seq::empty()
    })
}

/// An element-for-element copy of a byte string.
pub fn clone_bytes(v: &Vec<u8>) -> (r: Vec<u8>)
    ensures
        r@ == v@,
{
    let n = v.len();
    let mut out: Vec<u8> = Vec::new();
    let mut i: usize = 0;
    while i < n
        invariant
            n == v@.len(),
            0 <= i <= n,
            out@ == v@.take(i as int),
        decreases n - i,
    {
        out.push(v[i]);
        proof {
            assert(out@ =~= v@.take(i + 1));
        }
        i += 1;
    }
    proof {
        assert(v@.take(n as int) =~= v@);
    }
    out
}

/// Byte-for-byte equality of two byte strings.
pub fn bytes_eq(a: &Vec<u8>, b: &Vec<u8>) -> (r: bool)
    ensures
        r == (a@ == b@),
{
    if a.len() != b.len() {
        return false;
    }
    let n = a.len();
    let mut i: usize = 0;
    while i < n
        invariant
            n == a@.len(),
            n == b@.len(),
            0 <= i <= n,
            forall|j: int| 0 <= j < i ==> a@[j] == b@[j],
        decreases n - i,
    {
        if a[i] != b[i] {
            return false;
        }
        i += 1;
    }
    proof {
        assert(a@ =~= b@);
    }
    true
}

} // verus!
