//! The write path of an open file handle, and the decisions of the filesystem
//! operations on inodes and directory entries.
//!
//! A writable handle starts in streaming mode, where sequential writes are
//! appended to an incremental Merkle-tree builder held by the caller. A write
//! at any other offset switches the handle, once and for good, to buffered
//! mode, where the whole content is kept here and written positionally.
//! Committing a handle's content (fsync, release) moves the handle's single
//! reference from its previously committed root to the new one.

use vstd::prelude::*;
use crate::content::{pwrite, pwrite_into, read_window, resize_content, resized};

verus! {

/// A content digest: seven 32-bit words.
pub type Digest = [u32; 7];

/// Write mode of an open handle.
pub enum WriteMode {
    /// Sequential writes go to the caller's tree builder; the next write must
    /// start at `next_expected_offset`.
    Streaming { next_expected_offset: u64 },
    /// The whole content, written positionally.
    Buffered { buf: Vec<u8> },
}

/// Per-handle state of a writable file descriptor.
pub struct OpenFileState {
    ino: u64,
    write_mode: WriteMode,
    /// Total bytes of content; the inode's size once committed.
    byte_count: u64,
    /// The content was committed by fsync/flush and not written since.
    cas_committed: bool,
    /// The most recently committed root, whose reference this handle holds.
    last_committed_root: Option<Digest>,
    /// The handle's content: what a read through the handle returns and what a
    /// commit records. In streaming mode the bytes themselves are in the
    /// caller's tree builder.
    content: Ghost<Seq<u8>>,
}

/// An open handle as seen from outside.
pub struct HandleView {
    pub ino: u64,
    /// The handle has switched to buffered mode (for good).
    pub buffered: bool,
    pub byte_count: u64,
    pub cas_committed: bool,
    pub last_committed_root: Option<Seq<u32>>,
    pub content: Seq<u8>,
}

/// A digest's words, if any.
pub open spec fn digest_view(o: Option<Digest>) -> Option<Seq<u32>> {
    match o {
        Some(d) => Some(d@),
        None => None,
    }
}

impl View for OpenFileState {
    type V = HandleView;

    closed spec fn view(&self) -> HandleView {
        HandleView {
            ino: self.ino,
            buffered: self.write_mode is Buffered,
            byte_count: self.byte_count,
            cas_committed: self.cas_committed,
            last_committed_root: digest_view(self.last_committed_root),
            content: self.content@,
        }
    }
}

impl OpenFileState {
    /// The byte count is the content's length; a streaming handle expects the
    /// next write at its end, and a buffered one holds the content itself.
    #[verifier::type_invariant]
    spec fn inv(&self) -> bool {
        &&& self.content@.len() == self.byte_count
        &&& match self.write_mode {
            WriteMode::Streaming { next_expected_offset } => next_expected_offset == self.byte_count,
            WriteMode::Buffered { buf } => buf@ == self.content@,
        }
    }

    /// A fresh handle on inode `ino`: streaming, empty, nothing committed.
    pub fn new(ino: u64) -> (s: Self)
        ensures
            s@ == (HandleView {
                ino,
                buffered: false,
                byte_count: 0,
                cas_committed: false,
                last_committed_root: None,
                content: Seq::empty(),
            }),
    {
        OpenFileState {
            ino,
            write_mode: WriteMode::Streaming { next_expected_offset: 0 },
            byte_count: 0,
            cas_committed: false,
            last_committed_root: None,
            content: Ghost(Seq::empty()),
        }
    }

    /// The inode the handle writes.
    pub fn ino(&self) -> (r: u64)
        ensures
            r == self@.ino,
    {
        self.ino
    }

    /// The handle's byte count.
    pub fn byte_count(&self) -> (r: u64)
        ensures
            r == self@.byte_count,
    {
        self.byte_count
    }

    /// Whether the content was committed and not written since.
    pub fn cas_committed(&self) -> (r: bool)
        ensures
            r == self@.cas_committed,
    {
        self.cas_committed
    }

    /// The root whose reference the handle holds.
    pub fn last_committed_root(&self) -> (r: Option<Digest>)
        ensures
            digest_view(r) == self@.last_committed_root,
    {
        self.last_committed_root
    }

    /// Whether the handle is in buffered mode.
    pub fn is_buffered(&self) -> (r: bool)
        ensures
            r == self@.buffered,
    {
        match &self.write_mode {
            WriteMode::Buffered { .. } => true,
            WriteMode::Streaming { .. } => false,
        }
    }

    /// A copy of the content of a buffered handle.
    pub fn buffered_content(&self) -> (r: Option<Vec<u8>>)
        ensures
            self@.buffered ==> (r matches Some(b) && b@ == self@.content),
            !self@.buffered ==> r is None,
    {
        proof {
            use_type_invariant(self);
        }
        match &self.write_mode {
            WriteMode::Buffered { buf } => Some(copy_bytes(buf)),
            WriteMode::Streaming { .. } => None,
        }
    }
}

/// How a write at some offset is carried out.
#[derive(Debug, Clone, Copy, PartialEq, Eq, Structural)]
pub enum WriteRoute {
    /// Sequential: append the bytes to the streaming tree builder.
    Append,
    /// Non-sequential on a streaming handle with content: materialize the
    /// streamed content, then switch to buffered mode.
    FallbackFromStream,
    /// Non-sequential on a streaming handle with no content yet: start from the
    /// committed content, then switch to buffered mode.
    FallbackFromCommitted,
    /// The handle is buffered: write into the buffer.
    Buffered,
}

/// The route of a write at `offset` on a handle `h`.
pub open spec fn write_route_of(h: HandleView, offset: u64) -> WriteRoute {
    if h.buffered {
        WriteRoute::Buffered
    } else if offset == h.byte_count {
        WriteRoute::Append
    } else if h.byte_count > 0 {
        WriteRoute::FallbackFromStream
    } else {
        WriteRoute::FallbackFromCommitted
    }
}

/// What a commit does to reference counts: drop the previously committed root
/// when it differs from the new one, and count the new one unless it was
/// already counted.
#[derive(Debug, Clone, Copy, PartialEq, Eq)]
pub struct RefcountPlan {
    pub decrement: Option<Digest>,
    pub increment: Option<Digest>,
}

/// The reference changes of committing `new` over the previously committed `old`.
pub open spec fn commit_changes(old: Option<Seq<u32>>, new: Seq<u32>) -> (
    Option<Seq<u32>>,
    Option<Seq<u32>>,
) {
    (
        match old {
            Some(o) => if o != new { Some(o) } else { None },
            None => None,
        },
        if old != Some(new) { Some(new) } else { None },
    )
}

/// Where the content to commit comes from.
pub enum CommitSource {
    /// Finalize a copy of the streaming tree builder.
    Streaming,
    /// Push these bytes into a fresh tree builder.
    Buffered(Vec<u8>),
}

fn copy_bytes(v: &Vec<u8>) -> (r: Vec<u8>)
    ensures
        r@ == v@,
{
    let mut r: Vec<u8> = Vec::new();
    let mut i: usize = 0;
    while i < v.len()
        invariant
            i <= v@.len(),
            r@ == v@.take(i as int),
        decreases v.len() - i,
    {
        r.push(v[i]);
        assert(v@.take(i as int).push(v@[i as int]) =~= v@.take(i + 1));
        i += 1;
    }
    assert(v@.take(v@.len() as int) =~= v@);
    r
}

/// Whether two digests are the same.
pub fn same_digest(a: &Digest, b: &Digest) -> (r: bool)
    ensures
        r == (a@ == b@),
{
    let mut i: usize = 0;
    while i < 7
        invariant
            i <= 7,
            a@.len() == 7,
            b@.len() == 7,
            forall|j: int| 0 <= j < i ==> a@[j] == b@[j],
        decreases 7 - i,
    {
        if a[i] != b[i] {
            return false;
        }
        i += 1;
    }
    assert(a@ =~= b@);
    true
}

fn plan_commit(old: Option<Digest>, new_root: Digest) -> (p: RefcountPlan)
    ensures
        (digest_view(p.decrement), digest_view(p.increment)) == commit_changes(
            digest_view(old),
            new_root@,
        ),
{
    match old {
        Some(o) => if same_digest(&o, &new_root) {
            RefcountPlan { decrement: None, increment: None }
        } else {
            RefcountPlan { decrement: Some(o), increment: Some(new_root) }
        },
        None => RefcountPlan { decrement: None, increment: Some(new_root) },
    }
}

impl OpenFileState {
    /// The route of a write at `offset`.
    pub fn write_route(&self, offset: u64) -> (r: WriteRoute)
        ensures
            r == write_route_of(self@, offset),
    {
        proof {
            use_type_invariant(self);
        }
        match &self.write_mode {
            WriteMode::Streaming { next_expected_offset } => if offset == *next_expected_offset {
                WriteRoute::Append
            } else if self.byte_count > 0 {
                WriteRoute::FallbackFromStream
            } else {
                WriteRoute::FallbackFromCommitted
            },
            WriteMode::Buffered { .. } => WriteRoute::Buffered,
        }
    }

    /// Record a sequential write of `data`, appended to the streaming builder.
    /// Reading the written range back gives `data`.
    pub fn append(&mut self, data: &[u8])
        requires
            !old(self)@.buffered,
            old(self)@.byte_count + data@.len() <= u64::MAX,
        ensures
            final(self)@ == (HandleView {
                byte_count: (old(self)@.byte_count + data@.len()) as u64,
                cas_committed: false,
                content: old(self)@.content + data@,
                ..old(self)@
            }),
            read_window(final(self)@.content, old(self)@.byte_count as nat, data@.len()) == data@,
    {
        proof {
            use_type_invariant(&*self);
        }
        let n = self.byte_count + data.len() as u64;
        let ghost c = self.content@ + data@;
        *self = OpenFileState {
            ino: self.ino,
            write_mode: WriteMode::Streaming { next_expected_offset: n },
            byte_count: n,
            cas_committed: false,
            last_committed_root: self.last_committed_root,
            content: Ghost(c),
        };
        assert(read_window(c, (n - data@.len()) as nat, data@.len()) =~= data@);
    }

    /// Switch to buffered mode: `base` is the content so far, and `data` is
    /// written into it at `offset`. The handle gives up its committed root,
    /// which is returned so that its reference can be dropped. Reading the
    /// written range back gives `data`.
    pub fn fallback_to_buffered(&mut self, base: Vec<u8>, offset: u64, data: &[u8]) -> (old_root:
        Option<Digest>)
        requires
            offset as int + data@.len() <= usize::MAX,
        ensures
            final(self)@ == (HandleView {
                ino: old(self)@.ino,
                buffered: true,
                byte_count: pwrite(base@, offset as nat, data@).len() as u64,
                cas_committed: false,
                last_committed_root: None,
                content: pwrite(base@, offset as nat, data@),
            }),
            digest_view(old_root) == old(self)@.last_committed_root,
            read_window(final(self)@.content, offset as nat, data@.len()) == data@,
    {
        let mut buf = base;
        pwrite_into(&mut buf, offset, data);
        let n = buf.len() as u64;
        let ghost c = buf@;
        let old_root = self.last_committed_root;
        *self = OpenFileState {
            ino: self.ino,
            write_mode: WriteMode::Buffered { buf },
            byte_count: n,
            cas_committed: false,
            last_committed_root: None,
            content: Ghost(c),
        };
        proof {
            crate::content::law_read_after_write(base@, offset as nat, data@);
        }
        old_root
    }

    /// Write `data` at `offset` into the buffer of a buffered handle. Reading
    /// the written range back gives `data`.
    pub fn buffered_write(&mut self, offset: u64, data: &[u8])
        requires
            old(self)@.buffered,
            offset as int + data@.len() <= usize::MAX,
        ensures
            final(self)@ == (HandleView {
                byte_count: pwrite(old(self)@.content, offset as nat, data@).len() as u64,
                cas_committed: false,
                content: pwrite(old(self)@.content, offset as nat, data@),
                ..old(self)@
            }),
            read_window(final(self)@.content, offset as nat, data@.len()) == data@,
    {
        proof {
            use_type_invariant(&*self);
        }
        let ghost before = self.content@;
        let ino = self.ino;
        let last = self.last_committed_root;
        let mut whole = OpenFileState::new(ino);
        std::mem::swap(&mut whole, self);
        proof {
            use_type_invariant(&whole);
        }
        let OpenFileState { write_mode: taken, .. } = whole;
        let mut buf = match taken {
            WriteMode::Buffered { buf } => buf,
            WriteMode::Streaming { .. } => Vec::new(),
        };
        pwrite_into(&mut buf, offset, data);
        let n = buf.len() as u64;
        let ghost c = buf@;
        *self = OpenFileState {
            ino,
            write_mode: WriteMode::Buffered { buf },
            byte_count: n,
            cas_committed: false,
            last_committed_root: last,
            content: Ghost(c),
        };
        proof {
            crate::content::law_read_after_write(before, offset as nat, data@);
        }
    }

    /// Start an fsync: nothing to do for an empty handle; otherwise the handle
    /// is marked committed and the content to commit is returned.
    pub fn begin_fsync(&mut self) -> (r: Option<CommitSource>)
        ensures
            old(self)@.byte_count == 0 ==> r is None && final(self)@ == old(self)@,
            old(self)@.byte_count > 0 ==> {
                &&& final(self)@ == (HandleView { cas_committed: true, ..old(self)@ })
                &&& if old(self)@.buffered {
                    r matches Some(CommitSource::Buffered(b)) && b@ == old(self)@.content
                } else {
                    r == Some(CommitSource::Streaming)
                }
            },
    {
        proof {
            use_type_invariant(&*self);
        }
        if self.byte_count == 0 {
            return None;
        }
        let src = match &self.write_mode {
            WriteMode::Streaming { .. } => CommitSource::Streaming,
            WriteMode::Buffered { buf } => CommitSource::Buffered(copy_bytes(buf)),
        };
        self.cas_committed = true;
        Some(src)
    }

    /// Finish a commit of `new_root` (fsync or flush): the handle now holds
    /// `new_root`, and the returned plan moves its reference there.
    pub fn finish_commit(&mut self, new_root: Digest) -> (p: RefcountPlan)
        ensures
            (digest_view(p.decrement), digest_view(p.increment)) == commit_changes(
                old(self)@.last_committed_root,
                new_root@,
            ),
            final(self)@ == (HandleView { last_committed_root: Some(new_root@), ..old(self)@ }),
    {
        proof {
            use_type_invariant(&*self);
        }
        let p = plan_commit(self.last_committed_root, new_root);
        self.last_committed_root = Some(new_root);
        p
    }

    /// The content to finalize when the handle closes.
    pub fn into_commit_source(self) -> (r: CommitSource)
        ensures
            self@.buffered ==> (r matches CommitSource::Buffered(b) && b@ == self@.content),
            !self@.buffered ==> r == CommitSource::Streaming,
    {
        proof {
            use_type_invariant(&self);
        }
        match self.write_mode {
            WriteMode::Streaming { .. } => CommitSource::Streaming,
            WriteMode::Buffered { buf } => CommitSource::Buffered(buf),
        }
    }
}

/// On release of a handle with no bytes: whether to record an empty content
/// list. Only a file that was not committed and has no existing content gets
/// one; existing content is never erased by a handle that wrote nothing.
pub fn release_sets_empty_manifest(cas_committed: bool, has_existing_content: bool) -> (r: bool)
    ensures
        r == (!cas_committed && !has_existing_content),
{
    !cas_committed && !has_existing_content
}

/// On release of a handle with content finalized to `new_root`: nothing to
/// do when fsync already committed exactly this content, else the reference
/// changes to apply along with recording `new_root` and the size.
pub fn release_commit(last_committed_root: Option<Digest>, cas_committed: bool, new_root: Digest) -> (r:
    Option<RefcountPlan>)
    ensures
        (cas_committed && digest_view(last_committed_root) == Some(new_root@)) <==> r is None,
        r matches Some(p) ==> (digest_view(p.decrement), digest_view(p.increment))
            == commit_changes(digest_view(last_committed_root), new_root@),
{
    let p = plan_commit(last_committed_root, new_root);
    let same = match last_committed_root {
        Some(o) => same_digest(&o, &new_root),
        None => false,
    };
    if cas_committed && same {
        None
    } else {
        Some(p)
    }
}

/// References that a handle holds on digest `d`: one on its committed root.
pub open spec fn held(root: Option<Seq<u32>>, d: Seq<u32>) -> int {
    if root == Some(d) { 1 } else { 0 }
}

/// The change of the count of `d` under a plan's decrement and increment.
pub open spec fn count_change(dec: Option<Seq<u32>>, inc: Option<Seq<u32>>, d: Seq<u32>) -> int {
    (if inc == Some(d) { 1int } else { 0int }) - (if dec == Some(d) { 1int } else { 0int })
}

/// Committing moves the handle's single reference from the old root to the new
/// one: for every digest, what the handle held plus the plan's change is what
/// it holds afterwards. So references never leak or go missing across any
/// sequence of commits.
pub proof fn law_commit_moves_reference(old: Option<Seq<u32>>, new: Seq<u32>, d: Seq<u32>)
    ensures
        held(old, d) + count_change(commit_changes(old, new).0, commit_changes(old, new).1, d)
            == held(Some(new), d),
{
}

/// Giving up the committed root (a switch to buffered mode, a truncation)
/// drops exactly the reference that the handle held.
pub proof fn law_giving_up_root_drops_reference(old: Option<Seq<u32>>, d: Seq<u32>)
    ensures
        held(old, d) + count_change(old, None, d) == held(None, d),
{
}

// ── Truncation ────────────────────────────────────────────────────────────────

/// The outcome of truncating an open handle.
#[derive(Debug, Clone, Copy, PartialEq, Eq)]
pub enum TruncateStep {
    /// The handle is updated; drop the reference on this root, if any. With
    /// `empty_file` the file was cut to zero bytes: its content list is emptied
    /// now (see [`cut_to_zero_plan`]), so that it stays empty when the handle is
    /// released without writing.
    Done { decrement: Option<Digest>, empty_file: bool },
    /// A streaming handle must be rebuilt: materialize its content (when it has
    /// any, else start empty), resize it, push it into a fresh builder, then
    /// call [`OpenFileState::finish_rebuild`].
    Rebuild { materialize: bool },
}

impl OpenFileState {
    /// Truncate or extend the open handle to `new_size` bytes.
    ///
    /// A buffered handle is resized in place; to zero, it also gives up its
    /// committed root. A streaming handle is reset when the size is zero, and
    /// otherwise has to be rebuilt from its content. A cut to zero bytes also
    /// empties the file's content list (`empty_file`).
    pub fn truncate(&mut self, new_size: u64) -> (r: TruncateStep)
        requires
            new_size <= usize::MAX,
        ensures
            old(self)@.buffered ==> {
                &&& final(self)@ == (HandleView {
                    byte_count: new_size,
                    cas_committed: false,
                    content: resized(old(self)@.content, new_size as nat),
                    last_committed_root: if new_size == 0 {
                        None
                    } else {
                        old(self)@.last_committed_root
                    },
                    ..old(self)@
                })
                &&& r matches TruncateStep::Done { decrement, empty_file } && empty_file == (new_size
                    == 0) && digest_view(decrement) == if new_size
                    == 0 {
                    old(self)@.last_committed_root
                } else {
                    None
                }
            },
            !old(self)@.buffered && new_size == 0 ==> {
                &&& final(self)@ == (HandleView {
                    byte_count: 0,
                    cas_committed: false,
                    content: Seq::empty(),
                    last_committed_root: None,
                    ..old(self)@
                })
                &&& r matches TruncateStep::Done { decrement, empty_file } && empty_file
                    && digest_view(decrement) == old(
                    self,
                )@.last_committed_root
            },
            !old(self)@.buffered && new_size > 0 ==> {
                &&& final(self)@ == old(self)@
                &&& r == TruncateStep::Rebuild { materialize: old(self)@.byte_count > 0 }
            },
    {
        proof {
            use_type_invariant(&*self);
        }
        let streaming = match &self.write_mode {
            WriteMode::Streaming { .. } => true,
            WriteMode::Buffered { .. } => false,
        };
        if streaming {
            if new_size == 0 {
                let old_root = self.last_committed_root;
                *self = OpenFileState {
                    ino: self.ino,
                    write_mode: WriteMode::Streaming { next_expected_offset: 0 },
                    byte_count: 0,
                    cas_committed: false,
                    last_committed_root: None,
                    content: Ghost(Seq::empty()),
                };
                TruncateStep::Done { decrement: old_root, empty_file: true }
            } else {
                TruncateStep::Rebuild { materialize: self.byte_count > 0 }
            }
        } else {
            let ino = self.ino;
            let last = self.last_committed_root;
            let mut whole = OpenFileState::new(ino);
            std::mem::swap(&mut whole, self);
            proof {
                use_type_invariant(&whole);
            }
            let OpenFileState { write_mode: taken, .. } = whole;
            let mut buf = match taken {
                WriteMode::Buffered { buf } => buf,
                WriteMode::Streaming { .. } => Vec::new(),
            };
            resize_content(&mut buf, new_size as usize);
            let ghost c = buf@;
            let keep = if new_size == 0 { None } else { last };
            *self = OpenFileState {
                ino,
                write_mode: WriteMode::Buffered { buf },
                byte_count: new_size,
                cas_committed: false,
                last_committed_root: keep,
                content: Ghost(c),
            };
            if new_size == 0 {
                TruncateStep::Done { decrement: last, empty_file: true }
            } else {
                TruncateStep::Done { decrement: None, empty_file: false }
            }
        }
    }

    /// Finish rebuilding a streaming handle: `rebuilt` (the content resized)
    /// went into a fresh builder and is now the handle's content. The handle
    /// gives up its committed root, which is returned so that its reference
    /// can be dropped.
    pub fn finish_rebuild(&mut self, rebuilt: &[u8]) -> (old_root: Option<Digest>)
        requires
            !old(self)@.buffered,
        ensures
            final(self)@ == (HandleView {
                byte_count: rebuilt@.len() as u64,
                cas_committed: false,
                content: rebuilt@,
                last_committed_root: None,
                ..old(self)@
            }),
            digest_view(old_root) == old(self)@.last_committed_root,
    {
        let old_root = self.last_committed_root;
        let n = rebuilt.len() as u64;
        *self = OpenFileState {
            ino: self.ino,
            write_mode: WriteMode::Streaming { next_expected_offset: n },
            byte_count: n,
            cas_committed: false,
            last_committed_root: None,
            content: Ghost(rebuilt@),
        };
        old_root
    }
}

/// What truncating a file without an open handle does to its content list.
pub struct ClosedTruncatePlan {
    /// The old content root, whose reference is dropped.
    pub decrement: Option<Digest>,
    /// Whether the resized content is stored (non-empty) or the content list
    /// is emptied.
    pub store_content: bool,
}

/// Plan the truncation of a closed file whose content list is `manifest`.
pub fn closed_truncate_plan(manifest: &Vec<Digest>, new_size: u64) -> (p: ClosedTruncatePlan)
    ensures
        manifest@.len() == 0 ==> p.decrement is None,
        manifest@.len() > 0 ==> p.decrement == Some(manifest@[0]),
        p.store_content == (new_size > 0),
{
    let decrement = if manifest.len() > 0 { Some(manifest[0]) } else { None };
    ClosedTruncatePlan { decrement, store_content: new_size > 0 }
}

/// Cutting a file to zero bytes through an open handle: the file's content
/// list `manifest` is replaced by an empty one (`store_content` is false), and
/// the reference of its root is dropped, unless it is the root `dropped` that
/// the handle held and [`OpenFileState::truncate`] already gave up.
pub fn cut_to_zero_plan(manifest: &Vec<Digest>, dropped: Option<Digest>) -> (p: ClosedTruncatePlan)
    ensures
        !p.store_content,
        manifest@.len() == 0 ==> p.decrement is None,
        manifest@.len() > 0 ==> digest_view(p.decrement) == if digest_view(dropped) == Some(
            manifest@[0]@,
        ) {
            None
        } else {
            Some(manifest@[0]@)
        },
{
    let decrement = if manifest.len() > 0 {
        match dropped {
            Some(d) => if same_digest(&d, &manifest[0]) {
                None
            } else {
                Some(manifest[0])
            },
            None => Some(manifest[0]),
        }
    } else {
        None
    };
    ClosedTruncatePlan { decrement, store_content: false }
}

// ── What a write or a truncation does to a handle's content ─────────────────

/// What every handle view satisfies (the type invariant of [`OpenFileState`]):
/// the byte count is the content's length.
pub open spec fn handle_valid(h: HandleView) -> bool {
    h.byte_count == h.content.len()
}

/// The handle after a write of `data` at `offset` by the route that
/// [`OpenFileState::write_route`] picks, as the contract of the method on that
/// route states it: [`OpenFileState::append`] on `Append`,
/// [`OpenFileState::fallback_to_buffered`] with the materialized content `base`
/// on either fallback, [`OpenFileState::buffered_write`] on `Buffered`.
pub open spec fn after_write(h: HandleView, offset: u64, data: Seq<u8>, base: Seq<u8>) -> HandleView {
    match write_route_of(h, offset) {
        WriteRoute::Append => HandleView {
            byte_count: (h.byte_count + data.len()) as u64,
            cas_committed: false,
            content: h.content + data,
            ..h
        },
        WriteRoute::Buffered => HandleView {
            byte_count: pwrite(h.content, offset as nat, data).len() as u64,
            cas_committed: false,
            content: pwrite(h.content, offset as nat, data),
            ..h
        },
        _ => HandleView {
            ino: h.ino,
            buffered: true,
            byte_count: pwrite(base, offset as nat, data).len() as u64,
            cas_committed: false,
            last_committed_root: None,
            content: pwrite(base, offset as nat, data),
        },
    }
}

/// Whatever route a write takes, when a fallback is handed the content so far
/// as its base, the handle's content afterwards is its old content with `data`
/// written at `offset` (POSIX `pwrite`: zeros fill a gap, other bytes stay), its
/// byte count is the new length, and a read of the written range gives `data`.
pub proof fn law_write_is_pwrite(h: HandleView, offset: u64, data: Seq<u8>)
    requires
        handle_valid(h),
        offset + data.len() <= u64::MAX,
    ensures
        after_write(h, offset, data, h.content).content == pwrite(h.content, offset as nat, data),
        after_write(h, offset, data, h.content).byte_count == pwrite(
            h.content,
            offset as nat,
            data,
        ).len(),
        handle_valid(after_write(h, offset, data, h.content)),
        read_window(after_write(h, offset, data, h.content).content, offset as nat, data.len())
            == data,
{
    let p = pwrite(h.content, offset as nat, data);
    if write_route_of(h, offset) == WriteRoute::Append {
        assert(h.content + data =~= p);
    }
    crate::content::law_read_after_write(h.content, offset as nat, data);
}

/// The handle after truncating it to `n`: [`OpenFileState::truncate`], followed,
/// for a streaming handle and a size above zero, by
/// [`OpenFileState::finish_rebuild`] with the bytes `rebuilt`, each as its
/// contract states.
pub open spec fn after_truncate(h: HandleView, n: u64, rebuilt: Seq<u8>) -> HandleView {
    if h.buffered {
        HandleView {
            byte_count: n,
            cas_committed: false,
            content: resized(h.content, n as nat),
            last_committed_root: if n == 0 {
                None
            } else {
                h.last_committed_root
            },
            ..h
        }
    } else if n == 0 {
        HandleView {
            byte_count: 0,
            cas_committed: false,
            content: Seq::empty(),
            last_committed_root: None,
            ..h
        }
    } else {
        HandleView {
            byte_count: rebuilt.len() as u64,
            cas_committed: false,
            content: rebuilt,
            last_committed_root: None,
            ..h
        }
    }
}

/// Truncating or extending a handle to `n` bytes, with a rebuild handed the
/// handle's content resized to `n`, leaves the content resized to `n`: the first
/// `n` old bytes, then zeros; the byte count is `n`, and a read of the first `n`
/// bytes gives exactly that content.
pub proof fn law_truncate_is_resize(h: HandleView, n: u64)
    requires
        handle_valid(h),
    ensures
        after_truncate(h, n, resized(h.content, n as nat)).content == resized(h.content, n as nat),
        after_truncate(h, n, resized(h.content, n as nat)).byte_count == n,
        handle_valid(after_truncate(h, n, resized(h.content, n as nat))),
        read_window(after_truncate(h, n, resized(h.content, n as nat)).content, 0, n as nat)
            == resized(h.content, n as nat),
{
    let r = resized(h.content, n as nat);
    if !h.buffered && n == 0 {
        assert(r =~= Seq::<u8>::empty());
    }
    assert(r.subrange(0, r.len() as int) =~= r);
}

/// A handle cut to zero bytes, by whatever path, holds no bytes, no committed
/// root and nothing committed: a read through it gives nothing, and its release
/// commits no content, so with its content list emptied by the cut
/// ([`cut_to_zero_plan`]) the file reads empty after the release.
pub proof fn law_cut_to_zero_reads_empty(h: HandleView, rebuilt: Seq<u8>, size: nat)
    requires
        handle_valid(h),
    ensures
        after_truncate(h, 0, rebuilt).content == Seq::<u8>::empty(),
        after_truncate(h, 0, rebuilt).byte_count == 0,
        !after_truncate(h, 0, rebuilt).cas_committed,
        after_truncate(h, 0, rebuilt).last_committed_root is None,
        read_window(after_truncate(h, 0, rebuilt).content, 0, size) == Seq::<u8>::empty(),
{
    assert(resized(h.content, 0) =~= Seq::<u8>::empty());
    assert(Seq::<u8>::empty().subrange(0, 0) =~= Seq::<u8>::empty());
}

// ── Inode modes ───────────────────────────────────────────────────────────────

/// File type bits of a mode.
pub const S_IFMT: u32 = 0o170000;
/// Regular file.
pub const S_IFREG: u32 = 0o100000;
/// Directory.
pub const S_IFDIR: u32 = 0o040000;
/// Symbolic link.
pub const S_IFLNK: u32 = 0o120000;

/// Errors that the filesystem operations report.
#[derive(Debug, Clone, Copy, PartialEq, Eq, Structural)]
pub enum Errno {
    NotFound,
    Exists,
    NotDir,
    IsDir,
    NotEmpty,
    Invalid,
    Io,
    BadHandle,
    NoSys,
    NotPermitted,
    NoData,
}

/// The kinds of error of the metadata store.
#[derive(Debug, Clone, Copy, PartialEq, Eq, Structural)]
pub enum MetaErrorKind {
    NotFound,
    AlreadyExists,
    NotADirectory,
    IsADirectory,
    NotEmpty,
    InvalidName,
    Corrupted,
    Io,
}

/// Map a metadata-store error to the error the filesystem reports.
pub fn meta_error_to_errno(e: &MetaErrorKind) -> (r: Errno)
    ensures
        r == match *e {
            MetaErrorKind::NotFound => Errno::NotFound,
            MetaErrorKind::AlreadyExists => Errno::Exists,
            MetaErrorKind::NotADirectory => Errno::NotDir,
            MetaErrorKind::IsADirectory => Errno::IsDir,
            MetaErrorKind::NotEmpty => Errno::NotEmpty,
            MetaErrorKind::InvalidName => Errno::Invalid,
            MetaErrorKind::Corrupted => Errno::Io,
            MetaErrorKind::Io => Errno::Io,
        },
{
    match e {
        MetaErrorKind::NotFound => Errno::NotFound,
        MetaErrorKind::AlreadyExists => Errno::Exists,
        MetaErrorKind::NotADirectory => Errno::NotDir,
        MetaErrorKind::IsADirectory => Errno::IsDir,
        MetaErrorKind::NotEmpty => Errno::NotEmpty,
        MetaErrorKind::InvalidName => Errno::Invalid,
        MetaErrorKind::Corrupted => Errno::Io,
        MetaErrorKind::Io => Errno::Io,
    }
}

/// The mode of a new regular file: the requested permission bits less the umask.
pub fn new_file_mode(mode: u32, umask: u32) -> (m: u32)
    ensures
        m == S_IFREG | (mode & !umask & 0o7777u32),
        m & S_IFMT == S_IFREG,
        m & 0o7777u32 == mode & !umask & 0o7777u32,
{
    let m = S_IFREG | (mode & !umask & 0o7777);
    assert(m & 0o170000u32 == 0o100000u32 && m & 0o7777u32 == mode & !umask & 0o7777u32)
        by (bit_vector)
        requires m == 0o100000u32 | (mode & !umask & 0o7777u32);
    m
}

/// The mode of a new directory: the requested permission bits less the umask.
pub fn new_dir_mode(mode: u32, umask: u32) -> (m: u32)
    ensures
        m == S_IFDIR | (mode & !umask & 0o7777u32),
        m & S_IFMT == S_IFDIR,
        m & 0o7777u32 == mode & !umask & 0o7777u32,
{
    let m = S_IFDIR | (mode & !umask & 0o7777);
    assert(m & 0o170000u32 == 0o040000u32 && m & 0o7777u32 == mode & !umask & 0o7777u32)
        by (bit_vector)
        requires m == 0o040000u32 | (mode & !umask & 0o7777u32);
    m
}

/// The mode for `mknod`: only regular files (or no type) are supported.
pub fn mknod_mode(mode: u32, umask: u32) -> (r: Result<u32, Errno>)
    ensures
        (mode & S_IFMT != S_IFREG && mode & S_IFMT != 0) ==> r == Err::<u32, Errno>(Errno::NoSys),
        (mode & S_IFMT == S_IFREG || mode & S_IFMT == 0) ==> r == Ok::<u32, Errno>(
            S_IFREG | (mode & !umask & 0o7777u32),
        ),
{
    let file_type = mode & S_IFMT;
    if file_type != S_IFREG && file_type != 0 {
        return Err(Errno::NoSys);
    }
    Ok(new_file_mode(mode, umask))
}

/// `old_mode` with its permission bits replaced by those of `mode`; the file
/// type bits stay.
pub fn with_permissions(old_mode: u32, mode: u32) -> (m: u32)
    ensures
        m == (old_mode & S_IFMT) | (mode & 0o7777u32),
        m & S_IFMT == old_mode & S_IFMT,
        m & 0o7777u32 == mode & 0o7777u32,
{
    let m = (old_mode & S_IFMT) | (mode & 0o7777);
    assert(m & 0o170000u32 == old_mode & 0o170000u32 && m & 0o7777u32 == mode & 0o7777u32)
        by (bit_vector)
        requires m == (old_mode & 0o170000u32) | (mode & 0o7777u32);
    m
}

/// File kinds as the kernel sees them.
#[derive(Debug, Clone, Copy, PartialEq, Eq, Structural)]
pub enum FileKind {
    Directory,
    Symlink,
    RegularFile,
}

/// The kind of an inode with mode `mode`: directories and symlinks by their
/// type bits, everything else as a regular file.
pub fn kind_of_mode(mode: u32) -> (k: FileKind)
    ensures
        k == (if mode & S_IFMT == S_IFDIR {
            FileKind::Directory
        } else if mode & S_IFMT == S_IFLNK {
            FileKind::Symlink
        } else {
            FileKind::RegularFile
        }),
{
    let t = mode & S_IFMT;
    if t == S_IFDIR {
        FileKind::Directory
    } else if t == S_IFLNK {
        FileKind::Symlink
    } else {
        FileKind::RegularFile
    }
}

/// The permission bits of a mode.
pub fn perm_of_mode(mode: u32) -> (p: u16)
    ensures
        p as u32 == mode & 0o7777u32,
{
    assert(mode & 0o7777u32 <= 0o7777u32) by (bit_vector);
    (mode & 0o7777) as u16
}

/// The number of 512-byte blocks that `size` bytes occupy, rounded up.
pub fn blocks_of_size(size: u64) -> (b: u64)
    ensures
        b as int * 512 >= size,
        b as int * 512 < size + 512,
{
    size / 512 + if size % 512 == 0 { 0 } else { 1 }
}

// ── Directory entries ─────────────────────────────────────────────────────────

/// Whether a mode has the directory bit.
pub open spec fn has_dir_bit(mode: u32) -> bool {
    mode & S_IFDIR != 0
}

/// The entries of a listing other than `.` and `..`.
pub open spec fn real_entries(names: Seq<Seq<char>>) -> nat
    decreases names.len(),
{
    if names.len() == 0 {
        0
    } else {
        real_entries(names.drop_last()) + if names.last() == "."@ || names.last() == ".."@ {
            0nat
        } else {
            1nat
        }
    }
}

/// The characters of each name.
pub open spec fn names_view(names: Seq<String>) -> Seq<Seq<char>> {
    names.map_values(|n: String| n@)
}

fn is_dot_entry(name: &String) -> (r: bool)
    ensures
        r == (name@ == "."@ || name@ == ".."@),
{
    let v = crate::text::chars_of(name.as_str());
    crate::text::chars_eq_str(&v, ".") || crate::text::chars_eq_str(&v, "..")
}

/// Whether `rmdir` may remove an inode with mode `mode` whose listing holds
/// `names`: it must be a directory, with nothing but `.` and `..`.
pub fn rmdir_check(mode: u32, names: &Vec<String>) -> (r: Result<(), Errno>)
    ensures
        !has_dir_bit(mode) ==> r == Err::<(), Errno>(Errno::NotDir),
        has_dir_bit(mode) && real_entries(names_view(names@)) > 0 ==> r == Err::<(), Errno>(
            Errno::NotEmpty,
        ),
        has_dir_bit(mode) && real_entries(names_view(names@)) == 0 ==> r is Ok,
{
    if mode & S_IFDIR == 0 {
        return Err(Errno::NotDir);
    }
    let mut count: usize = 0;
    let mut i: usize = 0;
    while i < names.len()
        invariant
            i <= names@.len(),
            count == real_entries(names_view(names@.take(i as int))),
            count <= i,
        decreases names.len() - i,
    {
        proof {
            assert(names_view(names@.take(i + 1)).drop_last() =~= names_view(names@.take(i as int)));
        }
        if !is_dot_entry(&names[i]) {
            count += 1;
        }
        i += 1;
    }
    assert(names@.take(names@.len() as int) =~= names@);
    if count > 0 {
        Err(Errno::NotEmpty)
    } else {
        Ok(())
    }
}

/// The parent's link count after one of its subdirectories is removed: one
/// less, or unchanged (no update) when it is already zero.
pub fn parent_links_after_rmdir(nlinks: u32) -> (r: Option<u32>)
    ensures
        nlinks > 0 ==> r == Some((nlinks - 1) as u32),
        nlinks == 0 ==> r is None,
{
    if nlinks > 0 { Some(nlinks - 1) } else { None }
}

/// What `unlink` does to the inode.
#[derive(Debug, Clone, Copy, PartialEq, Eq, Structural)]
pub enum UnlinkPlan {
    /// The last link is gone: drop its content references and delete the inode.
    Delete,
    /// Other links remain: store this link count.
    SetLinks(u32),
}

/// Plan `unlink` of an inode with mode `mode` and `nlinks` links. Directories
/// are refused.
pub fn unlink_plan(mode: u32, nlinks: u32) -> (r: Result<UnlinkPlan, Errno>)
    ensures
        has_dir_bit(mode) ==> r == Err::<UnlinkPlan, Errno>(Errno::IsDir),
        !has_dir_bit(mode) && nlinks <= 1 ==> r == Ok::<UnlinkPlan, Errno>(UnlinkPlan::Delete),
        !has_dir_bit(mode) && nlinks > 1 ==> r == Ok::<UnlinkPlan, Errno>(
            UnlinkPlan::SetLinks((nlinks - 1) as u32),
        ),
{
    if mode & S_IFDIR != 0 {
        return Err(Errno::IsDir);
    }
    let n = if nlinks > 0 { nlinks - 1 } else { 0 };
    if n == 0 {
        Ok(UnlinkPlan::Delete)
    } else {
        Ok(UnlinkPlan::SetLinks(n))
    }
}

/// The link count after adding a hard link to an inode with mode `mode`.
/// Hard links to directories are refused.
pub fn link_plan(mode: u32, nlinks: u32) -> (r: Result<u32, Errno>)
    requires
        nlinks < u32::MAX,
    ensures
        has_dir_bit(mode) ==> r == Err::<u32, Errno>(Errno::NotPermitted),
        !has_dir_bit(mode) ==> r == Ok::<u32, Errno>((nlinks + 1) as u32),
{
    if mode & S_IFDIR != 0 {
        return Err(Errno::NotPermitted);
    }
    Ok(nlinks + 1)
}

/// `renameat2` flag: fail if the target exists.
pub const RENAME_NOREPLACE: u32 = 1;
/// `renameat2` flag: exchange source and target (not supported).
pub const RENAME_EXCHANGE: u32 = 2;

/// Whether a rename may go ahead, checked in this order: exchanging is not
/// supported, the source must exist, and with `RENAME_NOREPLACE` the target
/// must not.
pub fn rename_check(flags: u32, source_found: bool, target_exists: bool) -> (r: Result<(), Errno>)
    ensures
        flags & RENAME_EXCHANGE != 0 ==> r == Err::<(), Errno>(Errno::NoSys),
        flags & RENAME_EXCHANGE == 0 && !source_found ==> r == Err::<(), Errno>(Errno::NotFound),
        flags & RENAME_EXCHANGE == 0 && source_found && flags & RENAME_NOREPLACE != 0
            && target_exists ==> r == Err::<(), Errno>(Errno::Exists),
        flags & RENAME_EXCHANGE == 0 && source_found && !(flags & RENAME_NOREPLACE != 0
            && target_exists) ==> r is Ok,
{
    if flags & RENAME_EXCHANGE != 0 {
        return Err(Errno::NoSys);
    }
    if !source_found {
        return Err(Errno::NotFound);
    }
    if flags & RENAME_NOREPLACE != 0 && target_exists {
        return Err(Errno::Exists);
    }
    Ok(())
}

/// What a rename does to the target it replaces.
#[derive(Debug, Clone, Copy, PartialEq, Eq, Structural)]
pub enum DisplacedTarget {
    /// A file whose last link is gone: drop its content references and delete it.
    Delete,
    /// Links remain: store this link count.
    SetLinks(u32),
    /// A directory left without links is left as it is.
    Orphan,
}

/// Plan the replaced target of a rename, with mode `mode` and `nlinks` links.
pub fn displaced_target_plan(mode: u32, nlinks: u32) -> (r: DisplacedTarget)
    ensures
        nlinks > 1 ==> r == DisplacedTarget::SetLinks((nlinks - 1) as u32),
        nlinks <= 1 && !has_dir_bit(mode) ==> r == DisplacedTarget::Delete,
        nlinks <= 1 && has_dir_bit(mode) ==> r == DisplacedTarget::Orphan,
{
    let n = if nlinks > 0 { nlinks - 1 } else { 0 };
    if n == 0 && mode & S_IFDIR == 0 {
        DisplacedTarget::Delete
    } else if n > 0 {
        DisplacedTarget::SetLinks(n)
    } else {
        DisplacedTarget::Orphan
    }
}

// ── Extended attributes ───────────────────────────────────────────────────────

/// The reply to `listxattr`: each name's UTF-8 bytes followed by a NUL.
pub open spec fn xattr_list_bytes(names: Seq<Seq<char>>) -> Seq<u8>
    decreases names.len(),
{
    if names.len() == 0 {
        Seq::empty()
    } else {
        xattr_list_bytes(names.drop_last()) + vstd::utf8::encode_utf8(names.last()).push(0u8)
    }
}

/// Build the `listxattr` reply for the attribute names `names`.
pub fn xattr_list_buffer(names: &Vec<String>) -> (r: Vec<u8>)
    ensures
        r@ == xattr_list_bytes(names_view(names@)),
{
    let mut buf: Vec<u8> = Vec::new();
    let mut i: usize = 0;
    while i < names.len()
        invariant
            i <= names@.len(),
            buf@ == xattr_list_bytes(names_view(names@.take(i as int))),
        decreases names.len() - i,
    {
        let bytes = names[i].as_str().as_bytes();
        let ghost before = buf@;
        let mut j: usize = 0;
        while j < bytes.len()
            invariant
                j <= bytes@.len(),
                buf@ == before + bytes@.take(j as int),
            decreases bytes.len() - j,
        {
            buf.push(bytes[j]);
            assert(bytes@.take(j as int).push(bytes@[j as int]) =~= bytes@.take(j + 1));
            j += 1;
        }
        assert(bytes@.take(bytes@.len() as int) =~= bytes@);
        buf.push(0u8);
        proof {
            assert(names_view(names@.take(i + 1)).drop_last() =~= names_view(names@.take(i as int)));
            assert(buf@ =~= xattr_list_bytes(names_view(names@.take(i + 1))));
        }
        i += 1;
    }
    assert(names@.take(names@.len() as int) =~= names@);
    buf
}

// ── statfs ────────────────────────────────────────────────────────────────────

/// The block size reported for a raw size field: the field cut to 32 bits when
/// it is positive, else 4096.
pub open spec fn reported_block_size(raw: int) -> u32 {
    if raw > 0 { (raw % 0x1_0000_0000) as u32 } else { 4096 }
}

/// The `statfs` values `(blocks, bfree, bavail, files, ffree, bsize)`.
///
/// `files` is the live inode count. `vfs` is the result of `statvfs` on the
/// store (fragment size, blocks, free, available) and `fs` that of `statfs`
/// (block size, blocks, free, available), each `None` when the call failed or
/// was not made. The first of the two that reports a non-zero block count is
/// used; with neither, the block figures are zero.
pub fn compute_statfs(
    files: u64,
    vfs: Option<(u64, u64, u64, u64)>,
    fs: Option<(i64, u64, u64, u64)>,
) -> (r: (u64, u64, u64, u64, u64, u32))
    ensures
        r.3 == files,
        r.4 == u64::MAX - files,
        match (vfs, fs) {
            (Some((frsize, blocks, bfree, bavail)), _) if blocks > 0 => (r.0, r.1, r.2, r.5) == (
                blocks,
                bfree,
                bavail,
                reported_block_size(frsize as int),
            ),
            (_, Some((bsize, blocks, bfree, bavail))) if blocks > 0 => (r.0, r.1, r.2, r.5) == (
                blocks,
                bfree,
                bavail,
                reported_block_size(bsize as int),
            ),
            _ => (r.0, r.1, r.2, r.5) == (0u64, 0u64, 0u64, 4096u32),
        },
{
    let ffree = u64::MAX - files;
    if let Some((frsize, blocks, bfree, bavail)) = vfs {
        if blocks > 0 {
            let bsize: u32 = if frsize > 0 { (frsize % 0x1_0000_0000) as u32 } else { 4096 };
            return (blocks, bfree, bavail, files, ffree, bsize);
        }
    }
    if let Some((bsize_raw, blocks, bfree, bavail)) = fs {
        if blocks > 0 {
            let bsize: u32 = if bsize_raw > 0 { (bsize_raw % 0x1_0000_0000) as u32 } else { 4096 };
            return (blocks, bfree, bavail, files, ffree, bsize);
        }
    }
    (0, 0, 0, files, ffree, 4096)
}

// ── Open flags ────────────────────────────────────────────────────────────────

/// `libc::O_ACCMODE`: the access-mode bits of open flags. Its value depends on
/// the platform, so nothing is stated of it.
#[verifier::external_body]
fn o_accmode() -> (r: i32) {
    libc::O_ACCMODE
}

/// `libc::O_WRONLY`, whose value depends on the platform.
#[verifier::external_body]
fn o_wronly() -> (r: i32) {
    libc::O_WRONLY
}

/// `libc::O_RDWR`, whose value depends on the platform.
#[verifier::external_body]
fn o_rdwr() -> (r: i32) {
    libc::O_RDWR
}

/// `libc::O_TRUNC`, whose value depends on the platform.
#[verifier::external_body]
fn o_trunc() -> (r: i32) {
    libc::O_TRUNC
}

/// How an `open` uses the file.
#[derive(Debug, Clone, Copy, PartialEq, Eq, Structural)]
pub struct OpenAccess {
    /// Opened for writing (write-only or read-write): the handle gets write state.
    pub is_write: bool,
    /// Opened for writing with truncation: the file is cut to zero bytes.
    pub truncate: bool,
}

/// Classify open `flags` given the platform's flag values.
pub fn classify_open_flags(flags: i32, accmode: i32, wronly: i32, rdwr: i32, trunc: i32) -> (r:
    OpenAccess)
    ensures
        r.is_write == ((flags & accmode) == wronly || (flags & accmode) == rdwr),
        r.truncate == (r.is_write && flags & trunc != 0),
{
    let acc = flags & accmode;
    let is_write = acc == wronly || acc == rdwr;
    OpenAccess { is_write, truncate: is_write && flags & trunc != 0 }
}

/// Classify open `flags` with this platform's flag values.
///
/// Those values differ from one target of `libc` to another (`O_WRONLY` is 1 on
/// Linux, 2 on Hurd and `0x10000000` on WASI; `O_TRUNC` is 512 on Linux musl and
/// 65536 on Hurd), so the contract leaves the classification itself unsaid and
/// states only that truncation comes with write access. `classify_open_flags`
/// states the classification for given flag values.
pub fn open_access(flags: i32) -> (r: OpenAccess)
    ensures
        r.truncate ==> r.is_write,
{
    classify_open_flags(flags, o_accmode(), o_wronly(), o_rdwr(), o_trunc())
}

// ── Replies ───────────────────────────────────────────────────────────────────

/// The reply to `getxattr` / `listxattr`.
#[derive(Debug, Clone, PartialEq, Eq)]
pub enum XattrReply {
    /// The caller asked for the size only (a zero-sized buffer).
    Size(u32),
    /// The value itself.
    Data(Vec<u8>),
}

/// Reply with `value` to a request with buffer size `size`: a zero size asks
/// for the length only (cut to 32 bits), any other for the bytes.
pub fn xattr_reply(value: Vec<u8>, size: u32) -> (r: XattrReply)
    ensures
        size == 0 ==> r == XattrReply::Size((value@.len() % 0x1_0000_0000) as u32),
        size != 0 ==> r == XattrReply::Data(value),
{
    if size == 0 {
        let n = value.len();
        XattrReply::Size((n as u64 % 0x1_0000_0000) as u32)
    } else {
        XattrReply::Data(value)
    }
}

/// The error `removexattr` reports: a missing attribute is `ENODATA`.
pub fn removexattr_error(e: Errno) -> (r: Errno)
    ensures
        r == (if e == Errno::NotFound { Errno::NoData } else { e }),
{
    if e == Errno::NotFound { Errno::NoData } else { e }
}

} // verus!
