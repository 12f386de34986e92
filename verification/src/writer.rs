//! The decisions of writing an image to devices and checking it afterwards.
//!
//! The image is copied in chunks. With resume on, each device is read back
//! at the place of every chunk: chunks it already holds are skipped, and any
//! chunk that differs (or cannot be read) is written at its offset.
//! Verification reads image and device chunk by chunk and reports the offset
//! of the first byte that differs.
use vstd::prelude::*;

verus! {

/// Buffer size for reading and writing (4 MiB chunks).
pub const BUFFER_SIZE: usize = 4194304;

/// Whether two byte slices hold the same bytes.
pub fn bytes_equal(a: &[u8], b: &[u8]) -> (r: bool)
    ensures
        r == (a@ == b@),
{
    if a.len() != b.len() {
        return false;
    }
    let mut i: usize = 0;
    while i < a.len()
        invariant
            i <= a.len() == b.len(),
            forall|k: int| 0 <= k < i ==> a@[k] == b@[k],
        decreases a.len() - i,
    {
        if a[i] != b[i] {
            return false;
        }
        i = i + 1;
    }
    assert(a@ =~= b@);
    true
}

/// What was read back from a device is exactly the chunk.
pub open spec fn already_holds(existing: Option<&[u8]>, chunk: Seq<u8>) -> bool {
    match existing {
        Some(e) => e@ == chunk,
        None => false,
    }
}

/// What to do with the current chunk on one device.
#[derive(Debug, Clone, Copy, PartialEq, Eq)]
pub enum ChunkAction {
    /// The device already holds the chunk: nothing to write.
    Skip,
    /// Write the chunk at the device's current position.
    Write,
    /// Seek the device to the given offset, then write the chunk there.
    SeekAndWrite(u64),
}

/// What was read back from a device, as bytes.
pub open spec fn read_back(existing: Option<&[u8]>) -> Option<Seq<u8>> {
    match existing {
        Some(e) => Some(e@),
        None => None,
    }
}

/// The action for a chunk that belongs at offset `processed` of the image,
/// given what was read back from the device there.
pub open spec fn next_action(
    resume: bool,
    existing: Option<Seq<u8>>,
    chunk: Seq<u8>,
    processed: nat,
) -> ChunkAction {
    if !resume {
        ChunkAction::Write
    } else if existing == Some(chunk) {
        ChunkAction::Skip
    } else {
        ChunkAction::SeekAndWrite(processed as u64)
    }
}

/// The content of a device after `data` is written at `offset`.
pub open spec fn write_at(device: Seq<u8>, offset: nat, data: Seq<u8>) -> Seq<u8> {
    device.take(offset as int) + data + device.skip((offset + data.len()) as int)
}

/// The content of a device after `action` is carried out for `chunk`, the
/// device standing at `offset`, where the chunk belongs: reading back a
/// chunk that is skipped moves the device past it, and without resume the
/// chunks are written one after the other from the start.
pub open spec fn apply_action(device: Seq<u8>, offset: nat, chunk: Seq<u8>, action: ChunkAction) -> Seq<u8> {
    match action {
        ChunkAction::Skip => device,
        ChunkAction::Write => write_at(device, offset, chunk),
        ChunkAction::SeekAndWrite(at) => write_at(device, at as nat, chunk),
    }
}

/// The chunks of an image, one after the other.
pub open spec fn joined(chunks: Seq<Seq<u8>>) -> Seq<u8>
    decreases chunks.len(),
{
    if chunks.len() == 0 {
        Seq::empty()
    } else {
        joined(chunks.drop_last()) + chunks.last()
    }
}

/// The content of a device after `chunks` are copied onto it, each chunk
/// handled by its action, with the device read back at the chunk's place
/// when resuming.
pub open spec fn copy_onto(device: Seq<u8>, chunks: Seq<Seq<u8>>, resume: bool) -> Seq<u8>
    decreases chunks.len(),
{
    if chunks.len() == 0 {
        device
    } else {
        let before = copy_onto(device, chunks.drop_last(), resume);
        let offset = joined(chunks.drop_last()).len();
        let chunk = chunks.last();
        let existing = if offset + chunk.len() <= before.len() {
            Some(before.subrange(offset as int, (offset + chunk.len()) as int))
        } else {
            None
        };
        apply_action(before, offset, chunk, next_action(resume, existing, chunk, offset))
    }
}

/// The progress of one copy of an image to several devices.
pub struct ResumeTracker {
    /// Whether devices are read back and compared before each chunk.
    resume: bool,
    /// Bytes of the image handled so far.
    processed: u64,
    /// The image bytes handled so far.
    image: Ghost<Seq<u8>>,
}

impl ResumeTracker {
    pub closed spec fn resume(&self) -> bool {
        self.resume
    }

    pub closed spec fn processed(&self) -> nat {
        self.processed as nat
    }

    /// The image bytes handled so far, chunk after chunk.
    pub closed spec fn image(&self) -> Seq<u8> {
        self.image@
    }

    pub closed spec fn wf(&self) -> bool {
        self.processed as nat == self.image@.len()
    }

    /// Starts a copy; with `resume`, devices are compared before writing.
    pub fn new(resume: bool) -> (t: Self)
        ensures
            t.wf(),
            t.resume() == resume,
            t.processed() == 0,
            t.image() == Seq::<u8>::empty(),
    {
        ResumeTracker { resume, processed: 0, image: Ghost(Seq::empty()) }
    }

    /// The number of image bytes handled so far: where the next chunk goes.
    pub fn processed_bytes(&self) -> (n: u64)
        ensures
            n == self.processed(),
    {
        self.processed
    }

    /// Whether each device must be read back at the place of the next chunk
    /// before it is written.
    pub fn is_resuming(&self) -> (b: bool)
        ensures
            b == self.resume(),
    {
        self.resume
    }

    /// Decides what to do with `chunk` on a device, given what was read back
    /// from the device at the chunk's place (`None` when nothing was read or
    /// reading failed). With resume on, a device that already holds the chunk
    /// skips it, and any other is sought back to the chunk's offset (the read
    /// moved it) and written; every chunk is compared, so identical chunks are
    /// skipped wherever they are. With resume off, every chunk is written.
    pub fn chunk_action(&self, existing: Option<&[u8]>, chunk: &[u8]) -> (a: ChunkAction)
        requires
            self.wf(),
        ensures
            !self.resume() ==> a == ChunkAction::Write,
            self.resume() && already_holds(existing, chunk@) ==> a == ChunkAction::Skip,
            self.resume() && !already_holds(existing, chunk@) ==> a == ChunkAction::SeekAndWrite(
                self.processed() as u64,
            ),
            a == next_action(self.resume(), read_back(existing), chunk@, self.processed()),
    {
        if !self.resume {
            return ChunkAction::Write;
        }
        let same = match existing {
            Some(e) => bytes_equal(e, chunk),
            None => false,
        };
        if same {
            ChunkAction::Skip
        } else {
            ChunkAction::SeekAndWrite(self.processed)
        }
    }

    /// Records that `chunk` has been handled on every device.
    pub fn chunk_done(&mut self, chunk: &[u8])
        requires
            old(self).wf(),
            old(self).processed() + chunk@.len() <= u64::MAX,
        ensures
            final(self).wf(),
            final(self).processed() == old(self).processed() + chunk@.len(),
            final(self).image() == old(self).image() + chunk@,
            final(self).resume() == old(self).resume(),
    {
        self.processed = self.processed + chunk.len() as u64;
        self.image = Ghost(self.image@ + chunk@);
    }
}

/// Law: whatever was read back from a device at the place of a chunk (the
/// bytes it holds there, or nothing when the read failed), carrying out the
/// chunk's action leaves the chunk written there and the rest unchanged.
pub proof fn lemma_action_writes_chunk(
    resume: bool,
    device: Seq<u8>,
    offset: nat,
    chunk: Seq<u8>,
    existing: Option<Seq<u8>>,
)
    requires
        offset + chunk.len() <= device.len() <= u64::MAX,
        existing matches Some(e) ==> e == device.subrange(offset as int, (offset + chunk.len()) as int),
    ensures
        apply_action(device, offset, chunk, next_action(resume, existing, chunk, offset))
            == write_at(device, offset, chunk),
{
    if resume && existing == Some(chunk) {
        assert(device =~= write_at(device, offset, chunk));
    }
}

/// Writing `a` at 0 and then `b` right after it is writing `a + b` at 0.
proof fn lemma_write_after(device: Seq<u8>, a: Seq<u8>, b: Seq<u8>)
    requires
        a.len() + b.len() <= device.len(),
    ensures
        write_at(write_at(device, 0, a), a.len(), b) == write_at(device, 0, a + b),
{
    let once = write_at(device, 0, a);
    assert(once =~= a + device.skip(a.len() as int));
    assert(once.take(a.len() as int) =~= a);
    assert(once.skip((a.len() + b.len()) as int) =~= device.skip((a.len() + b.len()) as int));
    assert(write_at(once, a.len(), b) =~= write_at(device, 0, a + b));
}

/// Law: copying an image onto a device at least as large leaves the image
/// at its start and the rest of the device as it was.
pub proof fn lemma_copy_writes_image(device: Seq<u8>, chunks: Seq<Seq<u8>>, resume: bool)
    requires
        joined(chunks).len() <= device.len() <= u64::MAX,
    ensures
        copy_onto(device, chunks, resume) == write_at(device, 0, joined(chunks)),
    decreases chunks.len(),
{
    if chunks.len() == 0 {
        assert(write_at(device, 0, Seq::empty()) =~= device);
    } else {
        let init = chunks.drop_last();
        let chunk = chunks.last();
        lemma_copy_writes_image(device, init, resume);
        let before = copy_onto(device, init, resume);
        let offset = joined(init).len();
        assert(before.len() == device.len());
        let existing = Some(before.subrange(offset as int, (offset + chunk.len()) as int));
        lemma_action_writes_chunk(resume, before, offset, chunk, existing);
        lemma_write_after(device, joined(init), chunk);
    }
}

/// Law: after a copy, a device holds the image in its first bytes and the
/// rest of it as before, and its size is unchanged; with resume or
/// without, the device ends up the same: resume only spares writing the
/// chunks it already holds.
pub proof fn lemma_resume_gives_the_same_device(device: Seq<u8>, chunks: Seq<Seq<u8>>)
    requires
        joined(chunks).len() <= device.len() <= u64::MAX,
    ensures
        copy_onto(device, chunks, true) == copy_onto(device, chunks, false),
        copy_onto(device, chunks, true).len() == device.len(),
        copy_onto(device, chunks, true).take(joined(chunks).len() as int) == joined(chunks),
        copy_onto(device, chunks, true).skip(joined(chunks).len() as int) == device.skip(
            joined(chunks).len() as int,
        ),
{
    lemma_copy_writes_image(device, chunks, true);
    lemma_copy_writes_image(device, chunks, false);
    let n = joined(chunks).len() as int;
    assert(write_at(device, 0, joined(chunks)).take(n) =~= joined(chunks));
    assert(write_at(device, 0, joined(chunks)).skip(n) =~= device.skip(n));
}

/// `j` is the first index at which `a` and `b` differ.
pub open spec fn first_difference_at(a: Seq<u8>, b: Seq<u8>, j: int) -> bool {
    &&& 0 <= j < a.len()
    &&& j < b.len()
    &&& a[j] != b[j]
    &&& forall|k: int| 0 <= k < j ==> a[k] == b[k]
}

/// The first index at which two equally long byte slices differ, if any.
pub fn first_difference(a: &[u8], b: &[u8]) -> (r: Option<usize>)
    requires
        a@.len() == b@.len(),
    ensures
        match r {
            Some(j) => first_difference_at(a@, b@, j as int),
            None => a@ == b@,
        },
{
    let mut i: usize = 0;
    while i < a.len()
        invariant
            i <= a.len() == b.len(),
            forall|k: int| 0 <= k < i ==> a@[k] == b@[k],
        decreases a.len() - i,
    {
        if a[i] != b[i] {
            return Some(i);
        }
        i = i + 1;
    }
    assert(a@ =~= b@);
    None
}

/// Verification found a byte of the device that differs from the image.
#[derive(Debug, Clone, Copy, PartialEq, Eq)]
pub struct VerifyMismatch {
    /// The offset of the first byte that differs.
    pub offset: u64,
}

/// The progress of comparing a device with the image.
pub struct WriteVerifier {
    verified: u64,
    image: Ghost<Seq<u8>>,
    device: Ghost<Seq<u8>>,
}

impl WriteVerifier {
    pub closed spec fn verified(&self) -> nat {
        self.verified as nat
    }

    /// The image bytes compared so far.
    pub closed spec fn image(&self) -> Seq<u8> {
        self.image@
    }

    /// The device bytes compared so far.
    pub closed spec fn device(&self) -> Seq<u8> {
        self.device@
    }

    pub closed spec fn wf(&self) -> bool {
        &&& self.verified as nat == self.image@.len()
        &&& self.image@ == self.device@
    }

    pub fn new() -> (v: Self)
        ensures
            v.wf(),
            v.verified() == 0,
            v.image() == Seq::<u8>::empty(),
    {
        WriteVerifier { verified: 0, image: Ghost(Seq::empty()), device: Ghost(Seq::empty()) }
    }

    /// The number of bytes found equal so far.
    pub fn verified_bytes(&self) -> (n: u64)
        ensures
            n == self.verified(),
    {
        self.verified
    }

    /// Compares the next chunk of the image with what the device holds at
    /// the same place. Equal chunks advance the comparison; otherwise the
    /// offset of the first differing byte is reported, and nothing changes.
    pub fn check_chunk(&mut self, image_chunk: &[u8], device_chunk: &[u8]) -> (r: Result<
        (),
        VerifyMismatch,
    >)
        requires
            old(self).wf(),
            image_chunk@.len() == device_chunk@.len(),
            old(self).verified() + image_chunk@.len() <= u64::MAX,
        ensures
            final(self).wf(),
            r is Ok <==> image_chunk@ == device_chunk@,
            r is Ok ==> final(self).verified() == old(self).verified() + image_chunk@.len()
                && final(self).image() == old(self).image() + image_chunk@ && final(self).device()
                == old(self).device() + device_chunk@,
            r matches Err(m) ==> m.offset >= old(self).verified() && first_difference_at(
                image_chunk@,
                device_chunk@,
                m.offset - old(self).verified(),
            ) && final(self).verified() == old(self).verified() && final(self).image() == old(self).image(),
    {
        match first_difference(image_chunk, device_chunk) {
            Some(j) => {
                return Err(VerifyMismatch { offset: self.verified + j as u64 });
            },
            None => {},
        }
        self.verified = self.verified + image_chunk.len() as u64;
        self.image = Ghost(self.image@ + image_chunk@);
        self.device = Ghost(self.device@ + device_chunk@);
        Ok(())
    }
}

/// Law: all that a verifier has accepted is the same on the device as in
/// the image.
pub proof fn lemma_verified_bytes_match(v: &WriteVerifier)
    requires
        v.wf(),
    ensures
        v.image() == v.device(),
        v.verified() == v.image().len(),
{
}

/// Law: the offset that verification reports is the first position at which
/// the device differs from the image, counted over everything compared so
/// far, not only the current chunk.
pub proof fn lemma_mismatch_is_first_difference(
    v: &WriteVerifier,
    image_chunk: Seq<u8>,
    device_chunk: Seq<u8>,
    j: int,
)
    requires
        v.wf(),
        image_chunk.len() == device_chunk.len(),
        first_difference_at(image_chunk, device_chunk, j),
    ensures
        first_difference_at(v.image() + image_chunk, v.device() + device_chunk, v.verified() + j),
{
    let a = v.image() + image_chunk;
    let b = v.device() + device_chunk;
    let n = v.verified() as int;
    assert(a[n + j] == image_chunk[j]);
    assert(b[n + j] == device_chunk[j]);
    assert forall|k: int| 0 <= k < n + j implies a[k] == b[k] by {
        if k < n {
            assert(a[k] == v.image()[k]);
            assert(b[k] == v.device()[k]);
        } else {
            assert(a[k] == image_chunk[k - n]);
            assert(b[k] == device_chunk[k - n]);
        }
    }
}

} // verus!
