//! What is announced of a file before it is sent, and the messages that steer a
//! transfer.

use vstd::prelude::*;

use crate::clock;
use crate::random;
use crate::text;
use crate::unicode;

verus! {

#[derive(Debug, Clone, Copy)]
pub enum TransferMode {
    /// Chunks in any order. The only mode that is carried out.
    Bulk,
    /// Reserved: a receiver turns it down.
    Streaming(StreamingConfig),
}

#[derive(Debug, Clone, Copy)]
pub struct StreamingConfig {
    pub buffer_chunks: u32,
    pub local_port: u16,
}

/// Sent at the start of every transfer. Its size does not depend on that of the file:
/// the integrity of each chunk comes from its authenticated encryption.
#[derive(Debug)]
pub struct FileManifest {
    pub session_id: [u8; 20],
    pub filename: String,
    pub mime_type: String,
    pub total_size: u64,
    pub chunk_size: u32,
    pub chunk_count: u32,
    pub transfer_mode: TransferMode,
    pub created_at: u64,
}

#[derive(Debug, Clone)]
pub enum ControlMessage {
    Manifest(FileManifest),
    ManifestAck,
    ResumeRequest { have_chunks: Vec<u32> },
    ChunkNack { index: u32 },
    /// Receiver to sender: the count of bytes received, decrypted and authenticated
    /// so far.
    Progress { bytes: u64 },
    Complete,
    Error { code: u32, message: String },
}

impl Clone for FileManifest {
    fn clone(&self) -> (m: Self)
        ensures
            m == *self,
    {
        FileManifest {
            session_id: self.session_id,
            filename: self.filename.clone(),
            mime_type: self.mime_type.clone(),
            total_size: self.total_size,
            chunk_size: self.chunk_size,
            chunk_count: self.chunk_count,
            transfer_mode: self.transfer_mode,
            created_at: self.created_at,
        }
    }
}

// ── Geometry ───────────────────────────────────────────────────────────────────

/// The chunk size that a file of `size` bytes is sent in.
pub open spec fn chunk_size_of(size: u64) -> u32 {
    if size <= 10_000_000 {
        65_536
    } else if size <= 500_000_000 {
        262_144
    } else {
        1_048_576
    }
}

/// Chunk `index` starts within the file, or at its end.
pub open spec fn in_file(index: u32, chunk_size: u32, total_size: u64) -> bool {
    index * chunk_size <= total_size
}

/// The length of chunk `index`: a whole chunk, or what is left of the file.
pub open spec fn chunk_len(index: u32, chunk_size: u32, total_size: u64) -> int {
    if total_size - index * chunk_size < chunk_size {
        total_size - index * chunk_size
    } else {
        chunk_size as int
    }
}

/// Chunk `index` of `file`.
pub open spec fn chunk_of(file: Seq<u8>, index: u32, chunk_size: u32) -> Seq<u8> {
    let start = index * chunk_size;
    file.subrange(start, start + chunk_len(index, chunk_size, file.len() as u64))
}

/// The number of chunks of `chunk_size` bytes that `total_size` bytes fill, the last one
/// perhaps in part.
pub open spec fn chunks_needed(total_size: u64, chunk_size: u32) -> int {
    if total_size % chunk_size as u64 == 0 {
        total_size as int / chunk_size as int
    } else {
        total_size as int / chunk_size as int + 1
    }
}

impl FileManifest {
    /// Every chunk of the manifest starts within the file.
    pub open spec fn fits(&self) -> bool {
        forall|i: u32| i < self.chunk_count ==> #[trigger] in_file(i, self.chunk_size, self.total_size)
    }

    /// The chunks of the manifest are those of the file: all of them start within it
    /// and together they reach its end.
    pub open spec fn covers(&self) -> bool {
        self.fits() && self.chunk_count * self.chunk_size >= self.total_size
    }
}

pub fn chunk_size_for(file_size: u64) -> (r: u32)
    ensures
        r == chunk_size_of(file_size),
{
    if file_size <= 10_000_000 {
        65_536
    } else if file_size <= 500_000_000 {
        262_144
    } else {
        1_048_576
    }
}

/// The byte at which chunk `chunk_index` starts.
pub fn chunk_offset(chunk_index: u32, chunk_size: u32) -> (r: u64)
    ensures
        r == chunk_index * chunk_size,
{
    assert(chunk_index as u64 * chunk_size as u64 <= 0xffff_ffff * 0xffff_ffff)
        by (nonlinear_arith)
        requires
            chunk_index <= 0xffff_ffff,
            chunk_size <= 0xffff_ffff,
    ;
    chunk_index as u64 * chunk_size as u64
}

/// Whether chunk `chunk_index` starts within the file, or at its end.
pub fn starts_in_file(chunk_index: u32, chunk_size: u32, total_size: u64) -> (r: bool)
    ensures
        r == in_file(chunk_index, chunk_size, total_size),
{
    chunk_offset(chunk_index, chunk_size) <= total_size
}

/// The count of bytes in chunk `chunk_index`, the last chunk being perhaps shorter.
pub fn actual_chunk_size(chunk_index: u32, chunk_size: u32, total_size: u64) -> (r: u32)
    requires
        in_file(chunk_index, chunk_size, total_size),
    ensures
        r == chunk_len(chunk_index, chunk_size, total_size),
{
    let left: u64 = total_size - chunk_offset(chunk_index, chunk_size);
    if left < chunk_size as u64 {
        left as u32
    } else {
        chunk_size
    }
}

// ── Building a manifest ────────────────────────────────────────────────────────

/// What stands behind the last dot of `name`, or all of it.
pub open spec fn extension_of(name: Seq<char>) -> Seq<char>
    decreases name.len(),
{
    if name.len() == 0 || name.last() == '.' {
        Seq::empty()
    } else {
        extension_of(name.drop_last()).push(name.last())
    }
}

/// The MIME type that goes with an extension in lower case.
pub open spec fn mime_of(ext: Seq<char>) -> Seq<char> {
    if ext == "mp4"@ || ext == "mov"@ || ext == "m4v"@ {
        "video/mp4"@
    } else if ext == "mkv"@ {
        "video/x-matroska"@
    } else if ext == "jpg"@ || ext == "jpeg"@ {
        "image/jpeg"@
    } else if ext == "png"@ {
        "image/png"@
    } else if ext == "gif"@ {
        "image/gif"@
    } else if ext == "pdf"@ {
        "application/pdf"@
    } else if ext == "txt"@ {
        "text/plain"@
    } else if ext == "zip"@ {
        "application/zip"@
    } else if ext == "tar"@ {
        "application/x-tar"@
    } else {
        "application/octet-stream"@
    }
}

/// The MIME type that goes with an extension in lower case.
pub fn mime_for(ext: &str) -> (r: String)
    ensures
        r@ == mime_of(ext@),
{
    let known = if text::equal(ext, "mp4") || text::equal(ext, "mov") || text::equal(ext, "m4v") {
        "video/mp4"
    } else if text::equal(ext, "mkv") {
        "video/x-matroska"
    } else if text::equal(ext, "jpg") || text::equal(ext, "jpeg") {
        "image/jpeg"
    } else if text::equal(ext, "png") {
        "image/png"
    } else if text::equal(ext, "gif") {
        "image/gif"
    } else if text::equal(ext, "pdf") {
        "application/pdf"
    } else if text::equal(ext, "txt") {
        "text/plain"
    } else if text::equal(ext, "zip") {
        "application/zip"
    } else if text::equal(ext, "tar") {
        "application/x-tar"
    } else {
        "application/octet-stream"
    };
    known.to_string()
}

/// What stands behind the last dot of `name`, or all of it.
fn extension(name: &str) -> (r: String)
    ensures
        r@ == extension_of(name@),
{
    let chars = text::chars_of(name);
    let mut start: usize = chars.len();
    assert(name@.subrange(0, name@.len() as int) =~= name@);
    assert(extension_of(name@) + Seq::<char>::empty() =~= extension_of(name@));
    assert(chars@.subrange(start as int, chars@.len() as int) =~= Seq::<char>::empty());
    while start > 0 && chars[start - 1] != '.'
        invariant
            start <= chars@.len(),
            chars@ == name@,
            extension_of(name@) == extension_of(name@.subrange(0, start as int)) + chars@.subrange(
                start as int,
                chars@.len() as int,
            ),
        decreases start,
    {
        let ghost head = name@.subrange(0, start as int);
        let ghost tail = chars@.subrange(start as int, chars@.len() as int);
        assert(head.drop_last() =~= name@.subrange(0, start - 1));
        assert(extension_of(head.drop_last()).push(head.last()) + tail =~= extension_of(
            head.drop_last(),
        ) + chars@.subrange(start - 1, chars@.len() as int));
        start = start - 1;
    }
    proof {
        let head = name@.subrange(0, start as int);
        assert(extension_of(head) =~= Seq::<char>::empty());
        assert(extension_of(name@) =~= chars@.subrange(start as int, chars@.len() as int));
    }
    text::text_of(vstd::slice::slice_subrange(chars.as_slice(), start, chars.len()))
}

/// The MIME type that the extension of `name` suggests, whatever its case.
pub fn guess_mime(name: &str) -> (r: String)
    ensures
        r@ == mime_of(unicode::lower(extension_of(name@))),
{
    let ext = extension(name);
    let lower = unicode::to_lowercase(&ext);
    mime_for(&lower)
}

/// The chunks needed start within the file, each of them, and reach its end.
proof fn chunks_needed_cover(total_size: u64, chunk_size: u32)
    requires
        chunk_size > 0,
    ensures
        chunks_needed(total_size, chunk_size) * chunk_size >= total_size,
        forall|i: u32|
            i < chunks_needed(total_size, chunk_size) ==> #[trigger] in_file(
                i,
                chunk_size,
                total_size,
            ),
{
    let q = total_size as int / chunk_size as int;
    let n = chunks_needed(total_size, chunk_size);
    vstd::arithmetic::div_mod::lemma_fundamental_div_mod(total_size as int, chunk_size as int);
    assert((q + 1) * chunk_size == q * chunk_size + chunk_size) by (nonlinear_arith);
    assert(chunk_size * q == q * chunk_size) by (nonlinear_arith);
    assert forall|i: u32| i < n implies #[trigger] in_file(i, chunk_size, total_size) by {
        assert(i * chunk_size <= q * chunk_size) by (nonlinear_arith)
            requires
                i <= q,
        ;
    }
}

/// `m` describes a file of this name and size.
pub open spec fn describes(
    m: FileManifest,
    session_id: [u8; 20],
    filename: Seq<char>,
    total_size: u64,
    created_at: u64,
) -> bool {
    &&& m.session_id == session_id
    &&& m.filename@ == filename
    &&& m.mime_type@ == mime_of(unicode::lower(extension_of(filename)))
    &&& m.total_size == total_size
    &&& m.chunk_size == chunk_size_of(total_size)
    &&& m.chunk_count == (chunks_needed(total_size, m.chunk_size) % 0x1_0000_0000) as u32
    &&& m.transfer_mode is Bulk
    &&& m.created_at == created_at
}

/// The manifest of a file, with the identifier and the time given.
///
/// It covers the file, unless the file has more chunks than their count can hold.
pub fn manifest_with(
    session_id: [u8; 20],
    filename: String,
    total_size: u64,
    created_at: u64,
) -> (m: FileManifest)
    ensures
        describes(m, session_id, filename@, total_size, created_at),
        chunks_needed(total_size, m.chunk_size) <= u32::MAX ==> m.covers(),
{
    let chunk_size: u32 = chunk_size_for(total_size);
    let whole: u64 = total_size / chunk_size as u64;
    assert(whole <= total_size / 2) by (nonlinear_arith)
        requires
            whole == total_size / chunk_size as u64,
            chunk_size >= 2,
    ;
    let needed: u64 = if total_size % chunk_size as u64 == 0 {
        whole
    } else {
        whole + 1
    };
    let chunk_count: u32 = (needed % 0x1_0000_0000) as u32;
    let mime_type = guess_mime(&filename);
    let m = FileManifest {
        session_id,
        filename,
        mime_type,
        total_size,
        chunk_size,
        chunk_count,
        transfer_mode: TransferMode::Bulk,
        created_at,
    };
    proof {
        if needed <= u32::MAX {
            assert(chunk_count == needed);
            chunks_needed_cover(total_size, chunk_size);
        }
    }
    m
}

/// The manifest of a file, under a fresh random identifier and dated now.
pub fn build_manifest(filename: String, total_size: u64) -> (m: FileManifest)
    ensures
        describes(m, m.session_id, filename@, total_size, m.created_at),
        chunks_needed(total_size, m.chunk_size) <= u32::MAX ==> m.covers(),
{
    let session_id = random::random_20();
    let created_at: u64 = clock::unix_now();
    manifest_with(session_id, filename, total_size, created_at)
}

// ── Messages in words ──────────────────────────────────────────────────────────

/// The numbers of a byte string.
pub open spec fn byte_numbers(s: Seq<u8>) -> Seq<u64> {
    Seq::new(s.len(), |i: int| s[i] as u64)
}

/// The numbers of a list of indices.
pub open spec fn index_numbers(s: Seq<u32>) -> Seq<u64> {
    Seq::new(s.len(), |i: int| s[i] as u64)
}

impl TransferMode {
    /// The mode, as it is shown in messages for developers.
    pub open spec fn shown(&self) -> Seq<char> {
        match self {
            TransferMode::Bulk => "Bulk"@,
            TransferMode::Streaming(c) => "Streaming(StreamingConfig { buffer_chunks: "@
                + text::digits(c.buffer_chunks as nat) + ", local_port: "@ + text::digits(
                c.local_port as nat,
            ) + " })"@,
        }
    }

    fn show(&self) -> (s: String)
        ensures
            s@ == self.shown(),
    {
        match self {
            TransferMode::Bulk => "Bulk".to_string(),
            TransferMode::Streaming(c) => {
                let mut s = "Streaming(StreamingConfig { buffer_chunks: ".to_string();
                s.append(&text::decimal(c.buffer_chunks as u64));
                s.append(", local_port: ");
                s.append(&text::decimal(c.local_port as u64));
                s.append(" })");
                s
            },
        }
    }
}

impl FileManifest {
    /// The manifest, as it is shown in messages for developers.
    pub open spec fn shown(&self) -> Seq<char> {
        "FileManifest { session_id: "@ + text::number_list(byte_numbers(self.session_id@))
            + ", filename: "@ + unicode::quoted(self.filename@) + ", mime_type: "@
            + unicode::quoted(self.mime_type@) + ", total_size: "@ + text::digits(
            self.total_size as nat,
        ) + ", chunk_size: "@ + text::digits(self.chunk_size as nat) + ", chunk_count: "@
            + text::digits(self.chunk_count as nat) + ", transfer_mode: "@
            + self.transfer_mode.shown() + ", created_at: "@ + text::digits(self.created_at as nat)
            + " }"@
    }

    fn show(&self) -> (s: String)
        ensures
            s@ == self.shown(),
    {
        let mut id: Vec<u64> = Vec::new();
        let mut i: usize = 0;
        while i < 20
            invariant
                i <= 20,
                id@ =~= byte_numbers(self.session_id@).subrange(0, i as int),
            decreases 20 - i,
        {
            id.push(self.session_id[i] as u64);
            i = i + 1;
        }
        assert(id@ =~= byte_numbers(self.session_id@));
        let mut s = "FileManifest { session_id: ".to_string();
        s.append(&text::number_list_text(id.as_slice()));
        s.append(", filename: ");
        s.append(&unicode::quote(&self.filename));
        s.append(", mime_type: ");
        s.append(&unicode::quote(&self.mime_type));
        s.append(", total_size: ");
        s.append(&text::decimal(self.total_size));
        s.append(", chunk_size: ");
        s.append(&text::decimal(self.chunk_size as u64));
        s.append(", chunk_count: ");
        s.append(&text::decimal(self.chunk_count as u64));
        s.append(", transfer_mode: ");
        s.append(&self.transfer_mode.show());
        s.append(", created_at: ");
        s.append(&text::decimal(self.created_at));
        s.append(" }");
        s
    }
}

impl ControlMessage {
    /// The message, as it is shown in messages for developers.
    pub open spec fn shown(&self) -> Seq<char> {
        match self {
            ControlMessage::Manifest(m) => "Manifest("@ + m.shown() + ")"@,
            ControlMessage::ManifestAck => "ManifestAck"@,
            ControlMessage::ResumeRequest { have_chunks } => "ResumeRequest { have_chunks: "@
                + text::number_list(index_numbers(have_chunks@)) + " }"@,
            ControlMessage::ChunkNack { index } => "ChunkNack { index: "@ + text::digits(
                *index as nat,
            ) + " }"@,
            ControlMessage::Progress { bytes } => "Progress { bytes: "@ + text::digits(
                *bytes as nat,
            ) + " }"@,
            ControlMessage::Complete => "Complete"@,
            ControlMessage::Error { code, message } => "Error { code: "@ + text::digits(
                *code as nat,
            ) + ", message: "@ + unicode::quoted(message@) + " }"@,
        }
    }

    /// Writes the message for developers.
    pub fn show(&self) -> (s: String)
        ensures
            s@ == self.shown(),
    {
        match self {
            ControlMessage::Manifest(m) => {
                let mut s = "Manifest(".to_string();
                s.append(&m.show());
                s.append(")");
                s
            },
            ControlMessage::ManifestAck => "ManifestAck".to_string(),
            ControlMessage::ResumeRequest { have_chunks } => {
                let mut numbers: Vec<u64> = Vec::new();
                let mut i: usize = 0;
                while i < have_chunks.len()
                    invariant
                        i <= have_chunks@.len(),
                        numbers@ =~= index_numbers(have_chunks@).subrange(0, i as int),
                    decreases have_chunks@.len() - i,
                {
                    numbers.push(have_chunks[i] as u64);
                    i = i + 1;
                }
                assert(numbers@ =~= index_numbers(have_chunks@));
                let mut s = "ResumeRequest { have_chunks: ".to_string();
                s.append(&text::number_list_text(numbers.as_slice()));
                s.append(" }");
                s
            },
            ControlMessage::ChunkNack { index } => {
                let mut s = "ChunkNack { index: ".to_string();
                s.append(&text::decimal(*index as u64));
                s.append(" }");
                s
            },
            ControlMessage::Progress { bytes } => {
                let mut s = "Progress { bytes: ".to_string();
                s.append(&text::decimal(*bytes));
                s.append(" }");
                s
            },
            ControlMessage::Complete => "Complete".to_string(),
            ControlMessage::Error { code, message } => {
                let mut s = "Error { code: ".to_string();
                s.append(&text::decimal(*code as u64));
                s.append(", message: ");
                s.append(&unicode::quote(message));
                s.append(" }");
                s
            },
        }
    }
}

// ── Laws ───────────────────────────────────────────────────────────────────────

/// Files of up to 10 MB go in chunks of 64 KiB, up to 500 MB in chunks of 256 KiB, and all
/// others in chunks of 1 MiB; a larger file never goes in smaller chunks.
pub proof fn larger_files_have_larger_chunks(size: u64, larger: u64)
    requires
        size <= larger,
    ensures
        chunk_size_of(size) <= chunk_size_of(larger),
        chunk_size_of(size) == 64 * 1024 <==> size <= 10_000_000,
        chunk_size_of(size) == 256 * 1024 <==> 10_000_000 < size <= 500_000_000,
        chunk_size_of(size) == 1024 * 1024 <==> size > 500_000_000,
{
}

/// The chunks of a file are laid end to end: each starts where the one before ends, all but
/// the last are whole, the last is not empty, and it ends where the file does.
pub proof fn chunks_are_laid_end_to_end(total_size: u64, chunk_size: u32, index: u32)
    requires
        chunk_size > 0,
        index < chunks_needed(total_size, chunk_size),
    ensures
        in_file(index, chunk_size, total_size),
        0 < chunk_len(index, chunk_size, total_size) <= chunk_size,
        index + 1 < chunks_needed(total_size, chunk_size) ==> chunk_len(
            index,
            chunk_size,
            total_size,
        ) == chunk_size,
        index + 1 == chunks_needed(total_size, chunk_size) ==> index * chunk_size + chunk_len(
            index,
            chunk_size,
            total_size,
        ) == total_size,
{
    let size = chunk_size as int;
    let q = total_size as int / size;
    vstd::arithmetic::div_mod::lemma_fundamental_div_mod(total_size as int, size);
    assert(size * q == q * size) by (nonlinear_arith);
    assert((index + 1) * size == index * size + size) by (nonlinear_arith);
    let n = chunks_needed(total_size, chunk_size);
    if index < q {
        assert((index + 1) * size <= q * size) by (nonlinear_arith)
            requires
                index + 1 <= q,
                size > 0,
        ;
        if index + 1 < n && index + 1 == q {
            assert((index + 1) * size == q * size);
        }
        if index + 1 == n {
            assert(q == index + 1);
        }
    } else {
        assert(index == q);
    }
}

/// An empty file has no chunks, and every other one has chunks up to its last byte.
pub proof fn chunks_reach_the_end(total_size: u64, chunk_size: u32)
    requires
        chunk_size > 0,
    ensures
        chunks_needed(total_size, chunk_size) == 0 <==> total_size == 0,
        chunks_needed(total_size, chunk_size) * chunk_size >= total_size,
{
    chunks_needed_cover(total_size, chunk_size);
    let q = total_size as int / chunk_size as int;
    vstd::arithmetic::div_mod::lemma_fundamental_div_mod(total_size as int, chunk_size as int);
    if chunks_needed(total_size, chunk_size) == 0 {
        assert(0 * chunk_size == 0);
    }
    if total_size == 0 {
        assert(0int / (chunk_size as int) == 0) by (nonlinear_arith)
            requires
                chunk_size > 0,
        ;
        assert(0int % (chunk_size as int) == 0) by (nonlinear_arith)
            requires
                chunk_size > 0,
        ;
    }
}

/// A chunk starts within the file as long as its first byte is at most the file's end.
pub proof fn chunk_starts_at_its_multiple(index: u32, chunk_size: u32, total_size: u64)
    ensures
        in_file(index, chunk_size, total_size) <==> total_size >= index * chunk_size,
{
}

/// A chunk holds the bytes of the file from its start on.
pub proof fn chunk_holds_its_bytes(file: Seq<u8>, index: u32, chunk_size: u32, k: int)
    requires
        file.len() <= u64::MAX,
        in_file(index, chunk_size, file.len() as u64),
        0 <= k < chunk_len(index, chunk_size, file.len() as u64),
    ensures
        chunk_of(file, index, chunk_size).len() == chunk_len(
            index,
            chunk_size,
            file.len() as u64,
        ),
        index * chunk_size + k < file.len(),
        chunk_of(file, index, chunk_size)[k] == file[index * chunk_size + k],
{
    assert(0 <= index * chunk_size) by (nonlinear_arith)
        requires
            index >= 0,
            chunk_size >= 0,
    ;
}

/// A manifest tells the file as it is, covers all of it, and counts no chunk that would be
/// empty, unless the file has more chunks than can be counted.
pub proof fn manifest_counts_the_chunks(
    m: FileManifest,
    session_id: [u8; 20],
    filename: Seq<char>,
    total_size: u64,
    created_at: u64,
)
    requires
        describes(m, session_id, filename, total_size, created_at),
        chunks_needed(total_size, m.chunk_size) <= u32::MAX,
    ensures
        m.session_id == session_id,
        m.filename@ == filename,
        m.total_size == total_size,
        m.created_at == created_at,
        m.transfer_mode is Bulk,
        m.covers(),
        total_size == 0 <==> m.chunk_count == 0,
        total_size > 0 ==> (m.chunk_count - 1) * m.chunk_size < total_size <= m.chunk_count
            * m.chunk_size,
{
    chunks_needed_cover(total_size, m.chunk_size);
    chunks_reach_the_end(total_size, m.chunk_size);
    assert(m.chunk_count == chunks_needed(total_size, m.chunk_size));
    if total_size > 0 {
        chunks_are_laid_end_to_end(total_size, m.chunk_size, (m.chunk_count - 1) as u32);
    }
}

/// A manifest covers its file exactly if every chunk starts within the file and together
/// they reach its end.
pub proof fn covering_means_reaching_the_end(m: FileManifest, i: u32)
    ensures
        m.covers() ==> m.chunk_count * m.chunk_size >= m.total_size,
        m.covers() && i < m.chunk_count ==> i * m.chunk_size <= m.total_size,
        m.chunk_count * m.chunk_size >= m.total_size && (forall|k: u32|
            k < m.chunk_count ==> #[trigger] in_file(k, m.chunk_size, m.total_size)) ==> m.covers(),
{
    if m.covers() && i < m.chunk_count {
        assert(in_file(i, m.chunk_size, m.total_size));
    }
}

/// The extension of a name is what stands behind its last dot; a name without a dot is all
/// extension.
pub proof fn extension_is_behind_the_last_dot(stem: Seq<char>, ext: Seq<char>)
    requires
        forall|i: int| 0 <= i < ext.len() ==> #[trigger] ext[i] != '.',
    ensures
        extension_of(stem.push('.') + ext) == ext,
        extension_of(ext) == ext,
    decreases ext.len(),
{
    let s = stem.push('.') + ext;
    if ext.len() == 0 {
        assert(s =~= stem.push('.'));
        assert(extension_of(s) =~= ext);
        assert(extension_of(ext) =~= ext);
    } else {
        let head = ext.drop_last();
        assert forall|i: int| 0 <= i < head.len() implies #[trigger] head[i] != '.' by {
            assert(head[i] == ext[i]);
        }
        extension_is_behind_the_last_dot(stem, head);
        assert(s.drop_last() =~= stem.push('.') + head);
        assert(s.last() == ext.last());
        assert(ext.last() == ext[ext.len() - 1]);
        assert(extension_of(s) =~= ext);
        assert(extension_of(ext) =~= ext);
    }
}

/// The types of the extensions that are known. Of any other extension nothing is assumed.
pub proof fn known_types(ext: Seq<char>)
    ensures
        mime_of("mp4"@) == "video/mp4"@ && mime_of("mov"@) == "video/mp4"@ && mime_of("m4v"@)
            == "video/mp4"@,
        mime_of("mkv"@) == "video/x-matroska"@,
        mime_of("jpg"@) == "image/jpeg"@ && mime_of("jpeg"@) == "image/jpeg"@,
        mime_of("png"@) == "image/png"@,
        mime_of("gif"@) == "image/gif"@,
        mime_of("pdf"@) == "application/pdf"@,
        mime_of("txt"@) == "text/plain"@,
        mime_of("zip"@) == "application/zip"@,
        mime_of("tar"@) == "application/x-tar"@,
        ext.len() < 3 || ext.len() > 4 ==> mime_of(ext) == "application/octet-stream"@,
        (ext != "mp4"@ && ext != "mov"@ && ext != "m4v"@ && ext != "mkv"@ && ext != "jpg"@ && ext
            != "jpeg"@ && ext != "png"@ && ext != "gif"@ && ext != "pdf"@ && ext != "txt"@ && ext
            != "zip"@ && ext != "tar"@) ==> mime_of(ext) == "application/octet-stream"@,
{
    reveal_strlit("mp4");
    reveal_strlit("mov");
    reveal_strlit("m4v");
    reveal_strlit("mkv");
    reveal_strlit("jpg");
    reveal_strlit("jpeg");
    reveal_strlit("png");
    reveal_strlit("gif");
    reveal_strlit("pdf");
    reveal_strlit("txt");
    reveal_strlit("zip");
    reveal_strlit("tar");
    assert("mkv"@[2] != "mp4"@[2] && "mkv"@[2] == 'v' && "mov"@[1] != "mkv"@[1] && "m4v"@[1]
        != "mkv"@[1]);
    assert("jpg"@[0] == 'j' && "png"@[0] == 'p' && "gif"@[0] == 'g' && "pdf"@[1] == 'd'
        && "png"@[1] == 'n' && "txt"@[0] == 't' && "txt"@[1] == 'x' && "zip"@[0] == 'z'
        && "tar"@[1] == 'a' && "mp4"@[0] == 'm' && "mov"@[0] == 'm' && "m4v"@[0] == 'm'
        && "mkv"@[0] == 'm' && "pdf"@[0] == 'p' && "tar"@[0] == 't');
}

/// A file named `stem.ext` is announced with the type of `ext`, however that is written.
pub proof fn type_goes_by_the_extension(
    m: FileManifest,
    session_id: [u8; 20],
    stem: Seq<char>,
    ext: Seq<char>,
    total_size: u64,
    created_at: u64,
)
    requires
        describes(m, session_id, stem.push('.') + ext, total_size, created_at),
        forall|i: int| 0 <= i < ext.len() ==> #[trigger] ext[i] != '.',
    ensures
        m.mime_type@ == mime_of(unicode::lower(ext)),
{
    extension_is_behind_the_last_dot(stem, ext);
}

/// The count of chunks is that of the chunks needed, in its 32 bits.
pub proof fn count_keeps_32_bits(
    m: FileManifest,
    session_id: [u8; 20],
    filename: Seq<char>,
    total_size: u64,
    created_at: u64,
)
    requires
        describes(m, session_id, filename, total_size, created_at),
    ensures
        (chunks_needed(total_size, m.chunk_size) - m.chunk_count) % 0x1_0000_0000 == 0,
{
    let n = chunks_needed(total_size, m.chunk_size);
    chunks_reach_the_end(total_size, m.chunk_size);
    assert(n >= 0) by (nonlinear_arith)
        requires
            n * m.chunk_size >= total_size,
            total_size >= 0,
            m.chunk_size > 0,
    ;
}

/// Messages about different chunks, or different counts of bytes, read differently.
pub proof fn messages_tell_their_numbers(i: u32, j: u32, b: u64, c: u64)
    ensures
        i != j ==> (ControlMessage::ChunkNack { index: i }).shown() != (ControlMessage::ChunkNack {
            index: j,
        }).shown(),
        b != c ==> (ControlMessage::Progress { bytes: b }).shown() != (ControlMessage::Progress {
            bytes: c,
        }).shown(),
{
    between("ChunkNack { index: "@, i as nat, j as nat, " }"@);
    between("Progress { bytes: "@, b as nat, c as nat, " }"@);
}

proof fn between(head: Seq<char>, m: nat, n: nat, tail: Seq<char>)
    ensures
        m != n ==> head + text::digits(m) + tail != head + text::digits(n) + tail,
{
    let (a, b) = (head + text::digits(m) + tail, head + text::digits(n) + tail);
    if a == b {
        assert(a.len() == b.len());
        let h = head.len() as int;
        assert(text::digits(m) =~= a.subrange(h, a.len() - tail.len()));
        assert(text::digits(n) =~= b.subrange(h, b.len() - tail.len()));
        text::digits_tell_numbers_apart(m, n);
    }
}

/// A message in words starts with what it is.
pub proof fn message_starts_with_its_name(msg: ControlMessage)
    ensures
        msg is Manifest ==> "Manifest(FileManifest { session_id: "@.is_prefix_of(msg.shown()),
        msg is ManifestAck ==> msg.shown() == "ManifestAck"@,
        msg is ResumeRequest ==> "ResumeRequest { have_chunks: ["@.is_prefix_of(msg.shown()),
        msg is ChunkNack ==> "ChunkNack { index: "@.is_prefix_of(msg.shown()),
        msg is Progress ==> "Progress { bytes: "@.is_prefix_of(msg.shown()),
        msg is Complete ==> msg.shown() == "Complete"@,
        msg is Error ==> "Error { code: "@.is_prefix_of(msg.shown()),
{
    reveal_strlit("Manifest(");
    reveal_strlit("FileManifest { session_id: ");
    reveal_strlit("Manifest(FileManifest { session_id: ");
    reveal_strlit("ResumeRequest { have_chunks: ");
    reveal_strlit("ResumeRequest { have_chunks: [");
    reveal_strlit("[");
    match msg {
        ControlMessage::Manifest(m) => {
            let p = "Manifest(FileManifest { session_id: "@;
            assert(p =~= msg.shown().subrange(0, p.len() as int));
        },
        ControlMessage::ResumeRequest { have_chunks } => {
            let p = "ResumeRequest { have_chunks: ["@;
            assert(p =~= msg.shown().subrange(0, p.len() as int));
        },
        ControlMessage::ChunkNack { index } => {
            let p = "ChunkNack { index: "@;
            assert(p =~= msg.shown().subrange(0, p.len() as int));
        },
        ControlMessage::Progress { bytes } => {
            let p = "Progress { bytes: "@;
            assert(p =~= msg.shown().subrange(0, p.len() as int));
        },
        ControlMessage::Error { code, message } => {
            let p = "Error { code: "@;
            assert(p =~= msg.shown().subrange(0, p.len() as int));
        },
        _ => {},
    }
}

} // verus!
