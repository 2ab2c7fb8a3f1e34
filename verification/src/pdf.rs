//! The open document and its page images: page and slice identities, the
//! page sizes, and the cache keys of rendered pages (SHA-256 of what
//! determines the image, in lowercase hex).

use vstd::prelude::*;

use crate::config::render::PdfRasterBackend;

verus! {

#[derive(Debug, Clone)]
pub struct PdfDocument {
    pub path: std::path::PathBuf,
    /// The path as UTF-8 text, invalid sequences replaced (what
    /// `Path::to_string_lossy` gives), as bytes: the path's part of cache
    /// keys.
    pub path_bytes: Vec<u8>,
    pub file_name: String,
    pub page_count: usize,
    pub size_bytes: u64,
    pub modified_nanos: u128,
    pub page_cache_dir: std::path::PathBuf,
    pub page_temp_dir: std::path::PathBuf,
    pub raster_backend: PdfRasterBackend,
    pub pdf_raster_batch_pages: usize,
    pub pdftoppm_bin: String,
    pub mutool_bin: String,
    pub mutool_band_height: u32,
    pub mutool_threads: usize,
    pub mutool_parallel: bool,
    pub pdfium_library_path: Option<String>,
    pub dpi: u16,
    pub page_sizes: Vec<(u32, u32)>,
}

#[derive(Debug, Clone)]
pub struct PageImage {
    pub page_index: usize,
    pub path: std::path::PathBuf,
    pub width: u32,
    pub height: u32,
    pub size_bytes: u64,
    pub modified_nanos: u128,
    pub slice: Option<PageSliceMetadata>,
}

#[derive(Debug, Clone, Copy, PartialEq, Eq, Hash)]
pub struct PageSliceId {
    pub page_index: usize,
    pub slice_index: u16,
    pub slice_count: u16,
}

/// One horizontal slice of a page rendered for the scroll layout.
#[derive(Debug, Clone, Copy, PartialEq, Eq, Hash, Structural)]
pub struct PageSliceSpec {
    pub page_index: usize,
    pub slice_index: u16,
    pub slice_count: u16,
    pub target_width: u32,
    pub target_height: u32,
    pub slice_y: u32,
    pub slice_height: u32,
    pub cell_width: u16,
    pub cell_height: u16,
    pub full_cell_width: u16,
    pub full_cell_height: u16,
    pub viewport_width: u16,
    pub viewport_height: u16,
    pub scroll_divisor: u16,
}

/// What is recorded beside a cached slice image.
#[derive(Debug, Clone)]
pub struct PageSliceMetadata {
    pub source_pdf: String,
    pub source_size_bytes: u64,
    pub source_modified_nanos: String,
    pub page_index: usize,
    pub page_number: usize,
    pub slice_index: u16,
    pub slice_count: u16,
    pub full_pixel_width: u32,
    pub full_pixel_height: u32,
    pub slice_x: u32,
    pub slice_y: u32,
    pub slice_width: u32,
    pub slice_height: u32,
    pub cell_width: u16,
    pub cell_height: u16,
    pub full_cell_width: u16,
    pub full_cell_height: u16,
    pub viewport_width: u16,
    pub viewport_height: u16,
    pub scroll_divisor: u16,
    pub cache_key: String,
}

pub open spec fn max1_u16(v: u16) -> u16 {
    if v < 1 {
        1
    } else {
        v
    }
}

pub open spec fn max1_u32(v: u32) -> u32 {
    if v < 1 {
        1
    } else {
        v
    }
}

/// A slice made consistent: at least one slice, an index within them,
/// and every size at least 1.
pub open spec fn normalized_spec(s: PageSliceSpec) -> PageSliceSpec {
    let count = max1_u16(s.slice_count);
    PageSliceSpec {
        page_index: s.page_index,
        slice_index: if s.slice_index < count - 1 {
            s.slice_index
        } else {
            (count - 1) as u16
        },
        slice_count: count,
        target_width: max1_u32(s.target_width),
        target_height: max1_u32(s.target_height),
        slice_y: s.slice_y,
        slice_height: max1_u32(s.slice_height),
        cell_width: max1_u16(s.cell_width),
        cell_height: max1_u16(s.cell_height),
        full_cell_width: max1_u16(s.full_cell_width),
        full_cell_height: max1_u16(s.full_cell_height),
        viewport_width: max1_u16(s.viewport_width),
        viewport_height: max1_u16(s.viewport_height),
        scroll_divisor: max1_u16(s.scroll_divisor),
    }
}

fn max1_16(v: u16) -> (out: u16)
    ensures
        out == max1_u16(v),
{
    if v < 1 {
        1
    } else {
        v
    }
}

fn max1_32(v: u32) -> (out: u32)
    ensures
        out == max1_u32(v),
{
    if v < 1 {
        1
    } else {
        v
    }
}

impl PageSliceSpec {
    /// The page and slice this spec renders.
    pub fn id(self) -> (id: PageSliceId)
        ensures
            id == (PageSliceId {
                page_index: self.page_index,
                slice_index: self.slice_index,
                slice_count: self.slice_count,
            }),
    {
        PageSliceId {
            page_index: self.page_index,
            slice_index: self.slice_index,
            slice_count: self.slice_count,
        }
    }

    pub fn normalized(self) -> (spec: Self)
        ensures
            spec == normalized_spec(self),
    {
        let slice_count = max1_16(self.slice_count);
        let last = slice_count - 1;
        PageSliceSpec {
            page_index: self.page_index,
            slice_index: if self.slice_index < last {
                self.slice_index
            } else {
                last
            },
            slice_count,
            target_width: max1_32(self.target_width),
            target_height: max1_32(self.target_height),
            slice_y: self.slice_y,
            slice_height: max1_32(self.slice_height),
            cell_width: max1_16(self.cell_width),
            cell_height: max1_16(self.cell_height),
            full_cell_width: max1_16(self.full_cell_width),
            full_cell_height: max1_16(self.full_cell_height),
            viewport_width: max1_16(self.viewport_width),
            viewport_height: max1_16(self.viewport_height),
            scroll_divisor: max1_16(self.scroll_divisor),
        }
    }
}

/// The page size assumed when none is known: A4 in points.
pub open spec fn default_page_size_spec() -> (u32, u32) {
    (595, 842)
}

pub fn default_page_size() -> (size: (u32, u32))
    ensures
        size == default_page_size_spec(),
{
    (595, 842)
}

impl PdfDocument {
    /// The size of page `index` in points, or the default size.
    pub fn logical_page_size(&self, index: usize) -> (size: (u32, u32))
        ensures
            size == if index < self.page_sizes@.len() {
                self.page_sizes@[index as int]
            } else {
                default_page_size_spec()
            },
    {
        if index < self.page_sizes.len() {
            self.page_sizes[index]
        } else {
            default_page_size()
        }
    }
}

// ---------------------------------------------------------------------
// Cache keys

/// The SHA-256 digest of `data`, as `sha2::Sha256` computes it.
pub uninterp spec fn sha256_spec(data: Seq<u8>) -> Seq<u8>;

/// `Sha256::digest`: the SHA-256 digest of `data`, 32 bytes.
#[verifier::external_body]
pub(crate) fn sha256(data: &Vec<u8>) -> (digest: Vec<u8>)
    ensures
        digest@ == sha256_spec(data@),
        digest@.len() == 32,
{
    <sha2::Sha256 as sha2::Digest>::digest(data.as_slice()).to_vec()
}

/// Lowercase hexadecimal digit `d`.
pub open spec fn hex_lower_digit(d: nat) -> char {
    if d < 10 {
        ((48 + d) as u32) as char
    } else {
        ((87 + d) as u32) as char
    }
}

/// `data` in lowercase hexadecimal, two digits per byte.
pub open spec fn hex_lower(data: Seq<u8>) -> Seq<char>
    decreases data.len(),
{
    if data.len() == 0 {
        Seq::empty()
    } else {
        hex_lower(data.drop_last()) + seq![
            hex_lower_digit((data.last() / 16) as nat),
            hex_lower_digit((data.last() % 16) as nat),
        ]
    }
}

/// `hex::encode`: the bytes in lowercase hexadecimal, two digits per
/// byte, as the crate documents.
#[verifier::external_body]
pub(crate) fn hex_encode(data: &Vec<u8>) -> (text: String)
    ensures
        text@ == hex_lower(data@),
{
    hex::encode(data)
}

/// The `count` low bytes of `n`, least significant first.
#[verifier::opaque]
pub open spec fn le_bytes(n: nat, count: nat) -> Seq<u8>
    decreases count,
{
    if count == 0 {
        Seq::empty()
    } else {
        seq![(n % 256) as u8] + le_bytes(n / 256, (count - 1) as nat)
    }
}

pub(crate) fn push_le_bytes(out: &mut Vec<u8>, n: u128, count: usize)
    requires
        count <= 16,
    ensures
        final(out)@ == old(out)@ + le_bytes(n as nat, count as nat),
    decreases count,
{
    proof {
        reveal(le_bytes);
    }
    if count == 0 {
        proof {
            assert(old(out)@ + le_bytes(n as nat, 0) =~= old(out)@);
        }
        return;
    }
    let ghost start = out@;
    out.push((n % 256) as u8);
    push_le_bytes(out, n / 256, count - 1);
    proof {
        assert(final(out)@ =~= start + le_bytes(n as nat, count as nat)) by {
            assert(le_bytes(n as nat, count as nat) == seq![(n % 256) as u8] + le_bytes(
                (n / 256) as nat,
                (count - 1) as nat,
            ));
        }
    }
}

pub(crate) fn push_bytes(out: &mut Vec<u8>, bytes: &[u8])
    ensures
        final(out)@ == old(out)@ + bytes@,
{
    let mut i: usize = 0;
    let ghost start = out@;
    while i < bytes.len()
        invariant
            i <= bytes@.len(),
            out@ == start + bytes@.take(i as int),
        decreases bytes@.len() - i,
    {
        out.push(bytes[i]);
        proof {
            assert(bytes@.take(i + 1) =~= bytes@.take(i as int).push(bytes@[i as int]));
            assert(out@ =~= start + bytes@.take(i + 1));
        }
        i += 1;
    }
    proof {
        assert(bytes@.take(i as int) =~= bytes@);
    }
}

/// The ASCII bytes of a backend's label.
pub open spec fn backend_label_bytes(backend: PdfRasterBackend) -> Seq<u8> {
    match backend {
        PdfRasterBackend::Poppler => seq![112u8, 111u8, 112u8, 112u8, 108u8, 101u8, 114u8],
        PdfRasterBackend::Mutool => seq![109u8, 117u8, 116u8, 111u8, 111u8, 108u8],
        PdfRasterBackend::Pdfium => seq![112u8, 100u8, 102u8, 105u8, 117u8, 109u8],
    }
}

fn push_backend_label(out: &mut Vec<u8>, backend: PdfRasterBackend)
    ensures
        final(out)@ == old(out)@ + backend_label_bytes(backend),
{
    let bytes: Vec<u8> = match backend {
        PdfRasterBackend::Poppler => vec![112u8, 111u8, 112u8, 112u8, 108u8, 101u8, 114u8],
        PdfRasterBackend::Mutool => vec![109u8, 117u8, 116u8, 111u8, 111u8, 108u8],
        PdfRasterBackend::Pdfium => vec![112u8, 100u8, 102u8, 105u8, 117u8, 109u8],
    };
    proof {
        assert(bytes@ =~= backend_label_bytes(backend));
    }
    push_bytes(out, bytes.as_slice());
}

/// The bytes that identify a rendering of the document: a versioned tag,
/// the backend's label, a zero byte, the path, size, modification time
/// and resolution.
pub open spec fn document_identity_bytes(
    tag: Seq<u8>,
    backend: PdfRasterBackend,
    path_bytes: Seq<u8>,
    size_bytes: u64,
    modified_nanos: u128,
    dpi: u16,
) -> Seq<u8> {
    tag + backend_label_bytes(backend) + seq![0u8] + path_bytes + le_bytes(size_bytes as nat, 8)
        + le_bytes(modified_nanos as nat, 16) + le_bytes(dpi as nat, 2)
}

pub open spec fn page_tag() -> Seq<u8> {
    seq![112u8, 100u8, 102u8, 45u8, 116u8, 117u8, 105u8, 45u8, 112u8, 97u8, 103u8, 101u8, 45u8, 118u8, 54u8]
}

pub open spec fn slice_tag() -> Seq<u8> {
    seq![
        112u8,
        100u8,
        102u8,
        45u8,
        116u8,
        117u8,
        105u8,
        45u8,
        112u8,
        97u8,
        103u8,
        101u8,
        45u8,
        115u8,
        108u8,
        105u8,
        99u8,
        101u8,
        45u8,
        118u8,
        53u8,
    ]
}

fn push_identity(
    out: &mut Vec<u8>,
    tag: &[u8],
    backend: PdfRasterBackend,
    path_bytes: &[u8],
    size_bytes: u64,
    modified_nanos: u128,
    dpi: u16,
)
    ensures
        final(out)@ == old(out)@ + document_identity_bytes(
            tag@,
            backend,
            path_bytes@,
            size_bytes,
            modified_nanos,
            dpi,
        ),
{
    let ghost start = out@;
    push_bytes(out, tag);
    push_backend_label(out, backend);
    out.push(0u8);
    push_bytes(out, path_bytes);
    push_le_bytes(out, size_bytes as u128, 8);
    push_le_bytes(out, modified_nanos, 16);
    push_le_bytes(out, dpi as u128, 2);
    proof {
        assert(out@ =~= start + document_identity_bytes(
            tag@,
            backend,
            path_bytes@,
            size_bytes,
            modified_nanos,
            dpi,
        ));
    }
}

/// The cache key of a whole page rendered at `target_width` x
/// `target_height` pixels.
pub open spec fn page_cache_key_spec(
    backend: PdfRasterBackend,
    path_bytes: Seq<u8>,
    size_bytes: u64,
    modified_nanos: u128,
    dpi: u16,
    target_width: u32,
    target_height: u32,
) -> Seq<char> {
    hex_lower(
        sha256_spec(
            document_identity_bytes(page_tag(), backend, path_bytes, size_bytes, modified_nanos, dpi)
                + le_bytes(target_width as nat, 4) + le_bytes(target_height as nat, 4),
        ),
    )
}

/// The cache key of a whole page (see `page_cache_key_spec`); `path_bytes`
/// is the document path as UTF-8, invalid sequences replaced.
pub fn page_cache_key(
    backend: PdfRasterBackend,
    path_bytes: &[u8],
    size_bytes: u64,
    modified_nanos: u128,
    dpi: u16,
    target_width: u32,
    target_height: u32,
) -> (key: String)
    ensures
        key@ == page_cache_key_spec(
            backend,
            path_bytes@,
            size_bytes,
            modified_nanos,
            dpi,
            target_width,
            target_height,
        ),
{
    let tag: Vec<u8> = vec![112u8, 100u8, 102u8, 45u8, 116u8, 117u8, 105u8, 45u8, 112u8, 97u8, 103u8, 101u8, 45u8, 118u8, 54u8];
    proof {
        assert(tag@ =~= page_tag());
    }
    let mut data: Vec<u8> = Vec::new();
    push_identity(&mut data, tag.as_slice(), backend, path_bytes, size_bytes, modified_nanos, dpi);
    push_le_bytes(&mut data, target_width as u128, 4);
    push_le_bytes(&mut data, target_height as u128, 4);
    proof {
        assert(data@ =~= document_identity_bytes(
            page_tag(),
            backend,
            path_bytes@,
            size_bytes,
            modified_nanos,
            dpi,
        ) + le_bytes(target_width as nat, 4) + le_bytes(target_height as nat, 4));
    }
    hex_encode(&sha256(&data))
}

/// The bytes of a normalized slice spec, field by field.
pub open spec fn slice_spec_bytes(s: PageSliceSpec) -> Seq<u8> {
    let n = normalized_spec(s);
    le_bytes(n.page_index as nat, 8) + le_bytes(n.slice_index as nat, 2) + le_bytes(
        n.slice_count as nat,
        2,
    ) + le_bytes(n.target_width as nat, 4) + le_bytes(n.target_height as nat, 4) + le_bytes(
        n.slice_y as nat,
        4,
    ) + le_bytes(n.slice_height as nat, 4) + le_bytes(n.cell_width as nat, 2) + le_bytes(
        n.cell_height as nat,
        2,
    ) + le_bytes(n.full_cell_width as nat, 2) + le_bytes(n.full_cell_height as nat, 2) + le_bytes(
        n.viewport_width as nat,
        2,
    ) + le_bytes(n.viewport_height as nat, 2) + le_bytes(n.scroll_divisor as nat, 2)
}


fn push_slice_head(out: &mut Vec<u8>, n: &PageSliceSpec)
    ensures
        final(out)@ == old(out)@ + (le_bytes(n.page_index as nat, 8) + le_bytes(n.slice_index as nat, 2) + le_bytes(n.slice_count as nat, 2) + le_bytes(n.target_width as nat, 4) + le_bytes(n.target_height as nat, 4) + le_bytes(n.slice_y as nat, 4) + le_bytes(n.slice_height as nat, 4)),
{
    let ghost s0 = out@;
    push_le_bytes(out, n.page_index as u128, 8);
    push_le_bytes(out, n.slice_index as u128, 2);
    push_le_bytes(out, n.slice_count as u128, 2);
    push_le_bytes(out, n.target_width as u128, 4);
    push_le_bytes(out, n.target_height as u128, 4);
    push_le_bytes(out, n.slice_y as u128, 4);
    push_le_bytes(out, n.slice_height as u128, 4);
    proof { assert(out@ =~= s0 + (le_bytes(n.page_index as nat, 8) + le_bytes(n.slice_index as nat, 2) + le_bytes(n.slice_count as nat, 2) + le_bytes(n.target_width as nat, 4) + le_bytes(n.target_height as nat, 4) + le_bytes(n.slice_y as nat, 4) + le_bytes(n.slice_height as nat, 4))); }
}

fn push_slice_tail(out: &mut Vec<u8>, n: &PageSliceSpec)
    ensures
        final(out)@ == old(out)@ + (le_bytes(n.cell_width as nat, 2) + le_bytes(n.cell_height as nat, 2) + le_bytes(n.full_cell_width as nat, 2) + le_bytes(n.full_cell_height as nat, 2) + le_bytes(n.viewport_width as nat, 2) + le_bytes(n.viewport_height as nat, 2) + le_bytes(n.scroll_divisor as nat, 2)),
{
    let ghost s0 = out@;
    push_le_bytes(out, n.cell_width as u128, 2);
    push_le_bytes(out, n.cell_height as u128, 2);
    push_le_bytes(out, n.full_cell_width as u128, 2);
    push_le_bytes(out, n.full_cell_height as u128, 2);
    push_le_bytes(out, n.viewport_width as u128, 2);
    push_le_bytes(out, n.viewport_height as u128, 2);
    push_le_bytes(out, n.scroll_divisor as u128, 2);
    proof { assert(out@ =~= s0 + (le_bytes(n.cell_width as nat, 2) + le_bytes(n.cell_height as nat, 2) + le_bytes(n.full_cell_width as nat, 2) + le_bytes(n.full_cell_height as nat, 2) + le_bytes(n.viewport_width as nat, 2) + le_bytes(n.viewport_height as nat, 2) + le_bytes(n.scroll_divisor as nat, 2))); }
}

fn push_slice_spec(out: &mut Vec<u8>, spec: PageSliceSpec)
    ensures
        final(out)@ == old(out)@ + slice_spec_bytes(spec),
{
    let n = spec.normalized();
    let ghost s0 = out@;
    push_slice_head(out, &n);
    let ghost s1 = out@;
    push_slice_tail(out, &n);
    proof {
        assert(out@ =~= s0 + slice_spec_bytes(spec));
    }
}

/// The cache key of a page slice.
pub open spec fn slice_cache_key_spec(
    backend: PdfRasterBackend,
    path_bytes: Seq<u8>,
    size_bytes: u64,
    modified_nanos: u128,
    dpi: u16,
    spec: PageSliceSpec,
) -> Seq<char> {
    hex_lower(
        sha256_spec(
            document_identity_bytes(slice_tag(), backend, path_bytes, size_bytes, modified_nanos, dpi)
                + slice_spec_bytes(spec),
        ),
    )
}

/// The cache key of a page slice (see `slice_cache_key_spec`).
pub fn slice_cache_key(
    backend: PdfRasterBackend,
    path_bytes: &[u8],
    size_bytes: u64,
    modified_nanos: u128,
    dpi: u16,
    spec: PageSliceSpec,
) -> (key: String)
    ensures
        key@ == slice_cache_key_spec(backend, path_bytes@, size_bytes, modified_nanos, dpi, spec),
{
    let tag: Vec<u8> = vec![
        112u8,
        100u8,
        102u8,
        45u8,
        116u8,
        117u8,
        105u8,
        45u8,
        112u8,
        97u8,
        103u8,
        101u8,
        45u8,
        115u8,
        108u8,
        105u8,
        99u8,
        101u8,
        45u8,
        118u8,
        53u8,
    ];
    proof {
        assert(tag@ =~= slice_tag());
    }
    let mut data: Vec<u8> = Vec::new();
    push_identity(&mut data, tag.as_slice(), backend, path_bytes, size_bytes, modified_nanos, dpi);
    let ghost head = data@;
    push_slice_spec(&mut data, spec);
    hex_encode(&sha256(&data))
}


impl PdfDocument {
    /// The cache key of a whole page of this document rendered at
    /// `target_width` x `target_height` pixels.
    pub fn cache_key(&self, target_width: u32, target_height: u32) -> (key: String)
        ensures
            key@ == page_cache_key_spec(
                    self.raster_backend,
                    self.path_bytes@,
                    self.size_bytes,
                    self.modified_nanos,
                    self.dpi,
                    target_width,
                    target_height,
                ),
    {
        page_cache_key(
            self.raster_backend,
            self.path_bytes.as_slice(),
            self.size_bytes,
            self.modified_nanos,
            self.dpi,
            target_width,
            target_height,
        )
    }

    /// The cache key of a page slice of this document.
    pub fn slice_cache_key(&self, spec: PageSliceSpec) -> (key: String)
        ensures
            key@ == slice_cache_key_spec(
                    self.raster_backend,
                    self.path_bytes@,
                    self.size_bytes,
                    self.modified_nanos,
                    self.dpi,
                    spec,
                ),
    {
        slice_cache_key(
            self.raster_backend,
            self.path_bytes.as_slice(),
            self.size_bytes,
            self.modified_nanos,
            self.dpi,
            spec,
        )
    }
}

} // verus!
