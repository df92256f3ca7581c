use vstd::prelude::*;
use crate::error::EngineError;
use crate::image::Image;

verus! {

/// Pixels per padded row are a multiple of this, so that a row of RGBA8 pixels
/// in a texture-to-buffer copy is a multiple of 256 bytes.
pub const ROW_ALIGN_PIXELS: u64 = 64;

/// The smallest multiple of 64 that is at least `w`.
pub open spec fn padded_width_spec(w: nat) -> nat {
    64 * ((w + 63) / 64)
}

/// Width in pixels of one row of the staging buffer: `64 * ceil(w / 64)`.
pub fn padded_width(w: u32) -> (r: u64)
    ensures
        r == padded_width_spec(w as nat),
        r >= w,
        r % 64 == 0,
        r < w + 64,
{
    ROW_ALIGN_PIXELS * ((w as u64 + 63) / ROW_ALIGN_PIXELS)
}

/// The tightly packed bytes of the first `rows` rows of `staging`, where row `i`
/// starts at byte `i * pitch` and its pixels fill the first `row_len` bytes.
pub open spec fn depadded(staging: Seq<u8>, row_len: nat, pitch: nat, rows: nat) -> Seq<u8>
    decreases rows,
{
    if rows == 0 {
        Seq::empty()
    } else {
        let start = (rows - 1) * pitch;
        depadded(staging, row_len, pitch, (rows - 1) as nat) + staging.subrange(
            start as int,
            start + row_len,
        )
    }
}

/// `staging` holds, at the start of each of `rows` rows spaced `pitch` bytes
/// apart, the matching `row_len`-byte row of the packed image `packed`: what a
/// texture-to-buffer copy with that row pitch leaves behind.
pub open spec fn holds_padded_copy(
    staging: Seq<u8>,
    packed: Seq<u8>,
    row_len: nat,
    pitch: nat,
    rows: nat,
) -> bool {
    &&& rows * pitch <= staging.len()
    &&& forall|r: int, c: int|
        0 <= r < rows && 0 <= c < row_len ==> #[trigger] staging[r * pitch + c] == packed[r * row_len + c]
}

/// `a` and `b` hold the same bytes at every pixel position of `rows` rows
/// spaced `pitch` bytes apart; they may differ in the padding after each row.
pub open spec fn same_pixels(a: Seq<u8>, b: Seq<u8>, row_len: nat, pitch: nat, rows: nat) -> bool {
    &&& rows * pitch <= a.len()
    &&& rows * pitch <= b.len()
    &&& forall|r: int, c: int| 0 <= r < rows && 0 <= c < row_len ==> #[trigger] a[r * pitch + c] == b[r * pitch + c]
}

proof fn lemma_row_fits(row: nat, rows: nat, pitch: nat)
    requires
        row < rows,
    ensures
        row * pitch + pitch <= rows * pitch,
{
    assert(row * pitch + pitch <= rows * pitch) by (nonlinear_arith)
        requires
            row < rows,
    ;
}

proof fn lemma_depadded_len(staging: Seq<u8>, row_len: nat, pitch: nat, rows: nat)
    requires
        row_len <= pitch,
        rows * pitch <= staging.len(),
    ensures
        depadded(staging, row_len, pitch, rows).len() == rows * row_len,
    decreases rows,
{
    if rows > 0 {
        let prev = (rows - 1) as nat;
        lemma_row_fits(prev, rows, pitch);
        assert(prev * pitch + row_len <= staging.len());
        lemma_depadded_len(staging, row_len, pitch, prev);
        let start = (rows - 1) * pitch;
        assert(start == prev * pitch);
        assert(staging.subrange(start as int, start + row_len).len() == row_len);
        assert(prev * row_len + row_len == rows * row_len) by (nonlinear_arith)
            requires
                prev + 1 == rows,
        ;
        assert(depadded(staging, row_len, pitch, rows) == depadded(staging, row_len, pitch, prev)
            + staging.subrange(start as int, start + row_len));
    } else {
        assert(rows * row_len == 0) by (nonlinear_arith)
            requires
                rows == 0,
        ;
    }
}

proof fn lemma_depadded_index(staging: Seq<u8>, row_len: nat, pitch: nat, rows: nat, r: int, c: int)
    requires
        row_len <= pitch,
        rows * pitch <= staging.len(),
        0 <= r < rows,
        0 <= c < row_len,
    ensures
        r * row_len + c < depadded(staging, row_len, pitch, rows).len(),
        depadded(staging, row_len, pitch, rows)[r * row_len + c] == staging[r * pitch + c],
    decreases rows,
{
    let prev = (rows - 1) as nat;
    lemma_row_fits(prev, rows, pitch);
    lemma_depadded_len(staging, row_len, pitch, rows);
    lemma_depadded_len(staging, row_len, pitch, prev);
    assert(r * row_len + c < rows * row_len) by (nonlinear_arith)
        requires
            0 <= r < rows,
            0 <= c < row_len,
    ;
    if r < prev {
        lemma_depadded_index(staging, row_len, pitch, prev, r, c);
        assert(r * row_len + c < prev * row_len) by (nonlinear_arith)
            requires
                0 <= r < prev,
                0 <= c < row_len,
        ;
    } else {
        assert(r == prev);
    }
}

proof fn lemma_depad_restores_packed(
    staging: Seq<u8>,
    packed: Seq<u8>,
    row_len: nat,
    pitch: nat,
    rows: nat,
)
    requires
        row_len <= pitch,
        packed.len() == rows * row_len,
        holds_padded_copy(staging, packed, row_len, pitch, rows),
    ensures
        depadded(staging, row_len, pitch, rows) == packed,
{
    let d = depadded(staging, row_len, pitch, rows);
    lemma_depadded_len(staging, row_len, pitch, rows);
    assert forall|i: int| 0 <= i < packed.len() implies d[i] == packed[i] by {
        let r = i / row_len as int;
        let c = i % row_len as int;
        assert(row_len > 0) by (nonlinear_arith)
            requires
                0 <= i < rows * row_len,
        ;
        assert(i == r * row_len + c && 0 <= r < rows && 0 <= c < row_len) by (nonlinear_arith)
            requires
                r == i / row_len as int,
                c == i % row_len as int,
                row_len > 0,
                0 <= i < rows * row_len,
        ;
        lemma_depadded_index(staging, row_len, pitch, rows, r, c);
        assert(staging[r * pitch + c] == packed[r * row_len + c]);
    }
    assert(d =~= packed);
}

proof fn lemma_depad_ignores_padding(a: Seq<u8>, b: Seq<u8>, row_len: nat, pitch: nat, rows: nat)
    requires
        row_len <= pitch,
        same_pixels(a, b, row_len, pitch, rows),
    ensures
        depadded(a, row_len, pitch, rows).len() == rows * row_len,
        depadded(a, row_len, pitch, rows) == depadded(b, row_len, pitch, rows),
{
    let da = depadded(a, row_len, pitch, rows);
    let db = depadded(b, row_len, pitch, rows);
    lemma_depadded_len(a, row_len, pitch, rows);
    lemma_depadded_len(b, row_len, pitch, rows);
    assert forall|i: int| 0 <= i < da.len() implies da[i] == db[i] by {
        let r = i / row_len as int;
        let c = i % row_len as int;
        assert(row_len > 0) by (nonlinear_arith)
            requires
                0 <= i < rows * row_len,
        ;
        assert(i == r * row_len + c && 0 <= r < rows && 0 <= c < row_len) by (nonlinear_arith)
            requires
                r == i / row_len as int,
                c == i % row_len as int,
                row_len > 0,
                0 <= i < rows * row_len,
        ;
        lemma_depadded_index(a, row_len, pitch, rows, r, c);
        lemma_depadded_index(b, row_len, pitch, rows, r, c);
        assert(a[r * pitch + c] == b[r * pitch + c]);
    }
    assert(da =~= db);
}

/// Copies the first `row_len` bytes of each of `rows` rows, spaced `pitch` bytes
/// apart in `staging`, into one tightly packed buffer.
pub fn depad_rows(staging: &[u8], row_len: usize, pitch: usize, rows: usize) -> (out: Vec<u8>)
    requires
        row_len <= pitch,
        rows * pitch <= staging@.len(),
    ensures
        out@ == depadded(staging@, row_len as nat, pitch as nat, rows as nat),
        out@.len() == rows * row_len,
{
    let total: usize = staging.len();
    let mut out: Vec<u8> = Vec::new();
    let mut row: usize = 0;
    while row < rows
        invariant
            total == staging@.len(),
            row <= rows,
            row_len <= pitch,
            rows * pitch <= staging@.len(),
            out@ == depadded(staging@, row_len as nat, pitch as nat, row as nat),
        decreases rows - row,
    {
        proof {
            lemma_row_fits(row as nat, rows as nat, pitch as nat);
            assert(row * pitch + pitch <= total);
        }
        let start: usize = row * pitch;
        let ghost done = out@;
        let mut c: usize = 0;
        while c < row_len
            invariant
                c <= row_len,
                row < rows,
                row_len <= pitch,
                start == row * pitch,
                start + row_len <= total,
                total == staging@.len(),
                rows * pitch <= staging@.len(),
                done == depadded(staging@, row_len as nat, pitch as nat, row as nat),
                out@ == done + staging@.subrange(start as int, start + c),
            decreases row_len - c,
        {
            out.push(staging[start + c]);
            c = c + 1;
            assert(out@ =~= done + staging@.subrange(start as int, start + c));
        }
        row = row + 1;
    }
    proof {
        lemma_depadded_len(staging@, row_len as nat, pitch as nat, rows as nat);
    }
    out
}

/// The shape of one run: the image size and the row pitch of the staging
/// buffer that the rendered image is copied into.
pub struct FrameLayout {
    pub width: u32,
    pub height: u32,
    pub padded_width: u32,
}

impl FrameLayout {
    pub open spec fn wf(&self) -> bool {
        &&& self.width >= 1
        &&& self.height >= 1
        &&& self.padded_width == padded_width_spec(self.width as nat)
        &&& 4 * self.padded_width <= u32::MAX
    }

    /// Bytes of one packed row.
    pub open spec fn row_len(&self) -> nat {
        (4 * self.width) as nat
    }

    /// Bytes between the starts of two rows in the staging buffer.
    pub open spec fn pitch(&self) -> nat {
        (4 * self.padded_width) as nat
    }

    /// Bytes of the staging buffer.
    pub open spec fn staging_len(&self) -> nat {
        (4 * self.padded_width * self.height) as nat
    }

    /// Checks an input of `width` by `height` pixels whose packed RGBA8 bytes
    /// number `input_len`, and fixes the staging buffer's row pitch for it.
    pub fn new(width: u32, height: u32, input_len: usize) -> (r: Result<FrameLayout, EngineError>)
        ensures
            (width == 0 || height == 0) <==> r == Err::<FrameLayout, EngineError>(
                EngineError::EmptyImage,
            ),
            (width >= 1 && height >= 1 && 4 * padded_width_spec(width as nat) > u32::MAX) <==> r
                == Err::<FrameLayout, EngineError>(EngineError::TooLarge),
            (width >= 1 && height >= 1 && 4 * padded_width_spec(width as nat) <= u32::MAX
                && input_len != 4 * width * height) <==> r == Err::<FrameLayout, EngineError>(
                EngineError::InputSizeMismatch,
            ),
            r is Ok <==> (width >= 1 && height >= 1 && 4 * padded_width_spec(width as nat)
                <= u32::MAX && input_len == 4 * width * height),
            r matches Ok(l) ==> l.wf() && l.width == width && l.height == height,
    {
        if width == 0 || height == 0 {
            return Err(EngineError::EmptyImage);
        }
        let pw = padded_width(width);
        if pw > 0x3fff_ffff {
            return Err(EngineError::TooLarge);
        }
        proof {
            crate::image::lemma_area_fits(width, height);
        }
        if (input_len as u128) != 4 * (width as u128) * (height as u128) {
            return Err(EngineError::InputSizeMismatch);
        }
        Ok(FrameLayout { width, height, padded_width: pw as u32 })
    }

    /// Bytes per row of the packed input, the pitch of the upload to the texture.
    pub fn row_bytes(&self) -> (r: u32)
        requires
            self.wf(),
        ensures
            r == self.row_len(),
    {
        4 * self.width
    }

    /// Bytes per row in the staging buffer, a multiple of 256.
    pub fn padded_row_bytes(&self) -> (r: u32)
        requires
            self.wf(),
        ensures
            r == self.pitch(),
            r % 256 == 0,
    {
        4 * self.padded_width
    }

    /// Size in bytes of the staging buffer: `4 * padded_width * height`.
    pub fn staging_size(&self) -> (r: u64)
        requires
            self.wf(),
        ensures
            r == self.staging_len(),
    {
        proof {
            assert(4 * self.padded_width * self.height <= u32::MAX * u32::MAX) by (nonlinear_arith)
                requires
                    4 * self.padded_width <= u32::MAX,
                    self.height <= u32::MAX,
            ;
        }
        4 * (self.padded_width as u64) * (self.height as u64)
    }

    /// Where the staging buffer holds what a texture-to-buffer copy of the packed
    /// image `packed` leaves there, with this layout's row pitch, depadding it
    /// gives back exactly `packed`: the readback loses and adds nothing, so the
    /// output has the input's width, height and bytes.
    pub proof fn lemma_readback_round_trip(self, packed: Seq<u8>, staging: Seq<u8>)
        requires
            self.wf(),
            packed.len() == 4 * self.width * self.height,
            holds_padded_copy(staging, packed, self.row_len(), self.pitch(), self.height as nat),
        ensures
            staging.len() >= self.staging_len(),
            depadded(staging, self.row_len(), self.pitch(), self.height as nat) == packed,
    {
        self.lemma_pitch_bounds();
        lemma_depad_restores_packed(staging, packed, self.row_len(), self.pitch(), self.height as nat);
    }

    /// The readback has exactly `width * height * 4` bytes and none of them comes
    /// from the padding at the end of each staging row: two staging buffers that
    /// agree on every pixel position give the same bytes.
    pub proof fn lemma_readback_ignores_padding(self, a: Seq<u8>, b: Seq<u8>)
        requires
            self.wf(),
            same_pixels(a, b, self.row_len(), self.pitch(), self.height as nat),
        ensures
            depadded(a, self.row_len(), self.pitch(), self.height as nat).len() == 4 * self.width
                * self.height,
            depadded(a, self.row_len(), self.pitch(), self.height as nat) == depadded(
                b,
                self.row_len(),
                self.pitch(),
                self.height as nat,
            ),
    {
        self.lemma_pitch_bounds();
        lemma_depad_ignores_padding(a, b, self.row_len(), self.pitch(), self.height as nat);
    }

    proof fn lemma_pitch_bounds(self)
        requires
            self.wf(),
        ensures
            self.row_len() <= self.pitch(),
            self.height * self.pitch() == self.staging_len(),
            self.height * self.row_len() == 4 * self.width * self.height,
    {
        assert(self.height * self.pitch() == self.staging_len()) by (nonlinear_arith)
            requires
                self.pitch() == 4 * self.padded_width,
                self.staging_len() == 4 * self.padded_width * self.height,
        ;
        assert(self.height * self.row_len() == 4 * self.width * self.height) by (nonlinear_arith)
            requires
                self.row_len() == 4 * self.width,
        ;
    }

    /// Turns the mapped staging buffer into the packed output image: each row's
    /// `4 * width` pixel bytes are kept and its padding dropped. A buffer shorter
    /// than the staging size is an internal inconsistency.
    pub fn readback(&self, mapped: &[u8]) -> (r: Result<Image, EngineError>)
        requires
            self.wf(),
        ensures
            r is Ok <==> mapped@.len() >= self.staging_len(),
            r is Err ==> r == Err::<Image, EngineError>(EngineError::InternalConsistency),
            r matches Ok(img) ==> {
                &&& img.wf()
                &&& img.width == self.width
                &&& img.height == self.height
                &&& img.data@ == depadded(mapped@, self.row_len(), self.pitch(), self.height as nat)
            },
    {
        let size = self.staging_size();
        if (mapped.len() as u64) < size {
            return Err(EngineError::InternalConsistency);
        }
        let row_len = 4 * (self.width as usize);
        let pitch = 4 * (self.padded_width as usize);
        let rows = self.height as usize;
        proof {
            assert(rows * pitch == 4 * self.padded_width * self.height) by (nonlinear_arith)
                requires
                    rows == self.height,
                    pitch == 4 * self.padded_width,
            ;
            assert(rows * row_len == 4 * self.width * self.height) by (nonlinear_arith)
                requires
                    rows == self.height,
                    row_len == 4 * self.width,
            ;
        }
        let data = depad_rows(mapped, row_len, pitch, rows);
        match Image::from_packed(self.width, self.height, data) {
            Some(img) => Ok(img),
            None => Err(EngineError::InternalConsistency),
        }
    }
}

} // verus!
