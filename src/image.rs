use vstd::prelude::*;

verus! {

/// A packed RGBA8 image: four bytes per pixel, rows top to bottom, no padding.
#[derive(Debug)]
pub struct Image {
    pub width: u32,
    pub height: u32,
    pub data: Vec<u8>,
}

/// The byte count of a packed image fits easily in a `u128`.
pub proof fn lemma_area_fits(width: u32, height: u32)
    ensures
        4 * width * height <= 4 * (u32::MAX as int) * (u32::MAX as int),
{
    assert(4 * width * height <= 4 * (u32::MAX as int) * (u32::MAX as int)) by (nonlinear_arith)
        requires
            width <= u32::MAX,
            height <= u32::MAX,
    ;
}

impl Image {
    pub open spec fn wf(&self) -> bool {
        self.data@.len() == 4 * self.width * self.height
    }

    /// Frames `data` as a `width` by `height` image, if it has exactly
    /// `width * height * 4` bytes.
    pub fn from_packed(width: u32, height: u32, data: Vec<u8>) -> (r: Option<Image>)
        ensures
            r is Some <==> data@.len() == 4 * width * height,
            r matches Some(img) ==> img.wf() && img.width == width && img.height == height
                && img.data@ == data@,
    {
        proof {
            lemma_area_fits(width, height);
        }
        if (data.len() as u128) == 4 * (width as u128) * (height as u128) {
            Some(Image { width, height, data })
        } else {
            None
        }
    }

    /// A `width` by `height` canvas of fully transparent black pixels (all bytes
    /// zero), if its bytes can be counted in a `usize`.
    pub fn blank(width: u32, height: u32) -> (r: Option<Image>)
        ensures
            r is Some <==> 4 * width * height <= usize::MAX,
            r matches Some(img) ==> img.wf() && img.width == width && img.height == height
                && img.data@ == Seq::new((4 * width * height) as nat, |i: int| 0u8),
    {
        proof {
            lemma_area_fits(width, height);
        }
        let total: u128 = 4 * (width as u128) * (height as u128);
        if total > usize::MAX as u128 {
            return None;
        }
        let n = total as usize;
        let mut data: Vec<u8> = Vec::new();
        let mut i: usize = 0;
        while i < n
            invariant
                i <= n,
                data@ == Seq::new(i as nat, |j: int| 0u8),
            decreases n - i,
        {
            data.push(0u8);
            i = i + 1;
            assert(data@ =~= Seq::new(i as nat, |j: int| 0u8));
        }
        assert(data@ =~= Seq::new((4 * width * height) as nat, |j: int| 0u8));
        Some(Image { width, height, data })
    }

    /// Consumes the image and hands back its packed bytes.
    pub fn into_raw(self) -> (r: Vec<u8>)
        ensures
            r@ == self.data@,
    {
        self.data
    }
}

} // verus!
