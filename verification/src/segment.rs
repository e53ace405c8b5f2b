//! The feature segmenter: turns one decoded frame's derived pixel planes
//! into a binary text-probability mask.
//!
//! The crate owns the decision logic: luminance thresholding, hue
//! selection, the region-of-interest bounds, and the combination of the
//! derived masks into the final text mask.  The image morphology that
//! produces the derived planes (grayscale conversion, edge filtering,
//! dilation, adaptive binarization) and the color-space conversion are
//! outside capabilities: they hand this module plain planes of bytes.

use vstd::arithmetic::div_mod::lemma_fundamental_div_mod_converse;
use vstd::prelude::*;

verus! {

/// A row-major plane of one byte per pixel, with explicit dimensions.
pub struct Plane {
    pub width: usize,
    pub height: usize,
    pub data: Vec<u8>,
}

impl Plane {
    /// The backing vector covers exactly the stated dimensions.
    pub open spec fn wf(self) -> bool {
        self.data@.len() == self.width * self.height
    }

    /// Pixel at row `r`, column `c`.
    pub open spec fn at(self, r: int, c: int) -> u8 {
        self.data@[r * self.width + c]
    }

    /// Two planes cover the same geometry.
    pub open spec fn same_dims(self, o: Plane) -> bool {
        self.width == o.width && self.height == o.height
    }

    /// Wraps a row-major byte vector as a plane.
    pub fn from_data(width: usize, height: usize, data: Vec<u8>) -> (p: Plane)
        requires
            data@.len() == width * height,
        ensures
            p.wf(),
            p.width == width,
            p.height == height,
            p.data@ == data@,
    {
        Plane { width, height, data }
    }

    /// Reads the pixel at row `r`, column `c`.
    pub fn get(&self, r: usize, c: usize) -> (v: u8)
        requires
            self.wf(),
            r < self.height,
            c < self.width,
        ensures
            v == self.at(r as int, c as int),
    {
        let n = self.data.len();
        proof {
            assert((r as int) * (self.width as int) + (c as int) < (self.width as int) * (
            self.height as int)) by (nonlinear_arith)
                requires
                    (r as int) < (self.height as int),
                    (c as int) < (self.width as int),
            ;
            assert((r as int) * (self.width as int) + (c as int) < n);
        }
        self.data[r * self.width + c]
    }
}

/// A plane of hue angles, one value in degrees per pixel.
pub struct HuePlane {
    pub width: usize,
    pub height: usize,
    pub data: Vec<u16>,
}

impl HuePlane {
    /// The backing vector covers exactly the stated dimensions.
    pub open spec fn wf(self) -> bool {
        self.data@.len() == self.width * self.height
    }

    /// Hue at row `r`, column `c`.
    pub open spec fn at(self, r: int, c: int) -> u16 {
        self.data@[r * self.width + c]
    }

    /// Wraps a row-major hue vector as a plane.
    pub fn from_data(width: usize, height: usize, data: Vec<u16>) -> (p: HuePlane)
        requires
            data@.len() == width * height,
        ensures
            p.wf(),
            p.width == width,
            p.height == height,
            p.data@ == data@,
    {
        HuePlane { width, height, data }
    }

    /// Reads the hue at row `r`, column `c`.
    pub fn get(&self, r: usize, c: usize) -> (v: u16)
        requires
            self.wf(),
            r < self.height,
            c < self.width,
        ensures
            v == self.at(r as int, c as int),
    {
        let n = self.data.len();
        proof {
            assert((r as int) * (self.width as int) + (c as int) < (self.width as int) * (
            self.height as int)) by (nonlinear_arith)
                requires
                    (r as int) < (self.height as int),
                    (c as int) < (self.width as int),
            ;
            assert((r as int) * (self.width as int) + (c as int) < n);
        }
        self.data[r * self.width + c]
    }
}

/// Every pixel of the plane is either fully off or fully on.
pub open spec fn is_binary(s: Seq<u8>) -> bool {
    forall|k: int| 0 <= k < s.len() ==> s[k] == 0 || s[k] == 255
}

/// First row of the region of interest for ordinary subtitles: the lower
/// quarter of the frame.
pub fn roi_lower_quarter(height: usize) -> (top: usize)
    ensures
        top == 3 * (height as int) / 4,
        top <= height,
{
    let wide: u128 = (height as u128) * 3 / 4;
    wide as usize
}

/// First row of the region of interest for ticker text: the lower band of
/// the frame, roughly its lowest twelfth.
pub fn roi_ticker_band(height: usize) -> (top: usize)
    ensures
        top == 92 * (height as int) / 100,
        top <= height,
{
    let wide: u128 = (height as u128) * 92 / 100;
    wide as usize
}

/// The luminance mask: inside the region of interest a pixel is on
/// exactly when its luminance exceeds the threshold; above the region
/// everything is off.
pub open spec fn spec_luminance_mask(lum: Seq<u8>, w: int, thresh: u8, roi_top: int) -> Seq<u8> {
    Seq::new(
        lum.len(),
        |k: int|
            if k / w >= roi_top && lum[k] > thresh {
                255u8
            } else {
                0u8
            },
    )
}

/// Builds the luminance mask of a frame's luminance plane.
pub fn luminance_mask(lum: &Plane, thresh: u8, roi_top: usize) -> (mask: Plane)
    requires
        lum.wf(),
        lum.width > 0,
    ensures
        mask.wf(),
        mask.same_dims(*lum),
        mask.data@ == spec_luminance_mask(lum.data@, lum.width as int, thresh, roi_top as int),
        is_binary(mask.data@),
{
    let w = lum.width;
    let h = lum.height;
    let ghost target = spec_luminance_mask(lum.data@, w as int, thresh, roi_top as int);
    let mut data: Vec<u8> = Vec::new();
    let mut r: usize = 0;
    while r < h
        invariant
            r <= h,
            w == lum.width,
            h == lum.height,
            lum.wf(),
            w > 0,
            target == spec_luminance_mask(lum.data@, w as int, thresh, roi_top as int),
            data@.len() == r * w,
            forall|k: int| 0 <= k < r * w ==> data@[k] == target[k],
        decreases h - r,
    {
        let mut c: usize = 0;
        while c < w
            invariant
                c <= w,
                r < h,
                w == lum.width,
                h == lum.height,
                lum.wf(),
                w > 0,
                target == spec_luminance_mask(lum.data@, w as int, thresh, roi_top as int),
                data@.len() == r * w + c,
                forall|k: int| 0 <= k < r * w + c ==> data@[k] == target[k],
            decreases w - c,
        {
            let v = lum.get(r, c);
            let px: u8 = if r >= roi_top && v > thresh {
                255
            } else {
                0
            };
            proof {
                assert((r as int) * (w as int) + (c as int) < (w as int) * (lum.height as int))
                    by (nonlinear_arith)
                    requires
                        (r as int) < (lum.height as int),
                        (c as int) < (w as int),
                ;
                lemma_fundamental_div_mod_converse(
                    (r as int) * (w as int) + (c as int),
                    w as int,
                    r as int,
                    c as int,
                );
                assert(target[(r as int) * (w as int) + (c as int)] == px);
            }
            data.push(px);
            c += 1;
        }
        proof {
            assert((r + 1) * (w as int) == r * (w as int) + w) by (nonlinear_arith);
        }
        r += 1;
    }
    proof {
        assert((h as int) * (w as int) == (w as int) * (h as int)) by (nonlinear_arith);
        assert(data@ =~= target);
    }
    Plane { width: w, height: h, data }
}

/// The final text mask for bright subtitles: inside the region of
/// interest a pixel is on exactly where the edge mask is absent (a flat
/// region) and the luminance exceeds the threshold — bright, non-edgy
/// blobs consistent with anti-aliased glyph interiors.
pub open spec fn spec_segment_bright(
    lum: Seq<u8>,
    edge: Seq<u8>,
    w: int,
    thresh: u8,
    roi_top: int,
) -> Seq<u8> {
    Seq::new(
        lum.len(),
        |k: int|
            if k / w >= roi_top && edge[k] == 0 && lum[k] > thresh {
                255u8
            } else {
                0u8
            },
    )
}

/// Combines a frame's luminance plane with its (externally derived,
/// dilated and binarized) vertical-edge mask into the text mask for
/// bright subtitles.
pub fn segment_bright(lum: &Plane, edge: &Plane, thresh: u8, roi_top: usize) -> (mask: Plane)
    requires
        lum.wf(),
        edge.wf(),
        lum.same_dims(*edge),
        lum.width > 0,
    ensures
        mask.wf(),
        mask.same_dims(*lum),
        mask.data@ == spec_segment_bright(
            lum.data@,
            edge.data@,
            lum.width as int,
            thresh,
            roi_top as int,
        ),
        is_binary(mask.data@),
{
    let w = lum.width;
    let h = lum.height;
    let ghost target = spec_segment_bright(
        lum.data@,
        edge.data@,
        w as int,
        thresh,
        roi_top as int,
    );
    let mut data: Vec<u8> = Vec::new();
    let mut r: usize = 0;
    while r < h
        invariant
            r <= h,
            w == lum.width,
            h == lum.height,
            lum.wf(),
            edge.wf(),
            lum.same_dims(*edge),
            w > 0,
            target == spec_segment_bright(
                lum.data@,
                edge.data@,
                w as int,
                thresh,
                roi_top as int,
            ),
            data@.len() == r * w,
            forall|k: int| 0 <= k < r * w ==> data@[k] == target[k],
        decreases h - r,
    {
        let mut c: usize = 0;
        while c < w
            invariant
                c <= w,
                r < h,
                w == lum.width,
                h == lum.height,
                lum.wf(),
                edge.wf(),
                lum.same_dims(*edge),
                w > 0,
                target == spec_segment_bright(
                    lum.data@,
                    edge.data@,
                    w as int,
                    thresh,
                    roi_top as int,
                ),
                data@.len() == r * w + c,
                forall|k: int| 0 <= k < r * w + c ==> data@[k] == target[k],
            decreases w - c,
        {
            let lv = lum.get(r, c);
            let ev = edge.get(r, c);
            let px: u8 = if r >= roi_top && ev == 0 && lv > thresh {
                255
            } else {
                0
            };
            proof {
                assert((r as int) * (w as int) + (c as int) < (w as int) * (lum.height as int))
                    by (nonlinear_arith)
                    requires
                        (r as int) < (lum.height as int),
                        (c as int) < (w as int),
                ;
                lemma_fundamental_div_mod_converse(
                    (r as int) * (w as int) + (c as int),
                    w as int,
                    r as int,
                    c as int,
                );
                assert(target[(r as int) * (w as int) + (c as int)] == px);
            }
            data.push(px);
            c += 1;
        }
        proof {
            assert((r + 1) * (w as int) == r * (w as int) + w) by (nonlinear_arith);
        }
        r += 1;
    }
    proof {
        assert((h as int) * (w as int) == (w as int) * (h as int)) by (nonlinear_arith);
        assert(data@ =~= target);
    }
    Plane { width: w, height: h, data }
}

/// The final text mask for colored subtitles: inside the region of
/// interest a pixel is on exactly where the edge mask is absent, the
/// adaptive local binarization of the hue-filtered grayscale image is
/// absent, and the heavily dilated hue mask is present — saturated-color
/// text strokes distinct from the edge-dense background.
pub open spec fn spec_segment_color(
    edge: Seq<u8>,
    binarized: Seq<u8>,
    hue_dilated: Seq<u8>,
    w: int,
    roi_top: int,
) -> Seq<u8> {
    Seq::new(
        edge.len(),
        |k: int|
            if k / w >= roi_top && edge[k] == 0 && binarized[k] == 0 && hue_dilated[k] > 0 {
                255u8
            } else {
                0u8
            },
    )
}

/// Combines the three externally derived planes of the color pipeline
/// into the final text mask.
pub fn segment_color(edge: &Plane, binarized: &Plane, hue_dilated: &Plane, roi_top: usize) -> (mask:
    Plane)
    requires
        edge.wf(),
        binarized.wf(),
        hue_dilated.wf(),
        edge.same_dims(*binarized),
        edge.same_dims(*hue_dilated),
        edge.width > 0,
    ensures
        mask.wf(),
        mask.same_dims(*edge),
        mask.data@ == spec_segment_color(
            edge.data@,
            binarized.data@,
            hue_dilated.data@,
            edge.width as int,
            roi_top as int,
        ),
        is_binary(mask.data@),
{
    let w = edge.width;
    let h = edge.height;
    let ghost target = spec_segment_color(
        edge.data@,
        binarized.data@,
        hue_dilated.data@,
        w as int,
        roi_top as int,
    );
    let mut data: Vec<u8> = Vec::new();
    let mut r: usize = 0;
    while r < h
        invariant
            r <= h,
            w == edge.width,
            h == edge.height,
            edge.wf(),
            binarized.wf(),
            hue_dilated.wf(),
            edge.same_dims(*binarized),
            edge.same_dims(*hue_dilated),
            w > 0,
            target == spec_segment_color(
                edge.data@,
                binarized.data@,
                hue_dilated.data@,
                w as int,
                roi_top as int,
            ),
            data@.len() == r * w,
            forall|k: int| 0 <= k < r * w ==> data@[k] == target[k],
        decreases h - r,
    {
        let mut c: usize = 0;
        while c < w
            invariant
                c <= w,
                r < h,
                w == edge.width,
                h == edge.height,
                edge.wf(),
                binarized.wf(),
                hue_dilated.wf(),
                edge.same_dims(*binarized),
                edge.same_dims(*hue_dilated),
                w > 0,
                target == spec_segment_color(
                    edge.data@,
                    binarized.data@,
                    hue_dilated.data@,
                    w as int,
                    roi_top as int,
                ),
                data@.len() == r * w + c,
                forall|k: int| 0 <= k < r * w + c ==> data@[k] == target[k],
            decreases w - c,
        {
            let ev = edge.get(r, c);
            let bv = binarized.get(r, c);
            let hv = hue_dilated.get(r, c);
            let px: u8 = if r >= roi_top && ev == 0 && bv == 0 && hv > 0 {
                255
            } else {
                0
            };
            proof {
                assert((r as int) * (w as int) + (c as int) < (w as int) * (edge.height as int))
                    by (nonlinear_arith)
                    requires
                        (r as int) < (edge.height as int),
                        (c as int) < (w as int),
                ;
                lemma_fundamental_div_mod_converse(
                    (r as int) * (w as int) + (c as int),
                    w as int,
                    r as int,
                    c as int,
                );
                assert(target[(r as int) * (w as int) + (c as int)] == px);
            }
            data.push(px);
            c += 1;
        }
        proof {
            assert((r + 1) * (w as int) == r * (w as int) + w) by (nonlinear_arith);
        }
        r += 1;
    }
    proof {
        assert((h as int) * (w as int) == (w as int) * (h as int)) by (nonlinear_arith);
        assert(data@ =~= target);
    }
    Plane { width: w, height: h, data }
}

/// Absolute difference of two hue angles, without wraparound.
pub open spec fn spec_hue_distance(a: u16, b: u16) -> int {
    if a >= b {
        a - b
    } else {
        b - a
    }
}

/// The hue-selection mask: a pixel is kept exactly when its hue lies
/// within twenty degrees of the configured target hue.
pub open spec fn spec_hue_mask(hues: Seq<u16>, target: u16) -> Seq<u8> {
    Seq::new(
        hues.len(),
        |k: int|
            if spec_hue_distance(hues[k], target) < 20 {
                255u8
            } else {
                0u8
            },
    )
}

/// Builds the hue-selection mask of a frame's hue plane.
pub fn hue_select_mask(hues: &HuePlane, target: u16) -> (mask: Plane)
    requires
        hues.wf(),
        hues.width > 0,
    ensures
        mask.wf(),
        mask.width == hues.width,
        mask.height == hues.height,
        mask.data@ == spec_hue_mask(hues.data@, target),
        is_binary(mask.data@),
{
    let w = hues.width;
    let h = hues.height;
    let ghost target_mask = spec_hue_mask(hues.data@, target);
    let mut data: Vec<u8> = Vec::new();
    let mut r: usize = 0;
    while r < h
        invariant
            r <= h,
            w == hues.width,
            h == hues.height,
            hues.wf(),
            w > 0,
            target_mask == spec_hue_mask(hues.data@, target),
            data@.len() == r * w,
            forall|k: int| 0 <= k < r * w ==> data@[k] == target_mask[k],
        decreases h - r,
    {
        let mut c: usize = 0;
        while c < w
            invariant
                c <= w,
                r < h,
                w == hues.width,
                h == hues.height,
                hues.wf(),
                w > 0,
                target_mask == spec_hue_mask(hues.data@, target),
                data@.len() == r * w + c,
                forall|k: int| 0 <= k < r * w + c ==> data@[k] == target_mask[k],
            decreases w - c,
        {
            let hv = hues.get(r, c);
            let dist: u16 = if hv >= target {
                hv - target
            } else {
                target - hv
            };
            let px: u8 = if dist < 20 {
                255
            } else {
                0
            };
            proof {
                assert((r as int) * (w as int) + (c as int) < (w as int) * (hues.height as int))
                    by (nonlinear_arith)
                    requires
                        (r as int) < (hues.height as int),
                        (c as int) < (w as int),
                ;
                assert(target_mask[(r as int) * (w as int) + (c as int)] == px);
            }
            data.push(px);
            c += 1;
        }
        proof {
            assert((r + 1) * (w as int) == r * (w as int) + w) by (nonlinear_arith);
        }
        r += 1;
    }
    proof {
        assert((h as int) * (w as int) == (w as int) * (h as int)) by (nonlinear_arith);
        assert(data@ =~= target_mask);
    }
    Plane { width: w, height: h, data }
}

/// Segmenting the same frame twice with identical configuration yields
/// bit-identical masks: the bright-subtitle mask is a function of the
/// input planes and parameters alone.
pub proof fn lemma_segment_bright_deterministic(
    m1: Plane,
    m2: Plane,
    lum: Plane,
    edge: Plane,
    thresh: u8,
    roi_top: int,
)
    requires
        m1.data@ == spec_segment_bright(lum.data@, edge.data@, lum.width as int, thresh, roi_top),
        m2.data@ == spec_segment_bright(lum.data@, edge.data@, lum.width as int, thresh, roi_top),
    ensures
        m1.data@ == m2.data@,
{
}

/// The color-subtitle mask is likewise a function of the input planes and
/// parameters alone.
pub proof fn lemma_segment_color_deterministic(
    m1: Plane,
    m2: Plane,
    edge: Plane,
    binarized: Plane,
    hue_dilated: Plane,
    roi_top: int,
)
    requires
        m1.data@ == spec_segment_color(
            edge.data@,
            binarized.data@,
            hue_dilated.data@,
            edge.width as int,
            roi_top,
        ),
        m2.data@ == spec_segment_color(
            edge.data@,
            binarized.data@,
            hue_dilated.data@,
            edge.width as int,
            roi_top,
        ),
    ensures
        m1.data@ == m2.data@,
{
}

} // verus!
