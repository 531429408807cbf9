use vstd::prelude::*;

verus! {

/// One RGB pixel.
pub type Rgb = [u8; 3];

/// A row-major RGB image: the pixel at `(x, y)` is `data[y * width + x]`.
pub struct Image {
    pub width: u32,
    pub height: u32,
    pub data: Vec<Rgb>,
}

/// The pixel with every channel at zero.
pub open spec fn is_black(p: Rgb) -> bool {
    p[0] == 0 && p[1] == 0 && p[2] == 0
}

/// `x + y * w` names a distinct cell for each `x < w`.
pub proof fn lemma_index_unique(w: int, x1: int, y1: int, x2: int, y2: int)
    requires
        0 <= x1 < w,
        0 <= x2 < w,
        0 <= y1,
        0 <= y2,
        y1 * w + x1 == y2 * w + x2,
    ensures
        x1 == x2,
        y1 == y2,
{
    if y1 < y2 {
        assert(y1 * w + w <= y2 * w) by (nonlinear_arith)
            requires
                y1 < y2,
                w > 0,
        ;
    } else if y2 < y1 {
        assert(y2 * w + w <= y1 * w) by (nonlinear_arith)
            requires
                y2 < y1,
                w > 0,
        ;
    }
}

/// A cell inside a `w × h` grid has its index inside `w * h`.
pub proof fn lemma_index_bound(w: int, h: int, x: int, y: int)
    requires
        0 <= x < w,
        0 <= y < h,
    ensures
        0 <= y * w + x < w * h,
{
    assert(0 <= y * w + x < w * h) by (nonlinear_arith)
        requires
            0 <= x < w,
            0 <= y < h,
    ;
}

impl Image {
    /// The buffer holds exactly one pixel per cell.
    pub open spec fn wf(&self) -> bool {
        self.data@.len() == self.width as int * self.height as int
    }

    pub open spec fn at(&self, x: int, y: int) -> Rgb {
        self.data@[y * self.width + x]
    }

    /// A black image of the given size.
    pub fn new(width: u32, height: u32) -> (r: Image)
        requires
            width as int * height as int <= usize::MAX,
        ensures
            r.wf(),
            r.width == width,
            r.height == height,
            forall|i: int| 0 <= i < r.data@.len() ==> is_black(#[trigger] r.data@[i]),
    {
        let n: usize = width as usize * height as usize;
        let mut data: Vec<Rgb> = Vec::with_capacity(n);
        let mut i: usize = 0;
        while i < n
            invariant
                i <= n,
                data@.len() == i,
                forall|k: int| 0 <= k < data@.len() ==> is_black(#[trigger] data@[k]),
            decreases n - i,
        {
            data.push([0u8, 0u8, 0u8]);
            i = i + 1;
        }
        Image { width, height, data }
    }

    /// Builds an image from a buffer of packed RGB bytes, three per pixel;
    /// `None` when the buffer does not hold exactly `width * height` pixels.
    pub fn from_rgb_bytes(width: u32, height: u32, bytes: &Vec<u8>) -> (r: Option<Image>)
        ensures
            r is Some <==> bytes@.len() == 3 * (width as int * height as int),
            r matches Some(img) ==> {
                &&& img.wf()
                &&& img.width == width
                &&& img.height == height
                &&& forall|i: int|
                    0 <= i < img.data@.len() ==> #[trigger] img.data@[i] == [
                        bytes@[3 * i],
                        bytes@[3 * i + 1],
                        bytes@[3 * i + 2],
                    ]
            },
    {
        assert(width as int * height as int <= u64::MAX) by (nonlinear_arith)
            requires
                width <= u32::MAX,
                height <= u32::MAX,
        ;
        let n: u64 = width as u64 * height as u64;
        if bytes.len() % 3 != 0 || n != (bytes.len() / 3) as u64 {
            return None;
        }
        let n: usize = n as usize;
        let mut data: Vec<Rgb> = Vec::with_capacity(n);
        let mut i: usize = 0;
        while i < n
            invariant
                i <= n,
                3 * n == bytes@.len(),
                bytes@.len() <= usize::MAX,
                data@.len() == i,
                forall|k: int|
                    0 <= k < i ==> #[trigger] data@[k] == [
                        bytes@[3 * k],
                        bytes@[3 * k + 1],
                        bytes@[3 * k + 2],
                    ],
            decreases n - i,
        {
            data.push([bytes[3 * i], bytes[3 * i + 1], bytes[3 * i + 2]]);
            i = i + 1;
        }
        Some(Image { width, height, data })
    }

    /// The packed RGB bytes of the image, three per pixel.
    pub fn to_rgb_bytes(&self) -> (r: Vec<u8>)
        requires
            3 * self.data@.len() <= usize::MAX,
        ensures
            r@.len() == 3 * self.data@.len(),
            forall|i: int|
                0 <= i < self.data@.len() ==> {
                    &&& r@[3 * i] == #[trigger] self.data@[i][0]
                    &&& r@[3 * i + 1] == self.data@[i][1]
                    &&& r@[3 * i + 2] == self.data@[i][2]
                },
    {
        let mut r: Vec<u8> = Vec::with_capacity(3 * self.data.len());
        let mut i: usize = 0;
        while i < self.data.len()
            invariant
                i <= self.data@.len(),
                3 * self.data@.len() <= usize::MAX,
                r@.len() == 3 * i,
                forall|k: int|
                    0 <= k < i ==> {
                        &&& r@[3 * k] == #[trigger] self.data@[k][0]
                        &&& r@[3 * k + 1] == self.data@[k][1]
                        &&& r@[3 * k + 2] == self.data@[k][2]
                    },
            decreases self.data@.len() - i,
        {
            let p = self.data[i];
            let ghost prev = r@;
            r.push(p[0]);
            r.push(p[1]);
            r.push(p[2]);
            assert(r@ == prev + seq![p[0], p[1], p[2]]);
            assert forall|k: int|
                0 <= k < i + 1 implies {
                    &&& r@[3 * k] == #[trigger] self.data@[k][0]
                    &&& r@[3 * k + 1] == self.data@[k][1]
                    &&& r@[3 * k + 2] == self.data@[k][2]
                } by {
                if k < i {
                    assert(r@[3 * k] == prev[3 * k]);
                    assert(r@[3 * k + 1] == prev[3 * k + 1]);
                    assert(r@[3 * k + 2] == prev[3 * k + 2]);
                }
            }
            i = i + 1;
        }
        r
    }

    pub fn pixel(&self, x: u32, y: u32) -> (r: Rgb)
        requires
            self.wf(),
            x < self.width,
            y < self.height,
        ensures
            r == self.at(x as int, y as int),
    {
        let len = self.data.len();
        proof {
            lemma_index_bound(self.width as int, self.height as int, x as int, y as int);
            assert(y * self.width <= y * self.width + x);
        }
        self.data[y as usize * self.width as usize + x as usize]
    }

    /// Writes one pixel and leaves every other one as it was.
    pub fn set_pixel(&mut self, x: u32, y: u32, p: Rgb)
        requires
            old(self).wf(),
            x < old(self).width,
            y < old(self).height,
        ensures
            final(self).wf(),
            final(self).width == old(self).width,
            final(self).height == old(self).height,
            forall|u: int, v: int|
                0 <= u < old(self).width && 0 <= v < old(self).height ==> #[trigger] final(self).at(u, v) == if u == x && v == y {
                    p
                } else {
                    old(self).at(u, v)
                },
    {
        let len = self.data.len();
        proof {
            lemma_index_bound(self.width as int, self.height as int, x as int, y as int);
            assert(y * self.width <= y * self.width + x);
        }
        let i: usize = y as usize * self.width as usize + x as usize;
        self.data.set(i, p);
        proof {
            assert forall|u: int, v: int|
                0 <= u < old(self).width && 0 <= v < old(self).height implies #[trigger] self.at(u, v) == if u == x && v == y {
                p
            } else {
                old(self).at(u, v)
            } by {
                lemma_index_bound(self.width as int, self.height as int, u, v);
                if v * self.width + u == i {
                    lemma_index_unique(self.width as int, u, v, x as int, y as int);
                }
            }
        }
    }
}

} // verus!
