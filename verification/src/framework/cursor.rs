//! Cursor images: reading an XCursor file, choosing the images of the nearest size and the
//! frame of an animated cursor.

use vstd::prelude::*;
use vstd::string::{StrSliceExecFns, StringExecFns};

verus! {

/// One image of an XCursor file.
#[derive(Debug)]
pub struct CursorImage {
    /// The nominal size of the image.
    pub size: u32,
    pub width: u32,
    pub height: u32,
    pub xhot: u32,
    pub yhot: u32,
    /// How long the image is shown, in milliseconds.
    pub delay: u32,
    pub pixels_rgba: Vec<u8>,
    pub pixels_argb: Vec<u8>,
}

/// The abstract value of a cursor image.
pub struct CursorImageView {
    pub size: u32,
    pub width: u32,
    pub height: u32,
    pub xhot: u32,
    pub yhot: u32,
    pub delay: u32,
    pub pixels_rgba: Seq<u8>,
    pub pixels_argb: Seq<u8>,
}

impl View for CursorImage {
    type V = CursorImageView;

    open spec fn view(&self) -> CursorImageView {
        CursorImageView {
            size: self.size,
            width: self.width,
            height: self.height,
            xhot: self.xhot,
            yhot: self.yhot,
            delay: self.delay,
            pixels_rgba: self.pixels_rgba@,
            pixels_argb: self.pixels_argb@,
        }
    }
}

/// The images that `xcursor::parser::parse_xcursor` reads from the bytes of a file, or `None`
/// when it rejects them.
pub uninterp spec fn xcursor_images(data: Seq<u8>) -> Option<Seq<CursorImageView>>;

/// The ARGB bytes of the RGBA bytes `rgba`: each four-byte pixel with its last byte (alpha)
/// moved to the front.
pub open spec fn argb_of(rgba: Seq<u8>) -> Seq<u8> {
    Seq::new(rgba.len(), |i: int| if i % 4 == 0 { rgba[i + 3] } else { rgba[i - 1] })
}

/// What the parser checks of every image it returns: a size from 1 to 0x7fff on both axes, the
/// hotspot inside, and four bytes of pixels per pixel; the ARGB pixels are the RGBA ones with
/// each pixel's alpha byte moved to the front.
pub open spec fn well_formed_image(i: CursorImageView) -> bool {
    &&& 1 <= i.width <= 0x7fff
    &&& 1 <= i.height <= 0x7fff
    &&& i.xhot <= i.width
    &&& i.yhot <= i.height
    &&& i.pixels_rgba.len() == 4 * i.width * i.height
    &&& i.pixels_argb == argb_of(i.pixels_rgba)
}

/// Calls `xcursor::parser::parse_xcursor` on `data` and converts each image it returns, field
/// for field. The contract names the result and states what the parser's source checks of every
/// image before returning it. It allocates in proportion to what the file declares: running
/// out of memory on an enormous file is left unsaid, and so is the panic of a 32-bit target,
/// where a short file that declares the largest image asks for more bytes than one allocation
/// may hold. On a 64-bit target the parser does not panic.
#[verifier::external_body]
fn xcursor_parse(data: &[u8]) -> (r: Option<Vec<CursorImage>>)
    ensures
        match r {
            Some(v) => xcursor_images(data@) == Some(v@.map_values(|i: CursorImage| i@))
                && forall|k: int| 0 <= k < v@.len() ==> well_formed_image(#[trigger] v@[k]@),
            None => xcursor_images(data@) is None,
        },
{
    let images = xcursor::parser::parse_xcursor(data)?;
    let convert = |i: xcursor::parser::Image| CursorImage {
        size: i.size, width: i.width, height: i.height, xhot: i.xhot, yhot: i.yhot,
        delay: i.delay, pixels_rgba: i.pixels_rgba, pixels_argb: i.pixels_argb,
    };
    Some(images.into_iter().map(convert).collect())
}

/// Why the images of the cursor theme could not be had.
#[derive(Clone, Copy, Debug, PartialEq, Eq, Structural)]
pub enum CursorLoadError {
    /// The theme has no default cursor.
    NoDefaultCursor,
    /// The cursor file could not be read.
    File,
    /// The cursor file is not an XCursor file.
    Parse,
}

/// Read the images of an XCursor file; bytes the parser rejects are a `Parse` error.
pub fn parse_cursor_file(data: &[u8]) -> (r: Result<Vec<CursorImage>, CursorLoadError>)
    ensures
        match r {
            Ok(v) => xcursor_images(data@) == Some(v@.map_values(|i: CursorImage| i@))
                && forall|k: int| 0 <= k < v@.len() ==> well_formed_image(#[trigger] v@[k]@),
            Err(e) => e == CursorLoadError::Parse && xcursor_images(data@) is None,
        },
{
    match xcursor_parse(data) {
        Some(v) => Ok(v),
        None => Err(CursorLoadError::Parse),
    }
}

/// The value of the decimal digits `s`.
pub open spec fn digits_value(s: Seq<char>) -> nat
    decreases s.len(),
{
    if s.len() == 0 {
        0
    } else {
        digits_value(s.drop_last()) * 10 + ((s.last() as nat) - ('0' as nat)) as nat
    }
}

/// Every character of `s` is a decimal digit.
pub open spec fn all_digits(s: Seq<char>) -> bool {
    forall|i: int| 0 <= i < s.len() ==> '0' <= #[trigger] s[i] <= '9'
}

/// The `u32` that `s` spells, read as `str::parse` reads one: an optional `+`, then at least
/// one decimal digit, and a value within range.
pub open spec fn parsed_u32(s: Seq<char>) -> Option<u32> {
    let d = if s.len() > 0 && s[0] == '+' {
        s.drop_first()
    } else {
        s
    };
    if d.len() > 0 && all_digits(d) && digits_value(d) <= u32::MAX {
        Some(digits_value(d) as u32)
    } else {
        None
    }
}

/// A prefix of digits is worth no more than the whole.
pub proof fn lemma_digits_value_prefix(d: Seq<char>, k: int)
    requires
        0 <= k <= d.len(),
        all_digits(d),
    ensures
        digits_value(d.take(k)) <= digits_value(d),
    decreases d.len() - k,
{
    if k < d.len() {
        lemma_digits_value_prefix(d, k + 1);
        assert(d.take(k + 1).drop_last() =~= d.take(k));
        assert('0' <= d[k] <= '9');
    } else {
        assert(d.take(k) =~= d);
    }
}

/// Read a `u32` as `str::parse` does.
pub fn parse_u32(s: &str) -> (r: Option<u32>)
    ensures
        r == parsed_u32(s@),
{
    let n = s.unicode_len();
    let start: usize = if n > 0 && s.get_char(0) == '+' {
        1
    } else {
        0
    };
    let ghost d = if s@.len() > 0 && s@[0] == '+' {
        s@.drop_first()
    } else {
        s@
    };
    assert(d =~= s@.skip(start as int));
    if start == n {
        return None;
    }
    let mut acc: u64 = 0;
    let mut i: usize = start;
    while i < n
        invariant
            n == s@.len(),
            start <= i <= n,
            d == s@.skip(start as int),
            d == (if s@.len() > 0 && s@[0] == '+' {
                s@.drop_first()
            } else {
                s@
            }),
            all_digits(d.take(i - start)),
            acc == digits_value(d.take(i - start)),
            acc <= u32::MAX,
        decreases n - i,
    {
        let c = s.get_char(i);
        assert(d[i - start] == c);
        if c < '0' || c > '9' {
            assert(!all_digits(d));
            return None;
        }
        let ghost k = i - start;
        assert(d.take(k + 1).drop_last() =~= d.take(k));
        assert(d.take(k + 1).last() == c);
        acc = acc * 10 + ((c as u32) - ('0' as u32)) as u64;
        i = i + 1;
        if acc > 0xffff_ffff {
            proof {
                if all_digits(d) {
                    lemma_digits_value_prefix(d, k + 1);
                }
            }
            return None;
        }
        assert forall|j: int| 0 <= j < k + 1 implies '0' <= #[trigger] d.take(k + 1)[j] <= '9' by {
            if j < k {
                assert(d.take(k + 1)[j] == d.take(k)[j]);
            }
        }
    }
    assert(d.take(n - start) =~= d);
    Some(acc as u32)
}

/// The theme named by the environment, or `default`.
pub fn theme_name(requested: Option<String>) -> (name: String)
    ensures
        name@ == match requested {
            Some(t) => t@,
            None => "default"@,
        },
{
    match requested {
        Some(t) => t,
        None => String::from_str("default"),
    }
}

/// How far the nominal size of an image is from the wanted size, computed on `i32`.
pub open spec fn distance(size: u32, image_size: u32) -> int {
    let d = (size as i32) - (image_size as i32);
    if d < 0 {
        -d
    } else {
        d
    }
}

/// The distance can be computed on `i32`.
pub open spec fn distance_fits(size: u32, image_size: u32) -> bool {
    let d = (size as i32) - (image_size as i32);
    i32::MIN < d <= i32::MAX
}

/// The index of the first image of minimal distance among the first `n`.
pub open spec fn nearest(images: Seq<CursorImageView>, size: u32, n: int) -> int
    decreases n,
{
    if n <= 1 {
        0
    } else {
        let b = nearest(images, size, n - 1);
        if distance(size, images[n - 1].size) < distance(size, images[b].size) {
            n - 1
        } else {
            b
        }
    }
}

/// The indices, in order, of the images among the first `n` that have the given dimensions.
pub open spec fn with_dimensions(images: Seq<CursorImageView>, width: u32, height: u32, n: int) -> Seq<
    usize,
>
    decreases n,
{
    if n <= 0 {
        Seq::empty()
    } else if images[n - 1].width == width && images[n - 1].height == height {
        with_dimensions(images, width, height, n - 1).push((n - 1) as usize)
    } else {
        with_dimensions(images, width, height, n - 1)
    }
}

/// The images to animate for the wanted size: those with the dimensions of the first image
/// whose nominal size is nearest.
pub open spec fn nearest_set(images: Seq<CursorImageView>, size: u32) -> Seq<usize> {
    let b = nearest(images, size, images.len() as int);
    with_dimensions(images, images[b].width, images[b].height, images.len() as int)
}

/// The delays of the images with the indices `idx`.
pub open spec fn delays(images: Seq<CursorImageView>, idx: Seq<usize>) -> Seq<u32> {
    idx.map_values(|j: usize| images[j as int].delay)
}

/// The sum of `ds`.
pub open spec fn sum(ds: Seq<u32>) -> nat
    decreases ds.len(),
{
    if ds.len() == 0 {
        0
    } else {
        ds[0] as nat + sum(ds.drop_first())
    }
}

/// The position in an animation with the frame durations `ds` that shows at time `m`.
pub open spec fn pick(ds: Seq<u32>, m: int) -> int
    decreases ds.len(),
{
    if ds.len() == 0 || m < ds[0] {
        0
    } else {
        1 + pick(ds.drop_first(), m - ds[0])
    }
}

/// The index of the image that an animation over the images `idx` shows at `millis`.
pub open spec fn frame_index(images: Seq<CursorImageView>, idx: Seq<usize>, millis: int) -> usize {
    let ds = delays(images, idx);
    idx[pick(ds, millis % (sum(ds) as int))]
}

pub proof fn lemma_sum_take(ds: Seq<u32>, i: int)
    requires
        0 <= i < ds.len(),
    ensures
        sum(ds.take(i + 1)) == sum(ds.take(i)) + ds[i],
    decreases i,
{
    let a = ds.take(i + 1);
    let b = ds.take(i);
    assert(sum(a) == a[0] + sum(a.drop_first()));
    if i > 0 {
        lemma_sum_take(ds.drop_first(), i - 1);
        assert(a.drop_first() =~= ds.drop_first().take(i));
        assert(b.drop_first() =~= ds.drop_first().take(i - 1));
        assert(sum(b) == b[0] + sum(b.drop_first()));
    } else {
        assert(a.drop_first() =~= Seq::<u32>::empty());
        assert(b.len() == 0);
    }
}

pub proof fn lemma_sum_prefix(ds: Seq<u32>, i: int)
    requires
        0 <= i <= ds.len(),
    ensures
        sum(ds.take(i)) <= sum(ds),
    decreases ds.len() - i,
{
    if i < ds.len() {
        lemma_sum_take(ds, i);
        lemma_sum_prefix(ds, i + 1);
    } else {
        assert(ds.take(i) =~= ds);
    }
}

pub proof fn lemma_sum_skip(ds: Seq<u32>, i: int)
    requires
        0 <= i < ds.len(),
    ensures
        sum(ds.skip(i)) == ds[i] + sum(ds.skip(i + 1)),
{
    assert(ds.skip(i).drop_first() =~= ds.skip(i + 1));
}

/// The indices of the images to animate for the wanted size.
pub fn nearest_images(size: u32, images: &Vec<CursorImage>) -> (r: Vec<usize>)
    requires
        images@.len() > 0,
        forall|k: int| 0 <= k < images@.len() ==> distance_fits(size, #[trigger] images@[k].size),
    ensures
        r@ == nearest_set(images@.map_values(|i: CursorImage| i@), size),
{
    let ghost imgs = images@.map_values(|i: CursorImage| i@);
    let n = images.len();
    let mut best: usize = 0;
    let mut best_d: i32 = {
        let d = size as i32 - images[0].size as i32;
        if d < 0 {
            -d
        } else {
            d
        }
    };
    let mut i: usize = 1;
    while i < n
        invariant
            n == images@.len(),
            imgs == images@.map_values(|i: CursorImage| i@),
            1 <= i <= n,
            forall|k: int| 0 <= k < n ==> distance_fits(size, #[trigger] images@[k].size),
            best == nearest(imgs, size, i as int),
            best < n,
            best_d == distance(size, imgs[best as int].size),
        decreases n - i,
    {
        assert(imgs[i as int] == images@[i as int]@);
        let d0 = size as i32 - images[i].size as i32;
        let d = if d0 < 0 {
            -d0
        } else {
            d0
        };
        if d < best_d {
            best = i;
            best_d = d;
        }
        i = i + 1;
    }
    let w = images[best].width;
    let h = images[best].height;
    assert(imgs[best as int] == images@[best as int]@);
    let mut r: Vec<usize> = Vec::new();
    for j in 0..n
        invariant
            n == images@.len(),
            imgs == images@.map_values(|i: CursorImage| i@),
            r@ == with_dimensions(imgs, w, h, j as int),
    {
        assert(imgs[j as int] == images@[j as int]@);
        if images[j].width == w && images[j].height == h {
            r.push(j);
        }
    }
    r
}

/// The index of the image an animated cursor of the wanted size shows `millis` milliseconds
/// after it started: the animation cycles through the nearest images, each shown for its delay.
pub fn frame_position(millis: u128, size: u32, images: &Vec<CursorImage>) -> (r: usize)
    requires
        images@.len() > 0,
        forall|k: int| 0 <= k < images@.len() ==> distance_fits(size, #[trigger] images@[k].size),
        sum(
            delays(
                images@.map_values(|i: CursorImage| i@),
                nearest_set(images@.map_values(|i: CursorImage| i@), size),
            ),
        ) <= u32::MAX,
        sum(
            delays(
                images@.map_values(|i: CursorImage| i@),
                nearest_set(images@.map_values(|i: CursorImage| i@), size),
            ),
        ) > 0,
    ensures
        r == frame_index(
            images@.map_values(|i: CursorImage| i@),
            nearest_set(images@.map_values(|i: CursorImage| i@), size),
            millis as int,
        ),
        r < images@.len(),
{
    let ghost imgs = images@.map_values(|i: CursorImage| i@);
    let near = nearest_images(size, images);
    let ghost ds = delays(imgs, near@);
    proof {
        let b = nearest(imgs, size, imgs.len() as int);
        lemma_nearest_in_range(imgs, size, imgs.len() as int);
        lemma_with_dimensions_in_range(imgs, imgs[b].width, imgs[b].height, imgs.len() as int);
    }
    let m = near.len();
    let mut total: u32 = 0;
    for k in 0..m
        invariant
            m == near@.len(),
            imgs == images@.map_values(|i: CursorImage| i@),
            ds == delays(imgs, near@),
            ds.len() == m,
            forall|p: int| 0 <= p < m ==> (#[trigger] near@[p]) < imgs.len(),
            sum(ds) <= u32::MAX,
            total == sum(ds.take(k as int)),
    {
        proof {
            lemma_sum_take(ds, k as int);
            lemma_sum_prefix(ds, k + 1);
        }
        assert(imgs[near@[k as int] as int] == images@[near@[k as int] as int]@);
        total = total + images[near[k]].delay;
    }
    assert(ds.take(m as int) =~= ds);
    let mut rem: u128 = millis % (total as u128);
    let mut k: usize = 0;
    assert(ds.skip(0) =~= ds);
    while k < m
        invariant
            m == near@.len(),
            imgs == images@.map_values(|i: CursorImage| i@),
            ds == delays(imgs, near@),
            ds.len() == m,
            forall|p: int| 0 <= p < m ==> (#[trigger] near@[p]) < imgs.len(),
            total == sum(ds),
            near@ == nearest_set(imgs, size),
            k <= m,
            rem < sum(ds.skip(k as int)),
            pick(ds.skip(k as int), rem as int) + k == pick(ds, (millis % (total as u128)) as int),
        decreases m - k,
    {
        assert(imgs[near@[k as int] as int] == images@[near@[k as int] as int]@);
        proof {
            lemma_sum_skip(ds, k as int);
            assert(ds.skip(k as int).drop_first() =~= ds.skip(k + 1));
        }
        let delay = images[near[k]].delay as u128;
        if rem < delay {
            assert(ds.skip(k as int)[0] == ds[k as int]);
            assert(pick(ds.skip(k as int), rem as int) == 0);
            return near[k];
        }
        rem = rem - delay;
        k = k + 1;
    }
    assert(ds.skip(m as int) =~= Seq::<u32>::empty());
    near[0]
}

/// The indices found by `with_dimensions` are indices of `images`.
pub proof fn lemma_with_dimensions_in_range(
    images: Seq<CursorImageView>,
    width: u32,
    height: u32,
    n: int,
)
    requires
        n <= images.len(),
    ensures
        forall|p: int|
            0 <= p < with_dimensions(images, width, height, n).len() ==> (#[trigger] with_dimensions(
                images,
                width,
                height,
                n,
            )[p]) < n,
    decreases n,
{
    if n > 0 {
        lemma_with_dimensions_in_range(images, width, height, n - 1);
        let prev = with_dimensions(images, width, height, n - 1);
        let cur = with_dimensions(images, width, height, n);
        assert forall|p: int| 0 <= p < cur.len() implies (#[trigger] cur[p]) < n by {
            if p < prev.len() {
                assert(cur[p] == prev[p]);
            }
        }
    }
}

/// The image of nearest size is one of the images.
pub proof fn lemma_nearest_in_range(images: Seq<CursorImageView>, size: u32, n: int)
    requires
        1 <= n,
    ensures
        0 <= nearest(images, size, n) < n,
    decreases n,
{
    if n > 1 {
        lemma_nearest_in_range(images, size, n - 1);
    }
}

/// A copy of `image`.
fn copy_of(image: &CursorImage) -> (r: CursorImage)
    ensures
        r@ == image@,
{
    let pixels_rgba = image.pixels_rgba.clone();
    let pixels_argb = image.pixels_argb.clone();
    assert(pixels_rgba@ =~= image.pixels_rgba@);
    assert(pixels_argb@ =~= image.pixels_argb@);
    CursorImage {
        size: image.size,
        width: image.width,
        height: image.height,
        xhot: image.xhot,
        yhot: image.yhot,
        delay: image.delay,
        pixels_rgba,
        pixels_argb,
    }
}

/// The image an animated cursor of the wanted size shows `millis` milliseconds after it
/// started: the animation cycles through the nearest images, each shown for its delay.
pub fn frame(millis: u128, size: u32, images: &Vec<CursorImage>) -> (r: CursorImage)
    requires
        images@.len() > 0,
        forall|k: int| 0 <= k < images@.len() ==> distance_fits(size, #[trigger] images@[k].size),
        sum(
            delays(
                images@.map_values(|i: CursorImage| i@),
                nearest_set(images@.map_values(|i: CursorImage| i@), size),
            ),
        ) <= u32::MAX,
        sum(
            delays(
                images@.map_values(|i: CursorImage| i@),
                nearest_set(images@.map_values(|i: CursorImage| i@), size),
            ),
        ) > 0,
    ensures
        ({
            let k = frame_index(
                images@.map_values(|i: CursorImage| i@),
                nearest_set(images@.map_values(|i: CursorImage| i@), size),
                millis as int,
            );
            k < images@.len() && r@ == images@[k as int]@
        }),
{
    let k = frame_position(millis, size, images);
    copy_of(&images[k])
}

/// Every index found by `with_dimensions` is of an image with those dimensions.
pub proof fn lemma_with_dimensions_match(
    images: Seq<CursorImageView>,
    width: u32,
    height: u32,
    n: int,
)
    requires
        n <= usize::MAX,
    ensures
        forall|p: int|
            0 <= p < with_dimensions(images, width, height, n).len() ==> {
                let j = #[trigger] with_dimensions(images, width, height, n)[p];
                images[j as int].width == width && images[j as int].height == height
            },
    decreases n,
{
    if n > 0 {
        lemma_with_dimensions_match(images, width, height, n - 1);
        let prev = with_dimensions(images, width, height, n - 1);
        let cur = with_dimensions(images, width, height, n);
        assert forall|p: int| 0 <= p < cur.len() implies ({
            let j = #[trigger] cur[p];
            images[j as int].width == width && images[j as int].height == height
        }) by {
            if p < prev.len() {
                assert(cur[p] == prev[p]);
            }
        }
    }
}

/// A time within one cycle of an animation falls in one of its frames.
pub proof fn lemma_pick_in_range(ds: Seq<u32>, m: int)
    requires
        0 <= m < sum(ds),
    ensures
        0 <= pick(ds, m) < ds.len(),
    decreases ds.len(),
{
    if ds.len() > 0 && m >= ds[0] {
        lemma_pick_in_range(ds.drop_first(), m - ds[0]);
    }
}

/// The frame an animated cursor shows is always one of the images nearest to the wanted size,
/// and all of those have the dimensions of the first image of nearest size.
pub proof fn law_frame_is_a_nearest_image(images: Seq<CursorImageView>, size: u32, millis: int)
    requires
        0 < images.len() <= usize::MAX,
        sum(delays(images, nearest_set(images, size))) > 0,
        millis >= 0,
    ensures
        ({
            let idx = nearest_set(images, size);
            let f = frame_index(images, idx, millis);
            let b = nearest(images, size, images.len() as int);
            &&& idx.contains(f)
            &&& images[f as int].width == images[b].width
            &&& images[f as int].height == images[b].height
        }),
{
    let idx = nearest_set(images, size);
    let ds = delays(images, idx);
    let b = nearest(images, size, images.len() as int);
    let r = millis % (sum(ds) as int);
    lemma_pick_in_range(ds, r);
    let q = pick(ds, r);
    assert(idx[q] == frame_index(images, idx, millis));
    lemma_with_dimensions_match(images, images[b].width, images[b].height, images.len() as int);
}

/// The animation repeats: after the sum of the delays of its frames it shows the same frame
/// again.
pub proof fn law_frame_repeats(images: Seq<CursorImageView>, idx: Seq<usize>, millis: int)
    requires
        sum(delays(images, idx)) > 0,
    ensures
        frame_index(images, idx, millis + sum(delays(images, idx))) == frame_index(
            images,
            idx,
            millis,
        ),
{
    let t = sum(delays(images, idx)) as int;
    vstd::arithmetic::div_mod::lemma_mod_add_multiples_vanish(millis, t);
}

/// A cursor: its images and its nominal size.
#[derive(Debug)]
pub struct Cursor {
    pub icons: Vec<CursorImage>,
    pub size: u32,
}

/// The image shown when the theme has none: 64 by 64 pixels of nominal size 32, its hotspot
/// one pixel in from the top-left corner.
pub open spec fn fallback_image(pixels: Seq<u8>) -> CursorImageView {
    CursorImageView {
        size: 32,
        width: 64,
        height: 64,
        xhot: 1,
        yhot: 1,
        delay: 1,
        pixels_rgba: pixels,
        pixels_argb: Seq::empty(),
    }
}

/// The nominal size the environment asks for, or 24.
pub open spec fn requested_size(size: Option<Seq<char>>) -> u32 {
    match size {
        Some(s) => match parsed_u32(s) {
            Some(v) => v,
            None => 24,
        },
        None => 24,
    }
}

impl Cursor {
    /// The cursor of the theme's images, or of the fallback image when they could not be had,
    /// at the nominal size the environment asks for (24 when it asks for none it can read).
    pub fn load(
        icons: Result<Vec<CursorImage>, CursorLoadError>,
        size: Option<&str>,
        fallback_pixels: Vec<u8>,
    ) -> (c: Cursor)
        ensures
            c.size == requested_size(
                match size {
                    Some(s) => Some(s@),
                    None => None,
                },
            ),
            c.icons@.map_values(|i: CursorImage| i@) == match icons {
                Ok(v) => v@.map_values(|i: CursorImage| i@),
                Err(_) => seq![fallback_image(fallback_pixels@)],
            },
    {
        let size = match size {
            Some(s) => match parse_u32(s) {
                Some(v) => v,
                None => 24,
            },
            None => 24,
        };
        let icons = match icons {
            Ok(v) => v,
            Err(_) => {
                let image = CursorImage {
                    size: 32,
                    width: 64,
                    height: 64,
                    xhot: 1,
                    yhot: 1,
                    delay: 1,
                    pixels_rgba: fallback_pixels,
                    pixels_argb: Vec::new(),
                };
                let v = vec![image];
                assert(v@.map_values(|i: CursorImage| i@) =~= seq![fallback_image(fallback_pixels@)]);
                v
            },
        };
        Cursor { icons, size }
    }

    pub fn new(icons: Vec<CursorImage>, size: u32) -> (c: Cursor)
        ensures
            c.icons@ == icons@,
            c.size == size,
    {
        Cursor { icons, size }
    }

    /// The image to show for the output scale `scale`, `millis` milliseconds after the cursor
    /// was loaded.
    pub fn get_image(&self, scale: u32, millis: u128) -> (r: CursorImage)
        requires
            self.size * scale <= u32::MAX,
            self.icons@.len() > 0,
            forall|k: int|
                0 <= k < self.icons@.len() ==> distance_fits(
                    (self.size * scale) as u32,
                    #[trigger] self.icons@[k].size,
                ),
            sum(
                delays(
                    self.icons@.map_values(|i: CursorImage| i@),
                    nearest_set(self.icons@.map_values(|i: CursorImage| i@), (self.size * scale) as u32),
                ),
            ) <= u32::MAX,
            sum(
                delays(
                    self.icons@.map_values(|i: CursorImage| i@),
                    nearest_set(self.icons@.map_values(|i: CursorImage| i@), (self.size * scale) as u32),
                ),
            ) > 0,
        ensures
            ({
                let k = frame_index(
                    self.icons@.map_values(|i: CursorImage| i@),
                    nearest_set(self.icons@.map_values(|i: CursorImage| i@), (self.size * scale) as u32),
                    millis as int,
                );
                k < self.icons@.len() && r@ == self.icons@[k as int]@
            }),
    {
        let size = self.size * scale;
        frame(millis, size, &self.icons)
    }
}

} // verus!
