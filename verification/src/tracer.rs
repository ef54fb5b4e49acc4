//! The path integrator and the tile renderer.
//!
//! `color` is the recursive Monte Carlo estimate of radiance along a ray,
//! with a hard recursion cap; `render` partitions the image into square
//! blocks, traces every pixel of every block, and writes gamma-corrected
//! RGBA bytes into the framebuffer.  The block/line/offset addressing is
//! proved to tile the image exactly: every pixel index is covered by
//! exactly one (block, line, offset) triple.

use crate::camera::Camera;
use crate::fixed::{fx_add, fx_mul, fx_sub, Fx, RAW_MAX, SCALE};
use crate::hit::{object_hit_spec, Hitable};
use crate::ray::{Ray, RayV};
use crate::util::rand_unit;
use crate::vec3::{v3_add, v3_scale, v3_unit, Vec3, V3};
use vstd::arithmetic::div_mod::{
    lemma_fundamental_div_mod, lemma_fundamental_div_mod_converse, lemma_multiply_divide_lt,
};
use vstd::prelude::*;

verus! {

/// Shadow-acne epsilon in raw units (about 0.001): the least parameter at
/// which a hit counts, keeping a scattered ray from re-hitting its own
/// surface.
pub const T_MIN_RAW: i64 = 66;

/// `255.99` in raw units: the channel scale of the byte packing.
pub const CHANNEL_SCALE_RAW: i64 = 16776929;

/// The sky gradient: white blended toward sky blue by the vertical
/// component of the ray direction.
pub open spec fn sky_spec(r: RayV) -> V3 {
    let t = fx_mul(SCALE as int / 2, fx_add(v3_unit(r.direction).y, SCALE as int));
    v3_add(
        v3_scale(V3 { x: SCALE as int, y: SCALE as int, z: SCALE as int }, fx_sub(SCALE as int, t)),
        v3_scale(V3 { x: 32768, y: 45875, z: 65536 }, t),
    )
}

/// Recursive radiance estimate.  The miss case (the sky) and the
/// depth-capped case are deterministic and pinned exactly; a scattered
/// bounce multiplies the recursive estimate by the material's attenuation.
pub fn color(ray: Ray, world: &Hitable, depth: u32) -> (r: Vec3)
    requires
        ray.inv(),
        world.inv(),
        depth <= 50,
    ensures
        r.inv(),
        object_hit_spec(*world, ray@, T_MIN_RAW as int, RAW_MAX as int) is None ==> r@ == sky_spec(
            ray@,
        ),
        object_hit_spec(*world, ray@, T_MIN_RAW as int, RAW_MAX as int) is Some && depth >= 50
            ==> r@ == (V3 { x: 0int, y: 0int, z: 0int }),
    decreases 50 - depth,
{
    match world.hit(&ray, Fx::from_raw(T_MIN_RAW), Fx::from_raw(RAW_MAX)) {
        Some(hit) => {
            if depth >= 50 {
                Vec3::zero()
            } else {
                match hit.material.scatter(&ray, &hit) {
                    Some((scattered, attenuation)) => attenuation.mul(
                        color(scattered, world, depth + 1),
                    ),
                    None => Vec3::zero(),
                }
            }
        },
        None => {
            let t = Fx::from_raw(SCALE / 2).mul(ray.direction.unit().y.add(Fx::one()));
            Vec3::one().scale(Fx::one().sub(t)).add(
                Vec3::new(
                    Fx::from_raw(32768),
                    Fx::from_raw(45875),
                    Fx::from_raw(65536),
                ).scale(t),
            )
        },
    }
}

/// Raw channel value to a byte: scale by `255.99`, truncate, saturate.
pub open spec fn byte_spec(c: int) -> int {
    let m = fx_mul(c, CHANNEL_SCALE_RAW as int);
    if m <= 0 {
        0
    } else if m / (SCALE as int) >= 255 {
        255
    } else {
        m / (SCALE as int)
    }
}

fn channel_byte(c: Fx) -> (b: u8)
    requires
        c.inv(),
    ensures
        b as int == byte_spec(c@),
{
    let m = c.mul(Fx::from_raw(CHANNEL_SCALE_RAW));
    if m.raw <= 0 {
        0u8
    } else {
        let v = (m.raw as u64) / (SCALE as u64);
        if v >= 255 {
            255u8
        } else {
            v as u8
        }
    }
}

/// First byte index of the line that block `b`, line `l` writes, divided
/// by four: the pixel index where the line starts.
pub open spec fn line_pos_spec(w: int, bs: int, b: int, l: int) -> int {
    (b % (w / bs)) * bs + l * w + (b / (w / bs)) * w * bs
}

/// The triple addresses a block line pixel of a `w` by `h` image.
pub open spec fn tile_ok(w: int, h: int, bs: int, b: int, l: int, i: int) -> bool {
    &&& 0 <= b < (w * h) / (bs * bs)
    &&& 0 <= l < bs
    &&& 0 <= i < bs
}

pub open spec fn block_of(w: int, bs: int, p: int) -> int {
    ((p / w) / bs) * (w / bs) + (p % w) / bs
}

pub open spec fn line_of(w: int, bs: int, p: int) -> int {
    (p / w) % bs
}

pub open spec fn off_of(w: int, bs: int, p: int) -> int {
    (p % w) % bs
}

/// A well-formed tiling configuration: positive sizes, both dimensions
/// divisible by the block size.
pub open spec fn tiling_ok(w: int, h: int, bs: int) -> bool {
    1 <= bs && 1 <= w && 1 <= h && w % bs == 0 && h % bs == 0
}

/// Every pixel index is covered by a tile triple: the one given by
/// `block_of`, `line_of` and `off_of`.
pub proof fn lemma_tiling_covers(w: int, h: int, bs: int, p: int)
    requires
        tiling_ok(w, h, bs),
        0 <= p < w * h,
    ensures
        tile_ok(w, h, bs, block_of(w, bs, p), line_of(w, bs, p), off_of(w, bs, p)),
        line_pos_spec(w, bs, block_of(w, bs, p), line_of(w, bs, p)) + off_of(w, bs, p) == p,
{
    let bcl = w / bs;
    let hbl = h / bs;
    lemma_fundamental_div_mod(w, bs);
    lemma_fundamental_div_mod(h, bs);
    assert(w == bs * bcl && h == bs * hbl);
    assert(w * h == (bs * bs) * (bcl * hbl)) by (nonlinear_arith)
        requires
            w == bs * bcl,
            h == bs * hbl,
    ;
    assert(bs * bs > 0) by (nonlinear_arith)
        requires
            bs >= 1,
    ;
    vstd::arithmetic::div_mod::lemma_div_multiples_vanish(bcl * hbl, bs * bs);
    assert((w * h) / (bs * bs) == bcl * hbl);
    let y = p / w;
    let x = p % w;
    lemma_fundamental_div_mod(p, w);
    lemma_multiply_divide_lt(p, w, h);
    assert(0 <= y < h && 0 <= x < w);
    let by_ = y / bs;
    let ly = y % bs;
    let bx = x / bs;
    let ix = x % bs;
    lemma_fundamental_div_mod(y, bs);
    lemma_fundamental_div_mod(x, bs);
    assert(y < bs * hbl);
    lemma_multiply_divide_lt(y, bs, hbl);
    assert(x < bs * bcl);
    lemma_multiply_divide_lt(x, bs, bcl);
    assert(0 <= by_ < hbl && 0 <= bx < bcl && 0 <= ly < bs && 0 <= ix < bs);
    let b = by_ * bcl + bx;
    assert(b == block_of(w, bs, p));
    assert(0 <= b < bcl * hbl) by (nonlinear_arith)
        requires
            0 <= by_ < hbl,
            0 <= bx < bcl,
            b == by_ * bcl + bx,
    ;
    lemma_fundamental_div_mod_converse(b, bcl, by_, bx);
    assert(b / bcl == by_ && b % bcl == bx);
    assert(line_pos_spec(w, bs, b, ly) + ix == p) by (nonlinear_arith)
        requires
            line_pos_spec(w, bs, b, ly) == bx * bs + ly * w + by_ * w * bs,
            p == w * y + x,
            y == bs * by_ + ly,
            x == bs * bx + ix,
    ;
}

/// A tile triple addresses a pixel inside the image, and no other triple
/// addresses the same pixel: the addressed pixel determines the triple.
pub proof fn lemma_tiling_disjoint(w: int, h: int, bs: int, b: int, l: int, i: int)
    requires
        tiling_ok(w, h, bs),
        tile_ok(w, h, bs, b, l, i),
    ensures
        0 <= line_pos_spec(w, bs, b, l) + i < w * h,
        line_pos_spec(w, bs, b, l) + bs <= w * h,
        b == block_of(w, bs, line_pos_spec(w, bs, b, l) + i),
        l == line_of(w, bs, line_pos_spec(w, bs, b, l) + i),
        i == off_of(w, bs, line_pos_spec(w, bs, b, l) + i),
        0 <= (b % (w / bs)) * bs <= w * h,
        0 <= l * w <= w * h,
        0 <= (b / (w / bs)) * w <= w * h,
        0 <= (b / (w / bs)) * w * bs <= w * h,
{
    let bcl = w / bs;
    let hbl = h / bs;
    lemma_fundamental_div_mod(w, bs);
    lemma_fundamental_div_mod(h, bs);
    assert(w == bs * bcl && h == bs * hbl);
    assert(w * h == (bs * bs) * (bcl * hbl)) by (nonlinear_arith)
        requires
            w == bs * bcl,
            h == bs * hbl,
    ;
    assert(bs * bs > 0) by (nonlinear_arith)
        requires
            bs >= 1,
    ;
    vstd::arithmetic::div_mod::lemma_div_multiples_vanish(bcl * hbl, bs * bs);
    assert(b < bcl * hbl);
    let q = b / bcl;
    let r = b % bcl;
    lemma_fundamental_div_mod(b, bcl);
    lemma_multiply_divide_lt(b, bcl, hbl);
    assert(0 <= r < bcl && 0 <= q < hbl);
    let x = r * bs + i;
    let y = q * bs + l;
    assert(0 <= x < w && 0 <= y < h) by (nonlinear_arith)
        requires
            0 <= r < bcl,
            0 <= q < hbl,
            0 <= i < bs,
            0 <= l < bs,
            w == bs * bcl,
            h == bs * hbl,
            x == r * bs + i,
            y == q * bs + l,
    ;
    let p = line_pos_spec(w, bs, b, l) + i;
    assert(p == w * y + x) by (nonlinear_arith)
        requires
            p == (r * bs + l * w + q * w * bs) + i,
            x == r * bs + i,
            y == q * bs + l,
    ;
    assert(0 <= p < w * h) by (nonlinear_arith)
        requires
            p == w * y + x,
            0 <= x < w,
            0 <= y < h,
    ;
    assert(p + (bs - 1 - i) == w * y + (r * bs + bs - 1)) by (nonlinear_arith)
        requires
            p == w * y + x,
            x == r * bs + i,
    ;
    assert(r * bs + bs <= w) by (nonlinear_arith)
        requires
            0 <= r < bcl,
            w == bs * bcl,
            bs >= 1,
    ;
    assert(line_pos_spec(w, bs, b, l) + bs <= w * h) by (nonlinear_arith)
        requires
            line_pos_spec(w, bs, b, l) + i == w * y + x,
            x == r * bs + i,
            r * bs + bs <= w,
            0 <= y < h,
            0 <= i,
            w >= 1,
    ;
    lemma_fundamental_div_mod_converse(p, w, y, x);
    assert(p / w == y && p % w == x);
    lemma_fundamental_div_mod_converse(y, bs, q, l);
    lemma_fundamental_div_mod_converse(x, bs, r, i);
    assert(line_of(w, bs, p) == l && off_of(w, bs, p) == i);
    assert(block_of(w, bs, p) == q * bcl + r);
    assert(b == q * bcl + r);
    assert(0 <= r * bs <= w * h && 0 <= l * w <= w * h && 0 <= q * w <= w * h && 0 <= q * w * bs
        <= w * h) by (nonlinear_arith)
        requires
            0 <= r < bcl,
            0 <= q < hbl,
            0 <= l < bs,
            1 <= bs,
            1 <= w,
            1 <= h,
            w == bs * bcl,
            h == bs * hbl,
    ;
}

/// The alpha byte of pixel `p` in a framebuffer.
pub open spec fn alpha_byte(fb: Seq<u8>, p: int) -> u8 {
    fb[4 * p + 3]
}

/// The tile renderer: scene, camera and the framebuffer it fills.
pub struct Tracer {
    pub width: u32,
    pub height: u32,
    pub block_size: u32,
    pub buffer: Vec<u8>,
    pub world: Hitable,
    pub camera: Camera,
}

impl Tracer {
    /// Well-formed renderer: positive sizes, dimensions divisible by the
    /// block size, the pixel count within addressable range, and a
    /// framebuffer of exactly four bytes per pixel.
    pub open spec fn inv(self) -> bool {
        &&& 1 <= self.block_size
        &&& 1 <= self.width
        &&& 1 <= self.height
        &&& self.width % self.block_size == 0
        &&& self.height % self.block_size == 0
        &&& self.width as int * self.height as int * 4 <= u32::MAX as int
        &&& self.buffer@.len() == self.width as int * self.height as int * 4
        &&& self.world.inv()
        &&& self.camera.inv()
    }

    /// Build a renderer with a black framebuffer.
    pub fn new(width: u32, height: u32, block_size: u32, world: Hitable, camera: Camera) -> (r:
        Tracer)
        requires
            1 <= block_size,
            1 <= width,
            1 <= height,
            width % block_size == 0,
            height % block_size == 0,
            width as int * height as int * 4 <= u32::MAX as int,
            world.inv(),
            camera.inv(),
        ensures
            r.inv(),
            r.width == width,
            r.height == height,
            r.block_size == block_size,
            r.world == world,
            r.camera == camera,
            r.buffer@ == Seq::new(width as nat * height as nat * 4, |i: int| 0u8),
    {
        proof {
            assert(width as int * height as int <= u32::MAX as int);
        }
        let n: u32 = width * height * 4;
        let mut buffer: Vec<u8> = Vec::new();
        let mut i: u32 = 0;
        while i < n
            invariant
                i <= n,
                buffer@ =~= Seq::new(i as nat, |k: int| 0u8),
            decreases n - i,
        {
            buffer.push(0u8);
            i = i + 1;
        }
        proof {
            assert(buffer@ =~= Seq::new(width as nat * height as nat * 4, |k: int| 0u8));
        }
        Tracer { width, height, block_size, buffer, world, camera }
    }

    /// Copy the framebuffer into a caller-provided buffer of equal length.
    pub fn flush(&self, frame: &mut Vec<u8>)
        requires
            self.inv(),
            old(frame)@.len() == self.buffer@.len(),
        ensures
            final(frame)@ == self.buffer@,
    {
        let mut out: Vec<u8> = Vec::new();
        let mut i: usize = 0;
        while i < self.buffer.len()
            invariant
                i <= self.buffer@.len(),
                out@ =~= self.buffer@.subrange(0, i as int),
            decreases self.buffer@.len() - i,
        {
            out.push(self.buffer[i]);
            i = i + 1;
        }
        proof {
            assert(out@ =~= self.buffer@);
        }
        *frame = out;
    }

    /// Average `steps` jittered samples of a pixel and gamma-correct the
    /// result by a component-wise square root.
    fn trace(&self, x: u32, y: u32, steps: u32) -> (c: Vec3)
        requires
            self.inv(),
            steps >= 1,
        ensures
            c.inv(),
            c@.x >= 0 && c@.y >= 0 && c@.z >= 0,
    {
        let mut col = Vec3::zero();
        let mut s: u32 = 0;
        while s < steps
            invariant
                self.inv(),
                col.inv(),
            decreases steps - s,
        {
            let u = Fx::from_int(x as i64).add(rand_unit()).div(Fx::from_int(self.width as i64));
            let v = Fx::from_int(y as i64).add(rand_unit()).div(Fx::from_int(self.height as i64));
            let ray = self.camera.get_ray(u, v);
            col = col.add(color(ray, &self.world, 0));
            s = s + 1;
        }
        let avg = col.scale_div(Fx::from_int(steps as i64));
        Vec3::new(avg.x.sqrt(), avg.y.sqrt(), avg.z.sqrt())
    }

    /// Number of square blocks the image is partitioned into.
    pub fn block_count(&self) -> (r: u32)
        requires
            self.inv(),
        ensures
            r as int == (self.width as int * self.height as int) / (self.block_size as int
                * self.block_size as int),
    {
        let w = self.width;
        let h = self.height;
        let bs = self.block_size;
        proof {
            if bs > w {
                vstd::arithmetic::div_mod::lemma_small_mod(w as nat, bs as nat);
            }
            if bs > h {
                vstd::arithmetic::div_mod::lemma_small_mod(h as nat, bs as nat);
            }
            assert(bs <= w && bs <= h);
            assert(1 <= bs as int * bs as int <= w as int * h as int) by (nonlinear_arith)
                requires
                    1 <= bs as int <= w as int,
                    bs as int <= h as int,
            ;
        }
        (w * h) / (bs * bs)
    }

    /// Pixel index where the given block line begins; a full line of the
    /// block fits in the framebuffer from there.
    pub fn line_start(&self, b: u32, l: u32) -> (r: u32)
        requires
            self.inv(),
            (b as int) < (self.width as int * self.height as int) / (self.block_size as int
                * self.block_size as int),
            l < self.block_size,
        ensures
            r as int == line_pos_spec(
                self.width as int,
                self.block_size as int,
                b as int,
                l as int,
            ),
            r as int + self.block_size as int <= self.width as int * self.height as int,
    {
        let w = self.width;
        let h = self.height;
        let bs = self.block_size;
        proof {
            lemma_tiling_disjoint(w as int, h as int, bs as int, b as int, l as int, 0);
            if bs > w {
                vstd::arithmetic::div_mod::lemma_small_mod(w as nat, bs as nat);
            }
            vstd::arithmetic::div_mod::lemma_div_by_self(bs as int);
            vstd::arithmetic::div_mod::lemma_div_is_ordered(bs as int, w as int, bs as int);
        }
        let bcl: u32 = w / bs;
        (b % bcl) * bs + l * w + (b / bcl) * w * bs
    }

    /// Trace one line of a block into a fresh line buffer of four bytes
    /// per pixel, the alpha byte opaque.
    pub fn render_line(&self, b: u32, l: u32, steps: u32) -> (line: Vec<u8>)
        requires
            self.inv(),
            steps >= 1,
            (b as int) < (self.width as int * self.height as int) / (self.block_size as int
                * self.block_size as int),
            l < self.block_size,
        ensures
            line@.len() == self.block_size as int * 4,
            forall|pix: int|
                0 <= pix < self.block_size as int ==> #[trigger] line@[4 * pix + 3] == 0xffu8,
    {
        let w = self.width;
        let h = self.height;
        let bs = self.block_size;
        let line_pos = self.line_start(b, l);
        let mut line: Vec<u8> = Vec::new();
        let mut i: u32 = 0;
        while i < bs
            invariant
                self.inv(),
                self.width == w,
                self.height == h,
                self.block_size == bs,
                steps >= 1,
                i <= bs,
                (b as int) < (w as int * h as int) / (bs as int * bs as int),
                l < bs,
                line_pos as int == line_pos_spec(w as int, bs as int, b as int, l as int),
                line_pos as int + bs as int <= w as int * h as int,
                line@.len() == i as int * 4,
                forall|pix: int| 0 <= pix < i as int ==> #[trigger] line@[4 * pix + 3]
                    == 0xffu8,
            decreases bs - i,
        {
            proof {
                lemma_tiling_disjoint(w as int, h as int, bs as int, b as int, l as int, i as int);
                lemma_multiply_divide_lt(line_pos as int + i as int, w as int, h as int);
            }
            let p: u32 = line_pos + i;
            let x = p % w;
            let y = h - p / w;
            let c = self.trace(x, y, steps);
            line.push(channel_byte(c.x));
            line.push(channel_byte(c.y));
            line.push(channel_byte(c.z));
            line.push(0xffu8);
            i = i + 1;
        }
        line
    }

    /// Copy a line buffer into the framebuffer at the given pixel index;
    /// nothing outside the line\'s bytes changes.
    pub fn write_line(&mut self, pos: u32, line: &Vec<u8>)
        requires
            old(self).inv(),
            line@.len() == old(self).block_size as int * 4,
            pos as int + old(self).block_size as int <= old(self).width as int * old(
                self,
            ).height as int,
        ensures
            final(self).inv(),
            final(self).width == old(self).width,
            final(self).height == old(self).height,
            final(self).block_size == old(self).block_size,
            final(self).world == old(self).world,
            final(self).camera == old(self).camera,
            final(self).buffer@.len() == old(self).buffer@.len(),
            forall|k: int|
                0 <= k < old(self).buffer@.len() ==> final(self).buffer@[k] == (if pos as int * 4
                    <= k < pos as int * 4 + line@.len() {
                    line@[k - pos as int * 4]
                } else {
                    old(self).buffer@[k]
                }),
    {
        let bs = self.block_size;
        let base: usize = (pos as usize) * 4;
        let mut k: usize = 0;
        proof {
            assert(pos as int * 4 + bs as int * 4 <= self.buffer@.len());
        }
        while k < line.len()
            invariant
                self.inv(),
                self.width == old(self).width,
                self.height == old(self).height,
                self.block_size == old(self).block_size,
                self.world == old(self).world,
                self.camera == old(self).camera,
                self.buffer@.len() == old(self).buffer@.len(),
                line@.len() == bs as int * 4,
                base == pos as int * 4,
                base + line@.len() <= self.buffer@.len(),
                k <= line@.len(),
                forall|j: int|
                    0 <= j < self.buffer@.len() ==> self.buffer@[j] == (if base <= j < base
                        + k {
                        line@[j - base]
                    } else {
                        old(self).buffer@[j]
                    }),
            decreases line@.len() - k,
        {
            let v = line[k];
            self.buffer[base + k] = v;
            k = k + 1;
        }
    }

    /// One full sequential pass: trace every pixel of every block and
    /// write its RGBA bytes (alpha opaque) into the framebuffer.
    pub fn render(&mut self, steps: u32)
        requires
            old(self).inv(),
            steps >= 1,
        ensures
            final(self).inv(),
            final(self).width == old(self).width,
            final(self).height == old(self).height,
            final(self).block_size == old(self).block_size,
            final(self).world == old(self).world,
            final(self).camera == old(self).camera,
            final(self).buffer@.len() == old(self).buffer@.len(),
            forall|p: int|
                0 <= p < old(self).width as int * old(self).height as int ==> alpha_byte(
                    final(self).buffer@,
                    p,
                ) == 0xffu8,
    {
        let ghost wi = old(self).width as int;
        let ghost hi = old(self).height as int;
        let ghost bsi = old(self).block_size as int;
        let block_count = self.block_count();
        let mut b: u32 = 0;
        while b < block_count
            invariant
                self.inv(),
                self.width == old(self).width,
                self.height == old(self).height,
                self.block_size == old(self).block_size,
                self.world == old(self).world,
                self.camera == old(self).camera,
                self.buffer@.len() == old(self).buffer@.len(),
                steps >= 1,
                block_count as int == (self.width as int * self.height as int) / (
                self.block_size as int * self.block_size as int),
                wi == self.width as int && hi == self.height as int && bsi
                    == self.block_size as int,
                forall|p: int|
                    0 <= p < wi * hi && block_of(wi, bsi, p) < b as int ==> alpha_byte(
                        self.buffer@,
                        p,
                    ) == 0xffu8,
            decreases block_count - b,
        {
            let mut l: u32 = 0;
            while l < self.block_size
                invariant
                    self.inv(),
                    self.width == old(self).width,
                    self.height == old(self).height,
                    self.block_size == old(self).block_size,
                    self.world == old(self).world,
                    self.camera == old(self).camera,
                    self.buffer@.len() == old(self).buffer@.len(),
                    steps >= 1,
                    b < block_count,
                    block_count as int == (self.width as int * self.height as int) / (
                    self.block_size as int * self.block_size as int),
                    wi == self.width as int && hi == self.height as int && bsi
                        == self.block_size as int,
                    forall|p: int|
                        0 <= p < wi * hi && (block_of(wi, bsi, p) < b as int || (block_of(
                            wi,
                            bsi,
                            p,
                        ) == b as int && line_of(wi, bsi, p) < l as int)) ==> alpha_byte(
                            self.buffer@,
                            p,
                        ) == 0xffu8,
                decreases self.block_size - l,
            {
                let line = self.render_line(b, l, steps);
                let pos = self.line_start(b, l);
                let ghost before = self.buffer@;
                self.write_line(pos, &line);
                proof {
                    assert forall|p: int|
                        0 <= p < wi * hi && (block_of(wi, bsi, p) < b as int || (block_of(
                            wi,
                            bsi,
                            p,
                        ) == b as int && line_of(wi, bsi, p) < l as int + 1)) implies alpha_byte(
                        self.buffer@,
                        p,
                    ) == 0xffu8 by {
                        if pos as int <= p < pos as int + bsi {
                            // this line wrote the pixel, alpha included
                            assert(pos as int * 4 <= 4 * p + 3 < pos as int * 4 + line@.len());
                            assert(line@[4 * (p - pos as int) + 3] == 0xffu8);
                            assert(self.buffer@[4 * p + 3] == line@[4 * p + 3 - pos as int * 4]);
                        } else {
                            // untouched by this line: it was already opaque,
                            // since a pixel of this very block line would lie
                            // inside the written range
                            assert(!(pos as int * 4 <= 4 * p + 3 < pos as int * 4 + line@.len()));
                            assert(self.buffer@[4 * p + 3] == before[4 * p + 3]);
                            if block_of(wi, bsi, p) == b as int && line_of(wi, bsi, p) == l as int {
                                lemma_tiling_covers(wi, hi, bsi, p);
                                assert(false);
                            }
                            assert(alpha_byte(before, p) == 0xffu8);
                        }
                    }
                }
                l = l + 1;
            }
            proof {
                assert forall|p: int|
                    0 <= p < wi * hi && block_of(wi, bsi, p) < b as int + 1 implies alpha_byte(
                    self.buffer@,
                    p,
                ) == 0xffu8 by {
                    vstd::arithmetic::div_mod::lemma_mod_division_less_than_divisor(p / wi, bsi);
                }
            }
            b = b + 1;
        }
        proof {
            assert forall|p: int| 0 <= p < wi * hi implies alpha_byte(self.buffer@, p) == 0xffu8 by {
                lemma_tiling_covers(wi, hi, bsi, p);
            }
        }
    }
}

} // verus!
