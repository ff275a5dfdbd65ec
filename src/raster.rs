use vstd::prelude::*;
use vstd::arithmetic::div_mod::lemma_fundamental_div_mod_converse;
use crate::settings::{RenderSettings, task_count};

verus! {

/// A pixel of the image: `column` counts from the left edge, `row` from the
/// bottom edge.
#[derive(Debug, Clone, Copy, PartialEq, Eq, Structural)]
pub struct Pixel {
    pub column: u64,
    pub row: u64,
}

/// Number of pixels in a `width` by `height` image.
pub open spec fn pixel_count(width: u64, height: u64) -> int {
    width * height
}

/// Whether `p` lies inside a `width` by `height` image.
pub open spec fn in_image(width: u64, height: u64, p: Pixel) -> bool {
    p.column < width && p.row < height
}

/// The pixel written in position `k` of the output: rows from the top of the
/// image down, each row from left to right.
pub open spec fn pixel_at_spec(width: u64, height: u64, k: int) -> Pixel {
    Pixel { column: (k % width as int) as u64, row: (height - 1 - k / width as int) as u64 }
}

/// The position in the output at which pixel `p` is written.
pub open spec fn emission_index_spec(width: u64, height: u64, p: Pixel) -> int {
    (height - 1 - p.row) * width + p.column
}

/// The identifier of sample `sample` of the pixel written in position
/// `pixel_index`: one identifier for each pair.
pub open spec fn sample_id_spec(samples: u64, pixel_index: int, sample: int) -> int {
    pixel_index * samples + sample
}

/// The seed of a sample task: the global seed plus the task's identifier,
/// modulo 2^64.
pub open spec fn task_seed_spec(global_seed: u64, task: u64) -> int {
    (global_seed + task) % 0x1_0000_0000_0000_0000
}

proof fn lemma_index_round_trip(width: u64, height: u64, k: int)
    requires
        width >= 1,
        height >= 1,
        0 <= k < pixel_count(width, height),
    ensures
        in_image(width, height, pixel_at_spec(width, height, k)),
        emission_index_spec(width, height, pixel_at_spec(width, height, k)) == k,
        0 <= k / (width as int) < height,
        0 <= k % (width as int) < width,
        k == (k / width as int) * width + k % width as int,
{
    let w = width as int;
    let h = height as int;
    let q = k / w;
    let r = k % w;
    assert(k == q * w + r && 0 <= r < w) by {
        vstd::arithmetic::div_mod::lemma_fundamental_div_mod(k, w);
        vstd::arithmetic::div_mod::lemma_mod_bound(k, w);
    }
    assert(0 <= q < h) by (nonlinear_arith)
        requires
            k == q * w + r,
            0 <= r < w,
            0 <= k < w * h,
            w >= 1,
    ;
}

proof fn lemma_pixel_round_trip(width: u64, height: u64, p: Pixel)
    requires
        width >= 1,
        height >= 1,
        in_image(width, height, p),
    ensures
        0 <= emission_index_spec(width, height, p) < pixel_count(width, height),
        pixel_at_spec(width, height, emission_index_spec(width, height, p)) == p,
{
    let w = width as int;
    let h = height as int;
    let q = h - 1 - p.row;
    let k = q * w + p.column;
    assert(0 <= k < w * h) by (nonlinear_arith)
        requires
            k == q * w + p.column,
            0 <= q < h,
            0 <= p.column < w,
    ;
    lemma_fundamental_div_mod_converse(k, w, q, p.column as int);
}

/// The output visits every pixel of the image once: position `k` holds a
/// pixel of the image whose position is `k`, and each pixel of the image
/// stands at the position that `emission_index_spec` gives.
pub proof fn lemma_emission_order_is_bijective(s: RenderSettings)
    requires
        s.wf(),
    ensures
        forall|k: int|
            0 <= k < pixel_count(s.image_width, s.image_height) ==> {
                &&& in_image(s.image_width, s.image_height, #[trigger] pixel_at_spec(s.image_width, s.image_height, k))
                &&& emission_index_spec(s.image_width, s.image_height, pixel_at_spec(s.image_width, s.image_height, k)) == k
            },
        forall|p: Pixel|
            in_image(s.image_width, s.image_height, p) ==> {
                &&& 0 <= #[trigger] emission_index_spec(s.image_width, s.image_height, p) < pixel_count(s.image_width, s.image_height)
                &&& pixel_at_spec(s.image_width, s.image_height, emission_index_spec(s.image_width, s.image_height, p)) == p
            },
{
    assert forall|k: int|
        0 <= k < pixel_count(s.image_width, s.image_height) implies {
            &&& in_image(s.image_width, s.image_height, #[trigger] pixel_at_spec(s.image_width, s.image_height, k))
            &&& emission_index_spec(s.image_width, s.image_height, pixel_at_spec(s.image_width, s.image_height, k)) == k
        } by {
        lemma_index_round_trip(s.image_width, s.image_height, k);
    }
    assert forall|p: Pixel|
        in_image(s.image_width, s.image_height, p) implies {
            &&& 0 <= #[trigger] emission_index_spec(s.image_width, s.image_height, p) < pixel_count(s.image_width, s.image_height)
            &&& pixel_at_spec(s.image_width, s.image_height, emission_index_spec(s.image_width, s.image_height, p)) == p
        } by {
        lemma_pixel_round_trip(s.image_width, s.image_height, p);
    }
}

/// Rows come out from the top of the image down, and within a row the
/// columns from left to right.
pub proof fn lemma_emission_order_is_row_major(s: RenderSettings, k1: int, k2: int)
    requires
        s.wf(),
        0 <= k1 < k2 < pixel_count(s.image_width, s.image_height),
    ensures
        ({
            let p1 = pixel_at_spec(s.image_width, s.image_height, k1);
            let p2 = pixel_at_spec(s.image_width, s.image_height, k2);
            p1.row > p2.row || (p1.row == p2.row && p1.column < p2.column)
        }),
{
    let w = s.image_width as int;
    lemma_index_round_trip(s.image_width, s.image_height, k1);
    lemma_index_round_trip(s.image_width, s.image_height, k2);
    let q1 = k1 / w;
    let q2 = k2 / w;
    let r1 = k1 % w;
    let r2 = k2 % w;
    assert(q1 <= q2) by {
        vstd::arithmetic::div_mod::lemma_div_is_ordered(k1, k2, w);
    }
    if q1 == q2 {
        assert(r1 < r2);
    } else {
        assert(s.image_height - 1 - q1 > s.image_height - 1 - q2);
    }
}

/// Distinct (pixel, sample) pairs get distinct sample identifiers, and all
/// of them lie below the render's task count.
pub proof fn lemma_sample_ids_are_distinct(
    s: RenderSettings,
    pixel1: int,
    sample1: int,
    pixel2: int,
    sample2: int,
)
    requires
        s.wf(),
        0 <= pixel1 < pixel_count(s.image_width, s.image_height),
        0 <= pixel2 < pixel_count(s.image_width, s.image_height),
        0 <= sample1 < s.samples_per_pixel,
        0 <= sample2 < s.samples_per_pixel,
    ensures
        0 <= sample_id_spec(s.samples_per_pixel, pixel1, sample1) < task_count(s.image_width, s.image_height, s.samples_per_pixel),
        (pixel1 != pixel2 || sample1 != sample2) ==> sample_id_spec(s.samples_per_pixel, pixel1, sample1)
            != sample_id_spec(s.samples_per_pixel, pixel2, sample2),
{
    lemma_sample_id_bound(s, pixel1, sample1);
    let n = s.samples_per_pixel as int;
    if sample_id_spec(s.samples_per_pixel, pixel1, sample1) == sample_id_spec(s.samples_per_pixel, pixel2, sample2) {
        let x = pixel1 * n + sample1;
        lemma_fundamental_div_mod_converse(x, n, pixel1, sample1);
        lemma_fundamental_div_mod_converse(x, n, pixel2, sample2);
    }
}

proof fn lemma_sample_id_bound(s: RenderSettings, pixel: int, sample: int)
    requires
        s.wf(),
        0 <= pixel < pixel_count(s.image_width, s.image_height),
        0 <= sample < s.samples_per_pixel,
    ensures
        0 <= sample_id_spec(s.samples_per_pixel, pixel, sample) < task_count(s.image_width, s.image_height, s.samples_per_pixel),
{
    let n = s.samples_per_pixel as int;
    let w = s.image_width as int;
    let h = s.image_height as int;
    assert(0 <= pixel * n + sample < w * h * n) by (nonlinear_arith)
        requires
            0 <= pixel < w * h,
            0 <= sample < n,
    ;
}

proof fn lemma_pixel_count_fits(s: RenderSettings)
    requires
        s.wf(),
    ensures
        pixel_count(s.image_width, s.image_height) <= task_count(s.image_width, s.image_height, s.samples_per_pixel),
        pixel_count(s.image_width, s.image_height) <= u64::MAX,
{
    let n = s.samples_per_pixel as int;
    let w = s.image_width as int;
    let h = s.image_height as int;
    assert(w * h <= w * h * n) by (nonlinear_arith)
        requires
            w >= 0,
            h >= 0,
            n >= 1,
    ;
}

/// Two tasks of one render with distinct identifiers get distinct seeds.
pub proof fn lemma_task_seeds_are_distinct(global_seed: u64, task1: u64, task2: u64)
    requires
        task1 != task2,
    ensures
        task_seed_spec(global_seed, task1) != task_seed_spec(global_seed, task2),
{
}

/// The pixel written in position `k` of the output.
pub fn pixel_at(s: &RenderSettings, k: u64) -> (r: Pixel)
    requires
        s.wf(),
        k < pixel_count(s.image_width, s.image_height),
    ensures
        r == pixel_at_spec(s.image_width, s.image_height, k as int),
        in_image(s.image_width, s.image_height, r),
{
    proof {
        lemma_index_round_trip(s.image_width, s.image_height, k as int);
    }
    let row = s.image_height - 1 - k / s.image_width;
    Pixel { column: k % s.image_width, row }
}

/// The position in the output at which pixel `p` is written.
pub fn emission_index(s: &RenderSettings, p: Pixel) -> (r: u64)
    requires
        s.wf(),
        in_image(s.image_width, s.image_height, p),
    ensures
        r == emission_index_spec(s.image_width, s.image_height, p),
        r < pixel_count(s.image_width, s.image_height),
{
    proof {
        lemma_pixel_round_trip(s.image_width, s.image_height, p);
        lemma_pixel_count_fits(*s);
    }
    let q = s.image_height - 1 - p.row;
    proof {
        assert(q * s.image_width <= emission_index_spec(s.image_width, s.image_height, p));
        assert(q * s.image_width + p.column == emission_index_spec(s.image_width, s.image_height, p));
    }
    q * s.image_width + p.column
}

/// Every pixel of the image in the order in which the output holds them.
pub fn emission_order(s: &RenderSettings) -> (r: Vec<Pixel>)
    requires
        s.wf(),
    ensures
        r@.len() == pixel_count(s.image_width, s.image_height),
        forall|k: int| 0 <= k < r@.len() ==> r@[k] == pixel_at_spec(s.image_width, s.image_height, k),
{
    let mut order: Vec<Pixel> = Vec::new();
    let mut rows_done: u64 = 0;
    while rows_done < s.image_height
        invariant
            s.wf(),
            rows_done <= s.image_height,
            order@.len() == rows_done * s.image_width,
            forall|k: int| 0 <= k < order@.len() ==> order@[k] == pixel_at_spec(s.image_width, s.image_height, k),
        decreases s.image_height - rows_done,
    {
        let row = s.image_height - 1 - rows_done;
        let mut column: u64 = 0;
        while column < s.image_width
            invariant
                s.wf(),
                rows_done < s.image_height,
                row == s.image_height - 1 - rows_done,
                column <= s.image_width,
                order@.len() == rows_done * s.image_width + column,
                forall|k: int| 0 <= k < order@.len() ==> order@[k] == pixel_at_spec(s.image_width, s.image_height, k),
            decreases s.image_width - column,
        {
            proof {
                let w = s.image_width as int;
                let k = rows_done * w + column;
                lemma_fundamental_div_mod_converse(k, w, rows_done as int, column as int);
            }
            order.push(Pixel { column, row });
            column = column + 1;
        }
        proof {
            assert((rows_done + 1) * s.image_width == rows_done * s.image_width + s.image_width) by (nonlinear_arith);
        }
        rows_done = rows_done + 1;
    }
    proof {
        assert(s.image_height * s.image_width == s.image_width * s.image_height) by (nonlinear_arith);
    }
    order
}

/// The identifier of sample `sample` of the pixel written in position
/// `pixel_index`.
pub fn sample_id(s: &RenderSettings, pixel_index: u64, sample: u64) -> (r: u64)
    requires
        s.wf(),
        pixel_index < pixel_count(s.image_width, s.image_height),
        sample < s.samples_per_pixel,
    ensures
        r == sample_id_spec(s.samples_per_pixel, pixel_index as int, sample as int),
        r < task_count(s.image_width, s.image_height, s.samples_per_pixel),
{
    proof {
        lemma_sample_id_bound(*s, pixel_index as int, sample as int);
        assert(pixel_index * s.samples_per_pixel <= pixel_index * s.samples_per_pixel + sample);
    }
    pixel_index * s.samples_per_pixel + sample
}

/// The seed of the random stream of a sample task.
pub fn task_seed(global_seed: u64, task: u64) -> (r: u64)
    ensures
        r == task_seed_spec(global_seed, task),
{
    global_seed.wrapping_add(task)
}

/// The seeds of the random streams of the samples of the pixel written in
/// position `pixel_index`, one per sample, in sample order.
pub fn sample_seeds(s: &RenderSettings, global_seed: u64, pixel_index: u64) -> (r: Vec<u64>)
    requires
        s.wf(),
        pixel_index < pixel_count(s.image_width, s.image_height),
    ensures
        r@.len() == s.samples_per_pixel,
        forall|i: int|
            0 <= i < r@.len() ==> r@[i] == task_seed_spec(
                global_seed,
                sample_id_spec(s.samples_per_pixel, pixel_index as int, i) as u64,
            ),
{
    let mut seeds: Vec<u64> = Vec::new();
    let mut sample: u64 = 0;
    while sample < s.samples_per_pixel
        invariant
            s.wf(),
            pixel_index < pixel_count(s.image_width, s.image_height),
            sample <= s.samples_per_pixel,
            seeds@.len() == sample,
            forall|i: int|
                0 <= i < seeds@.len() ==> seeds@[i] == task_seed_spec(
                    global_seed,
                    sample_id_spec(s.samples_per_pixel, pixel_index as int, i) as u64,
                ),
        decreases s.samples_per_pixel - sample,
    {
        let id = sample_id(s, pixel_index, sample);
        seeds.push(task_seed(global_seed, id));
        sample = sample + 1;
    }
    seeds
}

} // verus!
