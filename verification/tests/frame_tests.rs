use voxel_rt::frame::{
    assemble_strips, rows_per_strip, strip_bounds, worker_count, PixelBuf,
};

#[test]
fn worker_count_never_exceeds_rows() {
    assert_eq!(worker_count(8, 3), 3);
    assert_eq!(worker_count(2, 100), 2);
    assert_eq!(worker_count(1, 1), 1);
}

#[test]
fn rows_per_strip_rounds_up() {
    assert_eq!(rows_per_strip(10, 4), 3);
    assert_eq!(rows_per_strip(8, 4), 2);
    assert_eq!(rows_per_strip(5, 4), 2);
    assert_eq!(rows_per_strip(1, 1), 1);
}

#[test]
fn strips_are_contiguous_and_cover_all_rows() {
    let h: usize = 10;
    let workers: usize = 4;
    let r = rows_per_strip(h, workers);
    let mut expect_start: usize = 0;
    for t in 0..workers {
        let (y0, y1) = strip_bounds(t, r, h);
        assert_eq!(y0, expect_start);
        assert!(y1 <= h);
        expect_start = y1;
    }
    assert_eq!(expect_start, h);
}

#[test]
fn trailing_strips_may_be_empty() {
    // Five rows over four workers: two rows per strip, the last strip is
    // empty.
    let r = rows_per_strip(5, 4);
    assert_eq!(r, 2);
    assert_eq!(strip_bounds(0, r, 5), (0, 2));
    assert_eq!(strip_bounds(1, r, 5), (2, 4));
    assert_eq!(strip_bounds(2, r, 5), (4, 5));
    assert_eq!(strip_bounds(3, r, 5), (5, 5));
}

#[test]
fn pixel_buffer_reads_back_writes() {
    let mut b = PixelBuf::new_buf(3, 2);
    assert_eq!(b.get_pixel(1, 1), (0, 0, 0, 0));
    b.set_pixel(1, 1, (10, 20, 30, 255));
    b.set_pixel(2, 0, (1, 2, 3, 4));
    assert_eq!(b.get_pixel(1, 1), (10, 20, 30, 255));
    assert_eq!(b.get_pixel(2, 0), (1, 2, 3, 4));
    assert_eq!(b.get_pixel(0, 0), (0, 0, 0, 0));
}

fn shade(x: usize, y: usize) -> (u8, u8, u8, u8) {
    ((x * 40 + 7) as u8, (y * 50 + 3) as u8, (x + y) as u8, 255)
}

fn render_rows(width: usize, y0: usize, y1: usize) -> PixelBuf {
    let mut strip = PixelBuf::new_buf(width, y1 - y0);
    for y in y0..y1 {
        for x in 0..width {
            strip.set_pixel(x, y - y0, shade(x, y));
        }
    }
    strip
}

#[test]
fn assembly_matches_single_pass_for_several_worker_counts() {
    // The reassembled strip renders must be byte-identical to the
    // single-pass render, for one, two and eight workers.
    let (w, h) = (5usize, 8usize);
    let full = render_rows(w, 0, h);
    for workers in [1usize, 2, 8] {
        let n = worker_count(workers, h);
        let r = rows_per_strip(h, n);
        let mut strips = Vec::new();
        for t in 0..n {
            let (y0, y1) = strip_bounds(t, r, h);
            strips.push(render_rows(w, y0, y1));
        }
        let img = assemble_strips(w, h, r, &strips);
        assert_eq!(img.width, full.width);
        assert_eq!(img.height, full.height);
        assert_eq!(img.data, full.data);
    }
}

#[test]
fn assembly_is_deterministic() {
    let (w, h) = (4usize, 6usize);
    let n = worker_count(3, h);
    let r = rows_per_strip(h, n);
    let mut strips_a = Vec::new();
    let mut strips_b = Vec::new();
    for t in 0..n {
        let (y0, y1) = strip_bounds(t, r, h);
        strips_a.push(render_rows(w, y0, y1));
        strips_b.push(render_rows(w, y0, y1));
    }
    let first = assemble_strips(w, h, r, &strips_a);
    let second = assemble_strips(w, h, r, &strips_b);
    assert_eq!(first.data, second.data);
}
