use worldgen::scalar::Scalar;
use worldgen::viewport::Viewport;
use worldgen::world::World;

fn s(v: f32) -> Scalar {
    Scalar::from_bits(v.to_bits())
}

fn sum(a: Scalar, b: Scalar) -> Scalar {
    s(f32::from_bits(a.to_bits()) + f32::from_bits(b.to_bits()))
}

fn view(x: f32, y: f32, width: f32, height: f32) -> Viewport {
    Viewport { x: s(x), y: s(y), width: s(width), height: s(height) }
}

#[test]
fn start_up_viewport() {
    let v = Viewport::new();
    assert_eq!(v, view(2.0, 2.0, 15.0, 6.0));
    assert_eq!(v.right(&sum), s(17.0));
    assert_eq!(v.bottom(&sum), s(8.0));
}

#[test]
fn viewport_edges_are_sums() {
    let v = view(1.5, -2.0, 0.25, 10.0);
    assert_eq!(v.right(&sum), s(1.75));
    assert_eq!(v.bottom(&sum), s(8.0));
}

#[test]
fn viewport_contains_its_inside_only() {
    let v = Viewport::new();
    assert!(v.contains(s(3.0), s(3.0), &sum));
    assert!(v.contains(s(16.99), s(7.99), &sum));
    assert!(!v.contains(s(2.0), s(3.0), &sum));
    assert!(!v.contains(s(17.0), s(3.0), &sum));
    assert!(!v.contains(s(3.0), s(2.0), &sum));
    assert!(!v.contains(s(3.0), s(8.0), &sum));
    assert!(!v.contains(s(-3.0), s(3.0), &sum));
    assert!(!v.contains(s(f32::NAN), s(3.0), &sum));
    assert!(!v.contains(s(3.0), s(f32::NAN), &sum));
}

#[test]
fn chunk_coordinate_divides_the_truncated_point() {
    let world = World::new();
    assert_eq!(world.chunk_coord(s(0.0), s(0.0)), (0, 0));
    assert_eq!(world.chunk_coord(s(3.99), s(4.0)), (0, 1));
    assert_eq!(world.chunk_coord(s(17.0), s(8.0)), (4, 2));
    assert_eq!(world.chunk_coord(s(79.5), s(49.5)), (19, 12));
    assert_eq!(world.chunk_coord(s(-5.0), s(f32::NAN)), (0, 0));
    assert_eq!(world.chunk_coord(s(1.0e20), s(400.0)), (u32::MAX / 4, 100));
}

#[test]
fn chunk_index_is_row_major() {
    let world = World::new();
    assert_eq!(world.chunk_idx(s(0.0), s(0.0)), 0);
    assert_eq!(world.chunk_idx(s(4.0), s(0.0)), 1);
    assert_eq!(world.chunk_idx(s(0.0), s(4.0)), 20);
    assert_eq!(world.chunk_idx(s(17.0), s(8.0)), 44);
    assert_eq!(world.chunk_idx(s(79.0), s(49.0)), 12 * 20 + 19);
}

#[test]
fn chunk_index_brings_outside_points_inside() {
    let world = World::new();
    assert_eq!(world.chunk_idx(s(80.0), s(0.0)), 19);
    assert_eq!(world.chunk_idx(s(1.0e20), s(1.0e20)), 12 * 20 + 19);
    assert_eq!(world.chunk_idx(s(-1.0), s(-1.0)), 0);
    assert_eq!(world.chunk_idx(s(f32::NAN), s(f32::INFINITY)), 12 * 20);
}

#[test]
fn chunks_of_the_start_up_viewport() {
    let world = World::new();
    let got = world.chunks_in_viewport(&Viewport::new(), &sum);
    let mut want: Vec<u32> = Vec::new();
    for y in 0..=2u32 {
        for x in 0..=4u32 {
            want.push(y * 20 + x);
        }
    }
    assert_eq!(got, want);
}

#[test]
fn chunks_of_a_viewport_inside_one_chunk() {
    let world = World::new();
    assert_eq!(world.chunks_in_viewport(&view(8.5, 12.5, 1.0, 1.0), &sum), vec![3 * 20 + 2]);
}

#[test]
fn chunks_include_those_partly_covered() {
    let world = World::with_size(10, 10, 5).unwrap();
    assert_eq!(world.chunks_in_viewport(&view(4.0, 4.0, 2.0, 2.0), &sum), vec![0, 1, 2, 3]);
    assert_eq!(world.chunks_in_viewport(&view(4.0, 0.0, 2.0, 2.0), &sum), vec![0, 1]);
    assert_eq!(world.chunks_in_viewport(&view(0.0, 4.0, 2.0, 2.0), &sum), vec![0, 2]);
}

#[test]
fn full_viewport_covers_every_chunk_once_in_order() {
    for (width, height, chunk) in [(10u32, 10u32, 5u32), (80, 50, 4), (12, 8, 4), (7, 3, 1), (9, 5, 2)] {
        let world = World::with_size(width, height, chunk).unwrap();
        let got = world.chunks_in_viewport(&view(0.0, 0.0, width as f32, height as f32), &sum);
        let count = ((width + chunk - 1) / chunk) * ((height + chunk - 1) / chunk);
        let want: Vec<u32> = (0..count).collect();
        assert_eq!(got, want);
    }
}

#[test]
fn oversized_viewport_is_cut_off_at_the_grid() {
    let world = World::with_size(10, 10, 5).unwrap();
    assert_eq!(world.chunks_in_viewport(&view(-3.0, -3.0, 100.0, 100.0), &sum), vec![0, 1, 2, 3]);
    assert_eq!(
        world.chunks_in_viewport(&view(0.0, 0.0, f32::INFINITY, f32::INFINITY), &sum),
        vec![0, 1, 2, 3]
    );
    assert_eq!(world.chunks_in_viewport(&view(5.0, 5.0, 100.0, 100.0), &sum), vec![3]);
}

#[test]
fn viewport_past_the_grid_touches_no_chunk() {
    let world = World::with_size(10, 10, 5).unwrap();
    assert_eq!(world.chunks_in_viewport(&view(10.0, 0.0, 5.0, 5.0), &sum), Vec::<u32>::new());
    assert_eq!(world.chunks_in_viewport(&view(0.0, 10.0, 5.0, 5.0), &sum), Vec::<u32>::new());
}

#[test]
fn viewport_of_negative_extent_touches_no_chunk() {
    let world = World::with_size(20, 20, 5).unwrap();
    assert_eq!(world.chunks_in_viewport(&view(12.0, 12.0, -10.0, 3.0), &sum), Vec::<u32>::new());
}

#[test]
fn chunk_side_that_does_not_divide_clips_the_last_chunks() {
    let world = World::with_size(10, 7, 4).unwrap();
    assert_eq!(world.chunk_idx(s(9.0), s(6.0)), 5);
    assert_eq!(world.chunk_idx(s(8.0), s(0.0)), 2);
    assert_eq!(world.chunk_idx(s(0.0), s(4.0)), 3);
    let got = world.chunks_in_viewport(&view(0.0, 0.0, 10.0, 7.0), &sum);
    assert_eq!(got, vec![0, 1, 2, 3, 4, 5]);
}

#[test]
fn chunk_side_larger_than_the_grid_gives_one_chunk() {
    let world = World::with_size(3, 2, 8).unwrap();
    assert_eq!(world.chunk_idx(s(2.0), s(1.0)), 0);
    assert_eq!(world.chunks_in_viewport(&view(0.0, 0.0, 3.0, 2.0), &sum), vec![0]);
}

#[test]
fn chunks_between_takes_the_corners_directly() {
    let world = World::new();
    assert_eq!(world.chunks_between(s(2.0), s(2.0), s(9.0), s(3.0)), vec![0, 1, 2]);
    assert_eq!(world.chunks_between(s(2.0), s(2.0), s(3.0), s(9.0)), vec![0, 20, 40]);
}

#[test]
fn viewport_as_wide_as_the_grid_covers_every_chunk() {
    for (width, height, chunk) in [(10u32, 10u32, 5u32), (80, 50, 4), (64, 64, 8), (9, 5, 2), (1, 1, 1)] {
        let world = World::with_size(width, height, chunk).unwrap();
        let whole = Viewport {
            x: Scalar::zero(),
            y: Scalar::zero(),
            width: Scalar::from_u32(width),
            height: Scalar::from_u32(height),
        };
        let count = ((width + chunk - 1) / chunk) * ((height + chunk - 1) / chunk);
        let want: Vec<u32> = (0..count).collect();
        assert_eq!(world.chunks_in_viewport(&whole, &sum), want);
    }
}
