use mandelbulb::grid::{intervals, Axis, ConfigError, Grid, InvalidArgument};
use mandelbulb::naming::{push_decimal, slice_path};
use mandelbulb::raster::{paint, render_slice, sample};
use mandelbulb::slice::{can_encode, compute_slice, encode_slice, Failure, SliceError, SliceFile};

const PNG_SIGNATURE: [u8; 8] = [137, 80, 78, 71, 13, 10, 26, 10];

fn decode(bytes: &[u8]) -> (u32, u32, Vec<u8>) {
    let decoder = png::Decoder::new(bytes);
    let (info, mut reader) = decoder.read_info().unwrap();
    let mut data = vec![0; info.buffer_size()];
    reader.next_frame(&mut data).unwrap();
    (info.width, info.height, data)
}

#[test]
fn slice_path_counts_from_zero() {
    assert_eq!(slice_path(0), "temp/0.png");
    assert_eq!(slice_path(4), "temp/4.png");
    assert_eq!(slice_path(9), "temp/9.png");
    assert_eq!(slice_path(10), "temp/10.png");
    assert_eq!(slice_path(999), "temp/999.png");
    assert_eq!(slice_path(1000), "temp/1000.png");
}

#[test]
fn slice_path_of_the_largest_index() {
    assert_eq!(slice_path(usize::MAX), format!("temp/{}.png", usize::MAX));
}

#[test]
fn slice_paths_are_pairwise_distinct() {
    let paths: Vec<String> = (0..1200).map(slice_path).collect();
    for i in 0..paths.len() {
        for j in (i + 1)..paths.len() {
            assert_ne!(paths[i], paths[j]);
        }
    }
}

#[test]
fn push_decimal_appends_to_what_is_there() {
    let mut text = String::from("n=");
    push_decimal(&mut text, 0);
    assert_eq!(text, "n=0");
    push_decimal(&mut text, 120);
    assert_eq!(text, "n=0120");
    push_decimal(&mut text, 7);
    assert_eq!(text, "n=01207");
}

#[test]
fn intervals_is_one_less_than_the_count() {
    assert_eq!(intervals(2), Ok(1));
    assert_eq!(intervals(5), Ok(4));
    assert_eq!(intervals(1000), Ok(999));
    assert_eq!(intervals(u32::MAX), Ok(u32::MAX - 1));
}

#[test]
fn intervals_needs_two_samples() {
    assert_eq!(intervals(0), Err(InvalidArgument { count: 0 }));
    assert_eq!(intervals(1), Err(InvalidArgument { count: 1 }));
}

#[test]
fn grid_keeps_its_step_counts() {
    let grid = Grid::new(2, 3, 1000).unwrap();
    assert_eq!(grid.x_steps(), 2);
    assert_eq!(grid.y_steps(), 3);
    assert_eq!(grid.z_steps(), 1000);
}

#[test]
fn step_count_of_one_is_a_config_error() {
    assert_eq!(Grid::new(1, 5, 5), Err(ConfigError { axis: Axis::X, steps: 1 }));
    assert_eq!(Grid::new(5, 1, 5), Err(ConfigError { axis: Axis::Y, steps: 1 }));
    assert_eq!(Grid::new(5, 5, 1), Err(ConfigError { axis: Axis::Z, steps: 1 }));
}

#[test]
fn step_count_of_zero_is_a_config_error() {
    assert_eq!(Grid::new(0, 5, 5), Err(ConfigError { axis: Axis::X, steps: 0 }));
    assert_eq!(Grid::new(5, 5, 0), Err(ConfigError { axis: Axis::Z, steps: 0 }));
}

#[test]
fn config_error_names_the_first_short_axis() {
    assert_eq!(Grid::new(1, 0, 1), Err(ConfigError { axis: Axis::X, steps: 1 }));
    assert_eq!(Grid::new(2, 0, 1), Err(ConfigError { axis: Axis::Y, steps: 0 }));
}

#[test]
fn paint_writes_three_bytes_per_cell() {
    assert_eq!(paint(&vec![true, false]), vec![255, 255, 255, 0, 0, 0]);
    assert_eq!(paint(&vec![false, true, true]), vec![0, 0, 0, 255, 255, 255, 255, 255, 255]);
    assert_eq!(paint(&vec![]), Vec::<u8>::new());
}

#[test]
fn painted_pixels_are_black_or_white() {
    let mask: Vec<bool> = (0..50).map(|i| i % 3 == 0 || i % 7 == 2).collect();
    let pixels = paint(&mask);
    assert_eq!(pixels.len(), 3 * mask.len());
    for (cell, pixel) in pixels.chunks(3).enumerate() {
        let tone = if mask[cell] { 255 } else { 0 };
        assert_eq!(pixel, [tone, tone, tone]);
    }
}

#[test]
fn sample_visits_y_outermost_and_z_innermost() {
    let visited = std::sync::Mutex::new(Vec::new());
    let mask = sample(7, 2, 3, &|i, j, k| {
        visited.lock().unwrap().push((i, j, k));
        k == 2
    });
    assert_eq!(mask, vec![false, false, true, false, false, true]);
    assert_eq!(
        visited.into_inner().unwrap(),
        vec![(7, 0, 0), (7, 0, 1), (7, 0, 2), (7, 1, 0), (7, 1, 1), (7, 1, 2)]
    );
}

#[test]
fn sample_of_an_empty_slice_is_empty() {
    assert_eq!(sample(0, 0, 3, &|_, _, _| true), Vec::<bool>::new());
    assert_eq!(sample(0, 3, 0, &|_, _, _| true), Vec::<bool>::new());
}

#[test]
fn render_slice_is_y_major() {
    let grid = Grid::new(2, 2, 3).unwrap();
    let pixels = render_slice(0, &grid, &|_, j, k| j == 1 && k == 0);
    assert_eq!(
        pixels,
        vec![0, 0, 0, 0, 0, 0, 0, 0, 0, 255, 255, 255, 0, 0, 0, 0, 0, 0]
    );
}

#[test]
fn compute_slice_encodes_the_sampled_mask() {
    let grid = Grid::new(2, 2, 3).unwrap();
    let file = compute_slice(1, &grid, &|_, j, k| j == 0 && k != 1).unwrap();
    assert_eq!(file.path, "temp/1.png");
    assert_eq!(&file.bytes[..8], &PNG_SIGNATURE);
    let (width, height, data) = decode(&file.bytes);
    assert_eq!((width, height), (2, 3));
    assert_eq!(
        data,
        vec![255, 255, 255, 0, 0, 0, 255, 255, 255, 0, 0, 0, 0, 0, 0, 0, 0, 0]
    );
}

#[test]
fn encoded_slice_is_no_copy_of_the_pixel_buffer() {
    let grid = Grid::new(2, 4, 4).unwrap();
    let pixels = render_slice(0, &grid, &|_, j, k| (j + k) % 2 == 0);
    let file = encode_slice(0, &grid, &pixels).unwrap();
    assert_ne!(file.bytes, pixels);
    assert_eq!(&file.bytes[..8], &PNG_SIGNATURE);
    assert_eq!(decode(&file.bytes), (4, 4, pixels));
}

#[test]
fn encoded_image_is_y_steps_wide_and_z_steps_high() {
    let grid = Grid::new(2, 3, 2).unwrap();
    let pixels: Vec<u8> = (0..18).collect();
    let file = encode_slice(5, &grid, &pixels).unwrap();
    assert_eq!(file.path, "temp/5.png");
    assert_eq!(decode(&file.bytes), (3, 2, pixels));
}

#[test]
fn encode_slice_rejects_a_buffer_of_the_wrong_length() {
    let grid = Grid::new(2, 2, 2).unwrap();
    let error = encode_slice(3, &grid, &vec![0; 11]).unwrap_err();
    assert_eq!(error.index, 3);
    assert_eq!(error.kind, Failure::Encoding);
    let error = encode_slice(4, &grid, &vec![]).unwrap_err();
    assert_eq!(error.index, 4);
    assert_eq!(error.kind, Failure::Encoding);
}

#[test]
fn grids_of_ordinary_size_can_be_encoded() {
    assert!(can_encode(&Grid::new(2, 2, 2).unwrap()));
    assert!(can_encode(&Grid::new(1000, 1000, 1000).unwrap()));
}

#[test]
fn grids_beyond_the_address_space_cannot_be_encoded() {
    let grid = Grid::new(2, u32::MAX, u32::MAX).unwrap();
    assert!(!can_encode(&grid));
    let error = encode_slice(0, &grid, &vec![]).unwrap_err();
    assert_eq!(
        error,
        SliceError {
            index: 0,
            kind: Failure::Encoding,
            detail: String::from("slice too large for this machine"),
        }
    );
    let error = compute_slice(9, &grid, &|_, _, _| true).unwrap_err();
    assert_eq!(error.index, 9);
    assert_eq!(error.detail, "slice too large for this machine");
}

#[test]
fn each_slice_asks_about_its_own_sample_of_x() {
    let grid = Grid::new(3, 2, 2).unwrap();
    let inside = |i: usize, j: usize, k: usize| i == 1 && j == k;
    let blank = decode(&compute_slice(0, &grid, &inside).unwrap().bytes);
    assert_eq!(blank, (2, 2, vec![0; 12]));
    let diagonal = decode(&compute_slice(1, &grid, &inside).unwrap().bytes);
    assert_eq!(diagonal, (2, 2, vec![255, 255, 255, 0, 0, 0, 0, 0, 0, 255, 255, 255]));
}

#[test]
fn slice_file_is_named_after_its_index() {
    let file = SliceFile::new(12, vec![1, 2, 3]);
    assert_eq!(file, SliceFile { path: String::from("temp/12.png"), bytes: vec![1, 2, 3] });
}

#[test]
fn rendering_twice_gives_the_same_bytes() {
    let grid = Grid::new(2, 7, 5).unwrap();
    let first = compute_slice(0, &grid, &|_, j, k| (j * j + k) % 3 == 1).unwrap();
    let second = compute_slice(0, &grid, &|_, j, k| (j * j + k) % 3 == 1).unwrap();
    assert_eq!(first.bytes, second.bytes);
    assert_eq!(first, second);
}

#[test]
fn a_second_run_succeeds_where_the_first_did() {
    let grid = Grid::new(4, 3, 5).unwrap();
    let inside = |i: usize, j: usize, k: usize| (i + 2 * j + k) % 4 == 0;
    for id in 0..4 {
        let first = compute_slice(id, &grid, &inside);
        let second = compute_slice(id, &grid, &inside);
        assert!(first.is_ok());
        assert_eq!(first, second);
    }
}

#[test]
fn a_buffer_that_was_refused_is_refused_again() {
    let grid = Grid::new(2, 2, 2).unwrap();
    let short = vec![255; 9];
    let first = encode_slice(1, &grid, &short).unwrap_err();
    let second = encode_slice(1, &grid, &short).unwrap_err();
    assert_eq!(first, second);
    assert_eq!(first.kind, Failure::Encoding);
}
