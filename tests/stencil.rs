use aetherling::stencil::{conv_generator, stencil_generator};

#[test]
fn test_conv_generator() {
    let input_data = 0..1920*1080;
    println!("length: {}", conv_generator(stencil_generator(1920, &input_data.collect())).len())
}

#[test]
fn full_image_convolution_length() {
    let input_data: Vec<i32> = (0..1920 * 1080).collect();
    assert_eq!(conv_generator(stencil_generator(1920, &input_data)).len(), 1920 * 1080);
}

#[test]
fn windows_read_the_marker_outside_the_image() {
    let inputs: Vec<i32> = (0..9).collect();
    let windows = stencil_generator(3, &inputs);
    assert_eq!(windows.len(), 9);
    assert_eq!(windows[8], vec![vec![0, 1, 2], vec![3, 4, 5], vec![6, 7, 8]]);
    assert_eq!(windows[0], vec![vec![253, 253, 253], vec![253, 253, 253], vec![253, 253, 0]]);
    assert_eq!(windows[5], vec![vec![253, 253, 253], vec![0, 1, 2], vec![3, 4, 5]]);
}

#[test]
fn incomplete_rows_are_dropped() {
    let inputs: Vec<i32> = (0..7).collect();
    assert_eq!(stencil_generator(3, &inputs).len(), 6);
}

#[test]
fn convolution_weights() {
    let inputs: Vec<i32> = (0..9).collect();
    let out = conv_generator(stencil_generator(3, &inputs));
    assert_eq!(out, vec![253, 253, 253, 253, 253, 253, 253, 253, 64]);
    let negative = vec![vec![vec![-1, -1, -1], vec![-1, -1, -1], vec![-1, -1, -1]]];
    assert_eq!(conv_generator(negative), vec![-16]);
    let with_marker = vec![vec![vec![1], vec![253]]];
    assert_eq!(conv_generator(with_marker), vec![253]);
}

#[test]
fn negative_row_size_gives_no_windows() {
    let inputs: Vec<i32> = (0..9).collect();
    assert!(stencil_generator(-3, &inputs).is_empty());
}
