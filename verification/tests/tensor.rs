use yolo_rs::tensor::{process_output_buffer_to_tensor, transpose, OUTPUT_OBJECTS};

#[test]
fn transpose_exchanges_rows_and_columns() {
    let v = vec![vec![1, 2, 3], vec![4, 5, 6]];
    assert_eq!(transpose(v), vec![vec![1, 4], vec![2, 5], vec![3, 6]]);
}

#[test]
fn transpose_moves_values_that_cannot_be_copied() {
    let v = vec![vec!["a".to_string(), "b".to_string()], vec!["c".to_string(), "d".to_string()]];
    assert_eq!(
        transpose(v),
        vec![vec!["a".to_string(), "c".to_string()], vec!["b".to_string(), "d".to_string()]]
    );
}

#[test]
fn transpose_twice_is_the_identity() {
    let v = vec![vec![1.5f32, 2.5, 3.5, 4.5], vec![5.5, 6.5, 7.5, 8.5], vec![9.5, 10.5, 11.5, 12.5]];
    assert_eq!(transpose(transpose(v.clone())), v);
}

#[test]
fn transpose_of_nothing_is_nothing() {
    let v: Vec<Vec<u8>> = Vec::new();
    assert_eq!(transpose(v), Vec::<Vec<u8>>::new());
    // Rows without columns vanish, so the way back is lost.
    let v: Vec<Vec<u8>> = vec![Vec::new(), Vec::new()];
    assert_eq!(transpose(v), Vec::<Vec<u8>>::new());
}

#[test]
fn transpose_drops_the_surplus_of_longer_rows() {
    let v = vec![vec![1, 2], vec![3, 4, 5]];
    assert_eq!(transpose(v), vec![vec![1, 3], vec![2, 4]]);
}

#[test]
fn output_buffer_becomes_one_row_per_object() {
    let attributes = 84;
    let buffer: Vec<f32> = (0..attributes * OUTPUT_OBJECTS).map(|k| k as f32).collect();
    let rows = process_output_buffer_to_tensor(&buffer);
    assert_eq!(rows.len(), OUTPUT_OBJECTS);
    assert_eq!(rows[0].len(), attributes);
    assert_eq!(rows[0][0], 0.0);
    assert_eq!(rows[0][1], 8400.0);
    assert_eq!(rows[17][3], (3 * 8400 + 17) as f32);
    assert_eq!(rows[8399][83], (83 * 8400 + 8399) as f32);
}

#[test]
fn output_buffer_ignores_a_partial_attribute() {
    let buffer: Vec<u16> = (0..OUTPUT_OBJECTS + 5).map(|k| (k % 1000) as u16).collect();
    let rows = process_output_buffer_to_tensor(&buffer);
    assert_eq!(rows.len(), OUTPUT_OBJECTS);
    assert_eq!(rows[8399], vec![399]);
    let short: Vec<u16> = vec![1, 2, 3];
    assert!(process_output_buffer_to_tensor(&short).is_empty());
}
