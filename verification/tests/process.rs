use yolo_rs::matrix::bboxes_to_ndarray;
use yolo_rs::process::{
    apply_confidence_and_scale, best_class, corner_iou, exceeds_threshold, greedy_suppression,
    non_maximum_supression, sort_by_confidence, vectorized_iou,
};
use yolo_rs::rect::{iou, Ratio, Rect};
use yolo_rs::{rank_of, ConfThresh, IOUThresh, InferenceResult, PostProcessingError};

fn as_f32(r: Ratio) -> f32 {
    r.numerator as f32 / r.denominator as f32
}

fn as_f64(r: &Ratio) -> f64 {
    r.numerator as f64 / r.denominator as f64
}

fn ratio(numerator: i128, denominator: i128) -> Ratio {
    Ratio { numerator, denominator }
}

fn matrix_f64(m: &Vec<Vec<Ratio>>) -> Vec<Vec<f64>> {
    m.iter().map(|row| row.iter().map(as_f64).collect()).collect()
}

fn detection(left: i32, top: i32, width: u32, height: u32, class: &str, conf: f32) -> InferenceResult {
    InferenceResult {
        b_box: Rect::at(left, top).of_size(width, height),
        class: class.to_string(),
        confidence: conf.to_bits(),
    }
}

#[test]
fn test_iou() {
    // top left (1,1)  bot right (3,3)
    let box1 = Rect::at(1, 1).of_size(2, 2);
    // top left (2,2)  bot right (3,3)
    let box2 = Rect::at(2, 2).of_size(1, 1);

    let iou_out = as_f32(iou(box1, box2));

    assert_eq!(iou_out, 0.25);

    // top left (1,1)  bot right (4,4)
    let box1 = Rect::at(1, 1).of_size(3, 3);
    // top left (2,2)  bot right (5,5)
    let box2 = Rect::at(2, 2).of_size(3, 3);
    let iou_out = as_f32(iou(box1, box2));

    assert_eq!(iou_out, 0.2857143);
}

#[test]
fn process_test_iou() {
    let box1 = Rect::at(1, 1).of_size(2, 2);
    let box2 = Rect::at(2, 2).of_size(1, 1);
    assert_eq!(iou(box1, box2), ratio(1, 4));
    assert_eq!(as_f32(iou(box1, box2)), 0.25);

    let box1 = Rect::at(1, 1).of_size(3, 3);
    let box2 = Rect::at(2, 2).of_size(3, 3);
    assert_eq!(iou(box1, box2), ratio(4, 14));
    assert_eq!(as_f32(iou(box1, box2)), 0.2857143);
}

// Testing with 2 bounding boxes
// format [x1,y1,x2,y2]
#[test]
fn test_vectorized_iou_2_boxes() {
    let box1: [i32; 4] = [1, 1, 3, 3];
    let box2: [i32; 4] = [2, 2, 3, 3];
    let all_boxes = vec![box1, box2];
    let expected_iou = vec![vec![1., 0.25], vec![0.25, 1.]];
    let actual_iou =
        vectorized_iou(bboxes_to_ndarray(all_boxes.clone()), bboxes_to_ndarray(all_boxes)).unwrap();

    assert_eq!(expected_iou, matrix_f64(&actual_iou));
}

#[test]
fn process_test_vectorized_iou_2_boxes() {
    let all_boxes = vec![[1, 1, 3, 3], [2, 2, 3, 3]];
    let actual_iou =
        vectorized_iou(bboxes_to_ndarray(all_boxes.clone()), bboxes_to_ndarray(all_boxes)).unwrap();
    assert_eq!(
        actual_iou,
        vec![vec![ratio(4, 4), ratio(1, 4)], vec![ratio(1, 4), ratio(1, 1)]]
    );
}

// Testing with 3 bounding boxes
// format [x1,y1,x2,y2]
#[test]
fn test_vectorized_iou() {
    let box1: [i32; 4] = [1, 1, 3, 3];
    let box2 = [2, 2, 3, 3];
    let box3 = [3, 3, 4, 4];
    let all_boxes = vec![box1, box2, box3];

    let expected_iou = vec![vec![1., 0.25, 0.], vec![0.25, 1.0, 0.0], vec![0., 0., 1.0]];
    let actual_iou =
        vectorized_iou(bboxes_to_ndarray(all_boxes.clone()), bboxes_to_ndarray(all_boxes)).unwrap();

    assert_eq!(expected_iou, matrix_f64(&actual_iou));
}

#[test]
fn process_test_vectorized_iou() {
    let all_boxes = vec![[1, 1, 3, 3], [2, 2, 3, 3], [3, 3, 4, 4]];
    let actual_iou =
        vectorized_iou(bboxes_to_ndarray(all_boxes.clone()), bboxes_to_ndarray(all_boxes)).unwrap();
    assert_eq!(
        actual_iou,
        vec![
            vec![ratio(4, 4), ratio(1, 4), ratio(0, 5)],
            vec![ratio(1, 4), ratio(1, 1), ratio(0, 2)],
            vec![ratio(0, 5), ratio(0, 2), ratio(1, 1)],
        ]
    );
}

#[test]
fn test_nms() {
    // Two heavily overlapping boxes of one class, one box far away.
    let results = vec![
        detection(0, 0, 11, 11, "person", 0.8),
        detection(1, 1, 11, 11, "person", 0.9),
        detection(100, 100, 11, 11, "person", 0.5),
    ];
    let kept = non_maximum_supression(&IOUThresh::new(1, 2), results).unwrap();
    assert_eq!(kept.len(), 2);
    assert_eq!(kept[0].confidence, 0.9f32.to_bits());
    assert_eq!(kept[0].b_box, Rect::at(1, 1).of_size(11, 11));
    assert_eq!(kept[1].confidence, 0.5f32.to_bits());
    assert_eq!(kept[1].class, "person");
}

#[test]
fn nms_three_detections_given_overlaps() {
    let results = vec![
        detection(0, 0, 10, 10, "car", 0.9),
        detection(0, 0, 10, 10, "car", 0.8),
        detection(0, 0, 10, 10, "car", 0.5),
    ];
    let one = ratio(1, 1);
    let matrix = vec![
        vec![one, ratio(6, 10), ratio(1, 10)],
        vec![ratio(6, 10), one, ratio(2, 10)],
        vec![ratio(1, 10), ratio(2, 10), one],
    ];
    let keep = greedy_suppression(&results, &matrix, &IOUThresh::new(1, 2));
    assert_eq!(keep, vec![true, false, true]);
}

#[test]
fn nms_reads_the_cell_above_the_diagonal() {
    // The stronger detection comes second; the pair is still judged by cell (0, 1).
    let results = vec![detection(0, 0, 10, 10, "car", 0.3), detection(0, 0, 10, 10, "car", 0.7)];
    let matrix = vec![vec![ratio(1, 1), ratio(9, 10)], vec![ratio(0, 1), ratio(1, 1)]];
    let keep = greedy_suppression(&results, &matrix, &IOUThresh::new(1, 2));
    assert_eq!(keep, vec![false, true]);
}

#[test]
fn nms_keeps_other_classes_and_equal_threshold() {
    let results = vec![
        detection(0, 0, 11, 11, "person", 0.9),
        detection(0, 0, 11, 11, "dog", 0.8),
        detection(0, 0, 11, 21, "person", 0.7),
    ];
    // Corner boxes: [0,0,10,10] and [0,0,10,20]: overlap 100 of 200, exactly one half.
    let kept = non_maximum_supression(&IOUThresh::new(1, 2), results.clone()).unwrap();
    assert_eq!(kept.len(), 3);
    let kept = non_maximum_supression(&IOUThresh::new(49, 100), results).unwrap();
    assert_eq!(kept.len(), 2);
    assert_eq!(kept[0].class, "person");
    assert_eq!(kept[1].class, "dog");
}

#[test]
fn nms_ties_keep_the_earlier_detection() {
    let results = vec![
        detection(5, 5, 20, 20, "cat", 0.6),
        detection(5, 5, 20, 20, "cat", 0.6),
    ];
    let kept = non_maximum_supression(&IOUThresh::new(1, 2), results).unwrap();
    assert_eq!(kept.len(), 1);
}

#[test]
fn nms_is_idempotent_on_an_example() {
    let results = vec![
        detection(0, 0, 11, 11, "person", 0.8),
        detection(1, 1, 11, 11, "person", 0.9),
        detection(2, 2, 11, 11, "person", 0.7),
        detection(40, 40, 11, 11, "person", 0.5),
        detection(41, 40, 11, 11, "dog", 0.4),
    ];
    let thresh = IOUThresh::new(45, 100);
    let once = non_maximum_supression(&thresh, results).unwrap();
    let twice = non_maximum_supression(&thresh, once.clone()).unwrap();
    assert_eq!(once.len(), 3);
    assert_eq!(once.len(), twice.len());
    for (a, b) in once.iter().zip(twice.iter()) {
        assert_eq!(a.b_box, b.b_box);
        assert_eq!(a.class, b.class);
        assert_eq!(a.confidence, b.confidence);
    }
}

#[test]
fn sorting_is_descending_and_stable() {
    let results = vec![
        detection(0, 0, 1, 1, "a", 0.3),
        detection(1, 0, 1, 1, "b", 0.9),
        detection(2, 0, 1, 1, "c", 0.3),
        detection(3, 0, 1, 1, "d", 0.5),
        detection(4, 0, 1, 1, "e", 0.9),
    ];
    let sorted = sort_by_confidence(&results);
    let order: Vec<&str> = sorted.iter().map(|r| r.class.as_str()).collect();
    assert_eq!(order, vec!["b", "e", "d", "a", "c"]);
    assert_eq!(sorted[2].b_box, Rect::at(3, 0).of_size(1, 1));
    assert_eq!(sorted[2].confidence, 0.5f32.to_bits());
    assert!(sort_by_confidence(&Vec::new()).is_empty());
}

#[test]
fn nms_gives_the_kept_detections_in_sorted_order() {
    let results = vec![
        detection(100, 100, 11, 11, "person", 0.5),
        detection(0, 0, 11, 11, "person", 0.8),
        detection(1, 1, 11, 11, "person", 0.9),
    ];
    let kept = non_maximum_supression(&IOUThresh::new(1, 2), results).unwrap();
    let confidences: Vec<u32> = kept.iter().map(|r| r.confidence).collect();
    assert_eq!(confidences, vec![0.9f32.to_bits(), 0.5f32.to_bits()]);
}

#[test]
fn nms_of_nothing_is_nothing() {
    let kept = non_maximum_supression(&IOUThresh::new(1, 2), Vec::new()).unwrap();
    assert!(kept.is_empty());
}

#[test]
fn iou_of_a_box_with_itself_is_one() {
    let b = Rect::at(-7, 3).of_size(13, 5);
    let r = iou(b, b);
    assert_eq!(r.numerator, r.denominator);
    assert_eq!(r, ratio(65, 65));
}

#[test]
fn iou_is_symmetric_on_an_example() {
    let a = Rect::at(0, 0).of_size(10, 4);
    let b = Rect::at(5, 2).of_size(10, 10);
    assert_eq!(iou(a, b), iou(b, a));
    assert_eq!(iou(a, b), ratio(10, 130));
}

#[test]
fn iou_of_disjoint_boxes_is_zero() {
    let a = Rect::at(0, 0).of_size(2, 2);
    let b = Rect::at(10, 10).of_size(2, 2);
    assert_eq!(a.intersect(b), None);
    assert_eq!(iou(a, b), ratio(0, 8));
}

#[test]
fn intersect_matches_the_documented_examples() {
    let r = Rect::at(4, 5).of_size(6, 7);
    assert_eq!(r.intersect(r), Some(r));
    assert_eq!(r.right(), 9);
    assert_eq!(r.bottom(), 11);
    let r = Rect::at(0, 0).of_size(5, 5);
    let s = Rect::at(1, 4).of_size(10, 12);
    assert_eq!(r.intersect(s), Some(Rect::at(1, 4).of_size(4, 1)));
}

#[test]
fn rect_try_new_checks_size_and_range() {
    assert_eq!(Rect::try_new(1, 2, 3, 4), Some(Rect { left: 1, top: 2, width: 3, height: 4 }));
    assert_eq!(Rect::try_new(1, 2, 0, 4), None);
    assert_eq!(Rect::try_new(1, 2, 3, 0), None);
    assert_eq!(Rect::try_new(i32::MAX, 0, 1, 1), None);
    assert_eq!(Rect::try_new(i32::MAX - 1, 0, 1, 1).map(|r| r.right()), Some(i32::MAX - 1));
    assert_eq!(Rect::try_new(-5, 0, u32::MAX, 1), None);
}

#[test]
fn corner_iou_clamps_before_multiplying() {
    // Disjoint on both axes: both differences are negative, the overlap is still zero.
    assert_eq!(corner_iou([0, 0, 2, 2], [5, 5, 7, 7]), ratio(0, 8));
    assert_eq!(corner_iou([1, 1, 3, 3], [2, 2, 3, 3]), ratio(1, 4));
    // An inverted box has a positive area product but covers nothing.
    assert_eq!(corner_iou([3, 3, 1, 1], [3, 3, 1, 1]), ratio(0, 8));
}

#[test]
fn vectorized_iou_refuses_unequal_shapes() {
    let a = bboxes_to_ndarray(vec![[0, 0, 1, 1], [0, 0, 2, 2]]);
    let b = bboxes_to_ndarray(vec![[0, 0, 1, 1]]);
    assert_eq!(vectorized_iou(a, b), Err(PostProcessingError::BroadcastArrayDims));
    let a = bboxes_to_ndarray(Vec::new());
    let b = bboxes_to_ndarray(Vec::new());
    assert_eq!(vectorized_iou(a, b), Ok(Vec::new()));
}

#[test]
fn threshold_comparison_is_strict() {
    let half = IOUThresh::new(1, 2);
    assert!(!exceeds_threshold(&ratio(1, 2), &half));
    assert!(exceeds_threshold(&ratio(51, 100), &half));
    assert!(!exceeds_threshold(&ratio(0, 0), &half));
    assert!(!exceeds_threshold(&ratio(1, 1), &IOUThresh::new(1, 1)));
}

#[test]
fn rank_follows_the_numeric_order() {
    assert!(rank_of(0.9f32.to_bits()) > rank_of(0.8f32.to_bits()));
    assert!(rank_of(0.0f32.to_bits()) > rank_of((-0.5f32).to_bits()));
    assert!(rank_of((-0.5f32).to_bits()) > rank_of((-1.5f32).to_bits()));
    assert_eq!(rank_of(1.0f32.to_bits()), 0x3f80_0000);
    assert_eq!(rank_of(0x8000_0000), -1);
}

fn row(cx: f32, cy: f32, w: f32, h: f32, scores: &[f32]) -> Vec<u32> {
    let mut v = vec![cx.to_bits(), cy.to_bits(), w.to_bits(), h.to_bits()];
    v.extend(scores.iter().map(|s| s.to_bits()));
    v
}

#[test]
fn best_class_takes_the_first_maximum() {
    assert_eq!(best_class(&row(0., 0., 1., 1., &[0.1, 0.7, 0.7, 0.2])), Some((1, 0.7f32.to_bits())));
    assert_eq!(best_class(&row(0., 0., 1., 1., &[0.3])), Some((0, 0.3f32.to_bits())));
    assert_eq!(best_class(&row(0., 0., 1., 1., &[])), None);
}

#[test]
fn filter_keeps_rows_at_or_above_the_threshold() {
    let classes = vec!["person".to_string(), "bicycle".to_string(), "car".to_string()];
    let rows = vec![
        row(10., 10., 4., 4., &[0.1, 0.2, 0.1]),
        row(20., 20., 4., 4., &[0.1, 0.5, 0.9]),
        row(30., 30., 4., 4., &[0.25, 0.1, 0.25]),
        row(40., 40., 4., 4., &[0.0, 0.0, 0.0]),
    ];
    // Boxes of skipped rows are never looked at, so they may be empty.
    let boxes = vec![(16, 16, 8, 8), (36, 36, 8, 8), (56, 56, 8, 8), (0, 0, 0, 0)];
    let out = apply_confidence_and_scale(&rows, &boxes, &ConfThresh::new(0.25f32.to_bits()), &classes)
        .unwrap();
    assert_eq!(out.len(), 2);
    assert_eq!(out[0].class, "car");
    assert_eq!(out[0].confidence, 0.9f32.to_bits());
    assert_eq!(out[0].b_box, Rect::at(36, 36).of_size(8, 8));
    assert_eq!(out[1].class, "person");
    assert_eq!(out[1].confidence, 0.25f32.to_bits());
    assert_eq!(out[1].b_box, Rect::at(56, 56).of_size(8, 8));
}

#[test]
fn filter_refuses_rows_it_cannot_decode() {
    let classes = vec!["person".to_string()];
    let thresh = ConfThresh::new(0.5f32.to_bits());
    let short = vec![vec![0u32; 4]];
    assert_eq!(
        apply_confidence_and_scale(&short, &vec![(0, 0, 1, 1)], &thresh, &classes).err(),
        Some(PostProcessingError::RowShape)
    );
    let unnamed = vec![row(1., 1., 1., 1., &[0.1, 0.9])];
    assert_eq!(
        apply_confidence_and_scale(&unnamed, &vec![(0, 0, 1, 1)], &thresh, &classes).err(),
        Some(PostProcessingError::RowShape)
    );
    let flat = vec![row(1., 1., 1., 0., &[0.9])];
    assert_eq!(
        apply_confidence_and_scale(&flat, &vec![(0, 0, 1, 0)], &thresh, &classes).err(),
        Some(PostProcessingError::RowShape)
    );
    assert_eq!(
        apply_confidence_and_scale(&flat, &Vec::new(), &thresh, &classes).err(),
        Some(PostProcessingError::RowShape)
    );
}

#[test]
fn error_messages() {
    assert_eq!(PostProcessingError::BroadcastArrayDims.message(), "Cannot broadcast to Array dimension");
    assert_eq!(PostProcessingError::RowShape.message(), "Cannot decode candidate row");
}
