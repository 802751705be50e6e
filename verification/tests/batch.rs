use line_batcher::batch::Batch;

#[test]
fn new_batch_is_empty() {
    let batch = Batch::new();
    assert!(batch.is_empty());
    assert!(batch.lines().is_empty());
    assert_eq!(batch.weight(80), 0);
}

#[test]
fn push_keeps_the_order() {
    let mut batch = Batch::new();
    batch.push("first".to_string());
    batch.push("".to_string());
    batch.push("third".to_string());
    assert!(!batch.is_empty());
    assert_eq!(batch.lines(), &["first".to_string(), "".to_string(), "third".to_string()]);
}

#[test]
fn weight_is_the_sum_of_the_lines() {
    let mut batch = Batch::new();
    batch.push("a".to_string());
    batch.push("".to_string());
    batch.push("b".repeat(80));
    batch.push("c".repeat(81));
    batch.push("d".repeat(400));
    assert_eq!(batch.weight(80), 1 + 1 + 1 + 2 + 5);
    assert_eq!(batch.weight(1), 1 + 1 + 80 + 81 + 400);
    assert_eq!(batch.weight(1000), 5);
}

#[test]
fn weight_counts_characters_not_bytes() {
    let mut batch = Batch::new();
    let line = "\u{e9}\u{e9}\u{4e16}\u{1f600}".to_string();
    assert_eq!(line.len(), 11);
    batch.push(line);
    assert_eq!(batch.weight(4), 1);
    assert_eq!(batch.weight(2), 2);
    assert_eq!(batch.weight(1), 4);
}

#[test]
fn a_line_that_fills_the_allowance_fits() {
    let mut batch = Batch::new();
    batch.push("a".to_string());
    batch.push("b".repeat(81));
    assert_eq!(batch.weight(80), 3);
    assert!(batch.can_accommodate(2, 80, 5));
    assert!(batch.can_accommodate(1, 80, 5));
    assert!(!batch.can_accommodate(3, 80, 5));
    assert!(batch.can_accommodate(0, 80, 3));
    assert!(!batch.can_accommodate(0, 80, 2));
}

#[test]
fn admission_looks_at_the_sum_not_at_the_line() {
    let mut batch = Batch::new();
    batch.push("x".repeat(160));
    assert!(!batch.can_accommodate(1, 80, 2));
    assert!(batch.can_accommodate(1, 80, 3));
    assert!(batch.can_accommodate(1, 160, 2));
}

#[test]
fn empty_batch_accommodates_up_to_the_allowance() {
    let batch = Batch::new();
    assert!(batch.can_accommodate(0, 80, 0));
    assert!(!batch.can_accommodate(1, 80, 0));
    assert!(batch.can_accommodate(7, 80, 7));
    assert!(batch.can_accommodate(usize::MAX, 80, usize::MAX));
}

#[test]
fn a_sum_beyond_the_machine_word_does_not_fit() {
    let mut batch = Batch::new();
    batch.push("a".to_string());
    assert!(!batch.can_accommodate(usize::MAX, 80, usize::MAX));
    assert!(batch.can_accommodate(usize::MAX - 1, 80, usize::MAX));
}
