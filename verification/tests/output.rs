use line_batcher::batch::Batch;
use line_batcher::output::{batch_content, batch_file_name};
use line_batcher::partitioner::partition;

#[test]
fn file_names_count_from_zero() {
    assert_eq!(batch_file_name(0), "batch_0.txt");
    assert_eq!(batch_file_name(1), "batch_1.txt");
    assert_eq!(batch_file_name(9), "batch_9.txt");
    assert_eq!(batch_file_name(10), "batch_10.txt");
    assert_eq!(batch_file_name(109), "batch_109.txt");
    assert_eq!(batch_file_name(1000), "batch_1000.txt");
}

#[test]
fn file_name_of_every_small_index() {
    for index in 0usize..2000 {
        assert_eq!(batch_file_name(index), format!("batch_{}.txt", index));
    }
    assert_eq!(batch_file_name(usize::MAX), format!("batch_{}.txt", usize::MAX));
}

#[test]
fn content_of_an_empty_batch_is_empty() {
    assert_eq!(batch_content(&Batch::new()), "");
}

#[test]
fn content_of_one_line_has_no_break() {
    let mut batch = Batch::new();
    batch.push("only".to_string());
    assert_eq!(batch_content(&batch), "only");
}

#[test]
fn content_has_breaks_between_lines_only() {
    let mut batch = Batch::new();
    batch.push("a".to_string());
    batch.push("".to_string());
    batch.push("b c".to_string());
    batch.push("".to_string());
    assert_eq!(batch_content(&batch), "a\n\nb c\n");
}

#[test]
fn content_keeps_carriage_returns() {
    let mut batch = Batch::new();
    batch.push("a\r".to_string());
    batch.push("b".to_string());
    assert_eq!(batch_content(&batch), "a\r\nb");
}

#[test]
fn contents_of_the_batches_of_three_lines() {
    let lines = vec!["a".to_string(), "b".to_string(), "c".repeat(81)];
    let batches = partition(&lines, 80, vec![2, 1]).unwrap();
    let contents: Vec<String> = batches.iter().map(batch_content).collect();
    assert_eq!(contents, vec!["a\nb".to_string(), "c".repeat(81)]);
}
