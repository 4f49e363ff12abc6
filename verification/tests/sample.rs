use docs_auditor::sample::{add, dummy, subtract};

#[test]
fn sample_arithmetic() {
    assert_eq!(add(2, 3), 5);
    assert_eq!(subtract(2, 3), -1);
    assert_eq!(add(-7, 7), 0);
    dummy();
}
