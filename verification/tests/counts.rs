use splotrs::EvaluationCounts;

#[test]
fn default_counts_are_zero() {
    let counts = EvaluationCounts::default();
    assert_eq!(counts.objective, 0);
    assert_eq!(counts.gradient, 0);
    assert_eq!(counts.hessian, 0);
    assert_eq!(
        counts,
        EvaluationCounts { objective: 0, gradient: 0, hessian: 0 }
    );
}

#[test]
fn counts_compare_by_fields() {
    let a = EvaluationCounts { objective: 3, gradient: 2, hessian: 0 };
    let b = a;
    assert_eq!(a, b);
    assert_ne!(a, EvaluationCounts { objective: 3, gradient: 2, hessian: 1 });
}
