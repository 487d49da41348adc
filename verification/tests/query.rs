use rowquery::query::{Comparison, Condition, Operand, Query};
use rowquery::value::DataType;

#[test]
fn query() {
    let t = |s: &str| -> Operand { Operand::Const(DataType::from_text(s)) };
    let d = vec![
        DataType::from_text("a"),
        DataType::from_text("b"),
        DataType::from_text("c"),
    ];
    let c_good = Condition {
        cmp: Comparison::Equal(t("a")),
        column: 0,
    };
    let c_bad = Condition {
        cmp: Comparison::Equal(t("a")),
        column: 1,
    };
    assert_eq!(c_good.matches(&d), true);
    assert_eq!(c_bad.matches(&d), false);
    let q_good = Query::new(&[true, false, true], vec![c_good.clone()]);
    let q_bad = Query::new(&[true, false, true], vec![c_bad.clone()]);
    let q_both = Query::new(&[true, false, true], vec![c_good, c_bad]);
    assert_eq!(
        q_good.feed(&d),
        Some(vec![DataType::from_text("a"), DataType::from_text("c")])
    );
    assert_eq!(q_bad.feed(&d), None);
    assert_eq!(q_both.feed(&d), None);
}

#[test]
fn wildcard_equality() {
    let x = DataType::from_text("x");
    let n = DataType::Number(5);
    assert!(DataType::Wild == x);
    assert!(x == DataType::Wild);
    assert!(DataType::Wild == n);
    assert!(n == DataType::Wild);
    assert!(DataType::Wild == DataType::Wild);
}

#[test]
fn non_transitive_equality() {
    let a = DataType::from_text("x");
    let b = DataType::Number(1);
    assert!(DataType::Wild == a);
    assert!(DataType::Wild == b);
    assert!(a != b);
}

#[test]
fn projection_length_and_order() {
    let q = Query::new(&[false, true, true, false], vec![]);
    let row = vec![
        DataType::Number(0),
        DataType::Number(1),
        DataType::Number(2),
        DataType::Number(3),
    ];
    let p = q.project(&row);
    assert_eq!(p.len(), 2);
    assert_eq!(p, vec![DataType::Number(1), DataType::Number(2)]);
}

#[test]
fn empty_conditions_always_match() {
    let q = Query::new(&[true, true], vec![]);
    let row = vec![DataType::Number(1), DataType::Number(2)];
    assert_eq!(
        q.feed(&row),
        Some(vec![DataType::Number(1), DataType::Number(2)])
    );
}

#[test]
fn binding_order() {
    let mut q = Query::new(
        &[true, true, true],
        vec![
            Condition {
                column: 0,
                cmp: Comparison::Equal(Operand::Const(DataType::Wild)),
            },
            Condition {
                column: 1,
                cmp: Comparison::Equal(Operand::Const(DataType::from_text("z"))),
            },
            Condition {
                column: 2,
                cmp: Comparison::Equal(Operand::Const(DataType::Wild)),
            },
        ],
    );
    assert_eq!(q.parameters_needed(), 2);
    let v0 = Operand::Const(DataType::Number(10));
    let v1 = Operand::Const(DataType::Number(20));
    q.fill(vec![v0, v1]);
    match &q.having[0].cmp {
        Comparison::Equal(Operand::Const(DataType::Number(n))) => assert_eq!(*n, 10),
        _ => panic!("first placeholder did not take the first parameter"),
    }
    match &q.having[1].cmp {
        Comparison::Equal(Operand::Const(DataType::Text(s))) => assert_eq!(s, "z"),
        _ => panic!("the bound condition was touched"),
    }
    match &q.having[2].cmp {
        Comparison::Equal(Operand::Const(DataType::Number(n))) => assert_eq!(*n, 20),
        _ => panic!("second placeholder did not take the second parameter"),
    }
    assert_eq!(q.parameters_needed(), 0);
}

#[test]
fn filled_query_filters() {
    let mut q = Query::new(
        &[true, false],
        vec![Condition {
            column: 0,
            cmp: Comparison::Equal(Operand::Const(DataType::Wild)),
        }],
    );
    q.fill(vec![Operand::Const(DataType::Number(7))]);
    let row1 = vec![DataType::Number(7), DataType::Number(1)];
    let row2 = vec![DataType::Number(8), DataType::Number(1)];
    assert_eq!(q.feed(&row1), Some(vec![DataType::Number(7)]));
    assert_eq!(q.feed(&row2), None);
}

#[test]
fn unbound_placeholder_matches_all() {
    let q = Query::new(
        &[true],
        vec![Condition {
            column: 0,
            cmp: Comparison::Equal(Operand::Const(DataType::Wild)),
        }],
    );
    assert_eq!(
        q.feed(&vec![DataType::Number(1)]),
        Some(vec![DataType::Number(1)])
    );
}

#[test]
fn column_reference_operand() {
    let c = Condition {
        column: 0,
        cmp: Comparison::Equal(Operand::Column(1)),
    };
    let q = Query::new(&[true, true], vec![c]);
    let same = vec![DataType::Number(3), DataType::Number(3)];
    let diff = vec![DataType::Number(3), DataType::Number(4)];
    assert!(q.feed(&same).is_some());
    assert_eq!(q.feed(&diff), None);
}

#[test]
fn conversions() {
    assert_eq!(DataType::from(5i64).as_integer(), 5);
    assert_eq!(DataType::from(6i32).as_integer(), 6);
    assert_eq!(DataType::from(String::from("hi")).as_text(), "hi");
    assert!(DataType::Wild.is_none());
    assert!(!DataType::Number(0).is_none());
    assert!(!DataType::from_text("").is_none());
}
