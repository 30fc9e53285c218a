use testgen::format::{IOElement, LineElement, Scalar};
use testgen::generator::Generator;

fn float(x: f64) -> Scalar {
    Scalar::Float(x.to_string())
}

#[test]
fn test_line_macro() {
    let mut contents = Vec::new();
    contents.push(LineElement::Scalar(Scalar::UInt(1)));
    assert_eq!(
        IOElement::Line(contents),
        IOElement::Line(vec![LineElement::Scalar(Scalar::UInt(1)),])
    );

    let mut contents = Vec::new();
    contents.push(LineElement::Scalar(Scalar::UInt(1)));
    contents.push(LineElement::Scalar(Scalar::Int(2)));
    assert_eq!(
        IOElement::Line(contents),
        IOElement::Line(vec![
            LineElement::Scalar(Scalar::UInt(1)),
            LineElement::Scalar(Scalar::Int(2)),
        ])
    );
}

#[test]
fn test_raw_line_macro() {
    let line = IOElement::RawLine(String::from("hello"));
    assert_eq!(line, IOElement::RawLine("hello".to_string()));
    assert_ne!(line, IOElement::RawLine("hello ".to_string()));
    assert_eq!(line.generate(), Some("hello".to_string()));
}

#[test]
fn test_generate_empty_line_macro() {
    let line = IOElement::EmptyLine;
    assert_ne!(line, IOElement::RawLine(String::new()));
    assert_eq!(line.generate(), Some(String::new()));
}

#[test]
fn test_v_macro() {
    let v: Vec<Scalar> = vec![1].into_iter().map(Scalar::from).collect();
    assert_eq!(v, vec![Scalar::Int(1)]);
    let v: Vec<Scalar> = vec![1.5, 2.3].into_iter().map(float).collect();
    assert_eq!(v, vec![float(1.5), float(2.3)]);
    assert_eq!(v, vec![Scalar::Float("1.5".to_string()), Scalar::Float("2.3".to_string())]);
    let v: Vec<Scalar> = vec!['H', 'E'].into_iter().map(Scalar::from).collect();
    assert_eq!(v, vec![Scalar::Char('H'), Scalar::Char('E')]);
    let v: Vec<Scalar> = vec!["hello", "world"].into_iter().map(Scalar::from).collect();
    assert_eq!(
        v,
        vec![
            Scalar::String("hello".to_string()),
            Scalar::String("world".to_string())
        ]
    );
}

#[test]
fn test_ls_macro() {
    assert_eq!(LineElement::Scalar(Scalar::from(1)), LineElement::Scalar(Scalar::Int(1)));
    assert_eq!(LineElement::Scalar(float(1.5)), LineElement::Scalar(Scalar::Float("1.5".to_string())));
    assert_eq!(LineElement::Scalar(Scalar::from('H')), LineElement::Scalar(Scalar::Char('H')));
}

#[test]
fn test_lv_macro() {
    let v: Vec<Scalar> = vec![1].into_iter().map(Scalar::from).collect();
    assert_eq!(LineElement::UnboundedVec(v), LineElement::UnboundedVec(vec![Scalar::Int(1)]));
    let v: Vec<Scalar> = vec![1.5, 2.3].into_iter().map(float).collect();
    assert_eq!(
        LineElement::UnboundedVec(v),
        LineElement::UnboundedVec(vec![Scalar::Float("1.5".to_string()), Scalar::Float("2.3".to_string())])
    );
}

#[test]
fn test_lines_macro() {
    let a: Vec<Scalar> = vec![1, 2, 3].into_iter().map(Scalar::from).collect();
    let b: Vec<Scalar> = vec![4, 5, 6].into_iter().map(Scalar::from).collect();
    assert_eq!(
        IOElement::LinesUnbounded(vec![a, b]),
        IOElement::LinesUnbounded(vec![
            vec![Scalar::Int(1), Scalar::Int(2), Scalar::Int(3)],
            vec![Scalar::Int(4), Scalar::Int(5), Scalar::Int(6)],
        ])
    );
}

#[test]
fn test_raw_lines_macro() {
    assert_eq!(
        IOElement::RawLinesUnbounded(vec![String::from("hello"), String::from("world")]),
        IOElement::RawLinesUnbounded(vec!["hello".to_string(), "world".to_string()])
    )
}

#[test]
fn conversions_pick_the_matching_kind() {
    assert_eq!(Scalar::from(7u32), Scalar::UInt(7));
    assert_eq!(Scalar::from(7u64), Scalar::UInt(7));
    assert_eq!(Scalar::from(-7i64), Scalar::Int(-7));
    assert_eq!(Scalar::from(true), Scalar::Bool(true));
    assert_eq!(Scalar::from(String::from("x")), Scalar::String("x".to_string()));
}
