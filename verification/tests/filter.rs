use meshwarp::numeric::is_numeric;
use meshwarp::record::{classify_record, render_vertex, Record};
use meshwarp::text::split_tokens;
use meshwarp::vector::{parse_line_fields, parse_vector_fields, ParseError};
use meshwarp::warp::{default_warp_lines, plan_warp, IntVec3, WarpPlan};

#[test]
fn tokens_of_plain_line() {
    let toks = split_tokens("v 1 2 3");
    let toks: Vec<&str> = toks.iter().map(|t| t.as_str()).collect();
    assert_eq!(toks, vec!["v", "1", "2", "3"]);
}

#[test]
fn tokens_collapse_whitespace() {
    let toks = split_tokens("  v \t 1.5\t\t-2  3e1  ");
    let toks: Vec<&str> = toks.iter().map(|t| t.as_str()).collect();
    assert_eq!(toks, vec!["v", "1.5", "-2", "3e1"]);
}

#[test]
fn tokens_of_empty_line() {
    assert!(split_tokens("").is_empty());
    assert!(split_tokens("   \t ").is_empty());
}

#[test]
fn numeric_shapes_accepted() {
    for s in [
        "1", "-1.5", "+.5", "5.", ".5", "0", "007", "1e10", "1E-3", "-2e+4", "3.25e2", "inf",
        "-inf", "Infinity", "+infinity", "nan", "NaN", "NAN",
    ] {
        assert!(is_numeric(s), "expected numeric: {s:?}");
    }
}

#[test]
fn numeric_shapes_rejected() {
    for s in [
        "", ".", "+", "-", "e5", "1e", "1e+", "+-3", "1.2.3", "1 ", " 1", "0x10", "1f", "--1",
        "1e5.5", "infin", "1,0", "nanx", "in", "1.5.e2",
    ] {
        assert!(!is_numeric(s), "expected non-numeric: {s:?}");
    }
}

#[test]
fn numeric_shape_agrees_with_float_parsing() {
    for s in [
        "1", "-1.5", "+.5", "5.", ".5", "1e10", "1E-3", "-2e+4", "inf", "Infinity", "nan", "",
        ".", "e5", "1e", "1e+", "+-3", "1.2.3", "1 ", " 1", "0x10", "1f", "--1", "1e5.5",
        "infin", "1,0", "3.25e2", "007", "1.e3", "+nan", "-Infinity", "INF", "1e-0", "1e99999",
        "nan(0x1)", "1_0", "+", "-", ".e3", "E4", "2E", "0.0", "-0",
    ] {
        assert_eq!(
            is_numeric(s),
            s.parse::<f32>().is_ok(),
            "shape and float parsing disagree on {s:?}"
        );
    }
}

#[test]
fn classify_vertex_record() {
    match classify_record("v 1 2.5 -3e1") {
        Record::Vertex { tag, x, y, z } => {
            assert_eq!(tag, "v");
            assert_eq!(x, "1");
            assert_eq!(y, "2.5");
            assert_eq!(z, "-3e1");
        },
        Record::Passthrough(_) => panic!("expected a vertex record"),
    }
}

#[test]
fn classify_accepts_long_tag() {
    match classify_record("vertex 0 0 1") {
        Record::Vertex { tag, .. } => assert_eq!(tag, "vertex"),
        Record::Passthrough(_) => panic!("expected a vertex record"),
    }
}

#[test]
fn classify_passthrough_lines_unchanged() {
    for line in [
        "",
        "# comment",
        "f 1 2 3",
        "v 1 2",
        "v 1 2 3 4",
        "v a b c",
        "v 1 2 x",
        "vert 1 2 3",
        "  ",
    ] {
        match classify_record(line) {
            Record::Passthrough(orig) => assert_eq!(orig, line),
            Record::Vertex { .. } => panic!("expected passthrough for {line:?}"),
        }
    }
}

#[test]
fn classify_ignores_extra_whitespace() {
    match classify_record("\tv  1   2 \t 3 ") {
        Record::Vertex { tag, x, y, z } => {
            assert_eq!((tag.as_str(), x.as_str(), y.as_str(), z.as_str()), ("v", "1", "2", "3"));
        },
        Record::Passthrough(_) => panic!("expected a vertex record"),
    }
}

#[test]
fn render_joins_with_single_spaces() {
    assert_eq!(render_vertex("v", "1", "2.5", "-3"), "v 1 2.5 -3");
}

#[test]
fn render_output_classifies_back() {
    let rendered = render_vertex("vertex", "0.5", "-1e2", "inf");
    match classify_record(&rendered) {
        Record::Vertex { tag, x, y, z } => {
            assert_eq!(
                (tag.as_str(), x.as_str(), y.as_str(), z.as_str()),
                ("vertex", "0.5", "-1e2", "inf")
            );
        },
        Record::Passthrough(_) => panic!("rendered record should classify as a vertex"),
    }
}

#[test]
fn vector_fields_split() {
    let f = parse_vector_fields("1,-2.5,3e1").expect("three numeric fields");
    assert_eq!((f.x.as_str(), f.y.as_str(), f.z.as_str()), ("1", "-2.5", "3e1"));
}

#[test]
fn vector_field_count_errors() {
    assert_eq!(parse_vector_fields("1,2").unwrap_err(), ParseError::VectorFieldCount);
    assert_eq!(parse_vector_fields("1,2,3,4").unwrap_err(), ParseError::VectorFieldCount);
    assert_eq!(parse_vector_fields("").unwrap_err(), ParseError::VectorFieldCount);
    assert_eq!(parse_vector_fields("1").unwrap_err(), ParseError::VectorFieldCount);
}

#[test]
fn vector_format_errors() {
    assert_eq!(parse_vector_fields("1,a,3").unwrap_err(), ParseError::VectorFormat);
    assert_eq!(parse_vector_fields(",2,3").unwrap_err(), ParseError::VectorFormat);
    assert_eq!(parse_vector_fields("1,2,").unwrap_err(), ParseError::VectorFormat);
    assert_eq!(parse_vector_fields("1, 2,3").unwrap_err(), ParseError::VectorFormat);
}

#[test]
fn line_fields_split() {
    let f = parse_line_fields("0,0,0 1,0,0").expect("two vectors");
    assert_eq!((f.origin.x.as_str(), f.origin.y.as_str(), f.origin.z.as_str()), ("0", "0", "0"));
    assert_eq!((f.heading.x.as_str(), f.heading.y.as_str(), f.heading.z.as_str()), ("1", "0", "0"));
}

#[test]
fn line_vector_count_errors() {
    assert_eq!(parse_line_fields("0,0,0").unwrap_err(), ParseError::LineVectorCount);
    assert_eq!(parse_line_fields("0,0,0 1,0,0 2,0,0").unwrap_err(), ParseError::LineVectorCount);
    assert_eq!(parse_line_fields("").unwrap_err(), ParseError::LineVectorCount);
}

#[test]
fn line_vector_errors_propagate_in_order() {
    assert_eq!(parse_line_fields("0,0 1,0,0").unwrap_err(), ParseError::VectorFieldCount);
    assert_eq!(parse_line_fields("0,0,x 1,0").unwrap_err(), ParseError::VectorFormat);
    assert_eq!(parse_line_fields("0,0,0 1,x,0").unwrap_err(), ParseError::VectorFormat);
}

#[test]
fn parse_error_messages() {
    assert_eq!(
        ParseError::VectorFieldCount.message(),
        "Each vector must have exactly three coordinates"
    );
    assert_eq!(ParseError::VectorFormat.message(), "Invalid vector format");
    assert_eq!(
        ParseError::LineVectorCount.message(),
        "Each line must be defined by exactly two vectors"
    );
}

#[test]
fn warp_plan_policy() {
    assert_eq!(plan_warp(0), WarpPlan::UseDefault);
    assert_eq!(plan_warp(1), WarpPlan::RejectSingle);
    assert_eq!(plan_warp(2), WarpPlan::UseGiven);
    assert_eq!(plan_warp(17), WarpPlan::UseGiven);
}

#[test]
fn default_lines_are_the_axis_pair() {
    let lines = default_warp_lines();
    assert_eq!(lines.len(), 2);
    assert_eq!(lines[0].origin, IntVec3 { x: 0, y: 0, z: 0 });
    assert_eq!(lines[0].heading, IntVec3 { x: 1, y: 0, z: 0 });
    assert_eq!(lines[1].origin, IntVec3 { x: 0, y: 0, z: 0 });
    assert_eq!(lines[1].heading, IntVec3 { x: 0, y: 0, z: 1 });
}
