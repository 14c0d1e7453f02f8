use host_telemetry::csv::{push_quoted, read_fields};

fn quoted(cell: &str) -> String {
    let mut out = Vec::new();
    push_quoted(&mut out, &cell.chars().collect());
    out.into_iter().collect()
}

#[test]
fn cells_are_quoted_with_their_quotes_doubled() {
    assert_eq!(quoted(""), "\"\"");
    assert_eq!(quoted("abc"), "\"abc\"");
    assert_eq!(quoted("a,b"), "\"a,b\"");
    assert_eq!(quoted("\""), "\"\"\"\"");
    assert_eq!(quoted("{\"k\":1}"), "\"{\"\"k\"\":1}\"");
    let mut out = vec!['x', ','];
    push_quoted(&mut out, &vec!['y']);
    assert_eq!(out.into_iter().collect::<String>(), "x,\"y\"");
}

#[test]
fn lines_are_read_into_fields() {
    assert_eq!(read_fields(""), vec![""]);
    assert_eq!(read_fields("a"), vec!["a"]);
    assert_eq!(read_fields("a,b,,c"), vec!["a", "b", "", "c"]);
    assert_eq!(read_fields(","), vec!["", ""]);
    assert_eq!(read_fields("\"a,b\",c"), vec!["a,b", "c"]);
    assert_eq!(read_fields("\"a\"\"b\""), vec!["a\"b"]);
    assert_eq!(read_fields("\"\",\"\"\"\""), vec!["", "\""]);
    assert_eq!(read_fields("x\"a,b\"y,z"), vec!["xa,by", "z"]);
    assert_eq!(read_fields("\"a\"b,c"), vec!["ab", "c"]);
    assert_eq!(read_fields("\"open,rest"), vec!["open,rest"]);
}

#[test]
fn quoted_cells_read_back_as_they_were() {
    for cell in ["", "plain", "a,b", "\"", "\"\"", "{\"k\":[1,2],\"s\":\"x\"}", ",\",\","] {
        let line = format!("first,{},last", quoted(cell));
        assert_eq!(read_fields(&line), vec!["first", cell, "last"], "{}", cell);
    }
}
