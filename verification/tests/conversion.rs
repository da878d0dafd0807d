use serde_json::{Number, Value};
use sheet2json::cell::CellValue;
use sheet2json::convert::{
    convert_sheet, convert_values, row_to_array, row_to_object, to_lists, to_objects,
    ConvertError, Format,
};
use sheet2json::keys::{cell_text, get_object_keys, normalize_key, remove_periods, replace_spaces};

fn text(s: &str) -> CellValue {
    CellValue::Text(s.to_string())
}

fn float(f: f64) -> CellValue {
    CellValue::Float(Number::from_f64(f), f.to_string())
}

fn people() -> Vec<Vec<CellValue>> {
    vec![
        vec![text("Name"), text("Age")],
        vec![text("Ann"), CellValue::Int(30)],
        vec![text("Bo"), text("25")],
    ]
}

fn object(entries: Vec<(&str, Value)>) -> Value {
    let mut map = serde_json::Map::new();
    for (k, v) in entries {
        map.insert(k.to_string(), v);
    }
    Value::Object(map)
}

fn rows_of(n: usize) -> Vec<Vec<CellValue>> {
    (0..n).map(|i| vec![CellValue::Int(i as i64), text("x")]).collect()
}

#[test]
fn header_keys_are_normalised() {
    let keys = get_object_keys(&vec![text("First Name"), text("Qty.")]);
    assert_eq!(keys, vec!["first_name".to_string(), "qty".to_string()]);
}

#[test]
fn key_of_text_with_several_spaces_and_periods() {
    assert_eq!(normalize_key("  A.B. C d."), "__ab_c_d");
    assert_eq!(normalize_key(""), "");
    assert_eq!(normalize_key("..."), "");
}

#[test]
fn key_is_lower_cased_beyond_ascii() {
    assert_eq!(normalize_key("ÀB Ç"), "àb_ç");
}

#[test]
fn spaces_become_underscores() {
    assert_eq!(replace_spaces("a b  c"), "a_b__c");
    assert_eq!(replace_spaces("No.Space"), "No.Space");
    assert_eq!(replace_spaces("é è"), "é_è");
}

#[test]
fn periods_are_removed() {
    assert_eq!(remove_periods("a.b..c."), "abc");
    assert_eq!(remove_periods("Keep Case"), "Keep Case");
    assert_eq!(remove_periods("."), "");
}

#[test]
fn text_of_each_kind_of_cell() {
    assert_eq!(cell_text(&CellValue::Int(-42)), "-42");
    assert_eq!(cell_text(&CellValue::Int(i64::MIN)), "-9223372036854775808");
    assert_eq!(cell_text(&float(2.5)), "2.5");
    assert_eq!(cell_text(&text("Hello World")), "Hello World");
    assert_eq!(cell_text(&CellValue::Bool(true)), "true");
    assert_eq!(cell_text(&CellValue::Bool(false)), "false");
    assert_eq!(cell_text(&CellValue::Empty), "");
    assert_eq!(cell_text(&CellValue::Other("#DIV/0!".to_string())), "#DIV/0!");
}

#[test]
fn keys_of_cells_that_are_not_text() {
    let header = vec![
        CellValue::Int(7),
        CellValue::Bool(true),
        CellValue::Empty,
        float(1.5),
        CellValue::Other("P1D T".to_string()),
    ];
    let keys = get_object_keys(&header);
    assert_eq!(keys, vec!["7", "true", "", "15", "p1d_t"]);
}

#[test]
fn equal_keys_are_all_kept() {
    let keys = get_object_keys(&vec![text("A b"), text("a_B"), text("a.b")]);
    assert_eq!(keys, vec!["a_b", "a_b", "ab"]);
}

#[test]
fn integer_becomes_integer_number() {
    let v = convert_values(&CellValue::Int(5)).unwrap();
    assert_eq!(v, Value::Number(Number::from(5i64)));
    assert!(v.is_i64());
    assert_eq!(serde_json::to_string(&v).unwrap(), "5");
}

#[test]
fn negative_and_extreme_integers() {
    let v = convert_values(&CellValue::Int(-3)).unwrap();
    assert_eq!(serde_json::to_string(&v).unwrap(), "-3");
    let v = convert_values(&CellValue::Int(i64::MAX)).unwrap();
    assert_eq!(serde_json::to_string(&v).unwrap(), "9223372036854775807");
    let v = convert_values(&CellValue::Int(i64::MIN)).unwrap();
    assert_eq!(serde_json::to_string(&v).unwrap(), "-9223372036854775808");
}

#[test]
fn float_becomes_float_number() {
    let v = convert_values(&float(5.0)).unwrap();
    assert!(v.is_f64());
    assert_eq!(v.as_f64(), Some(5.0));
    assert_eq!(serde_json::to_string(&v).unwrap(), "5.0");
}

#[test]
fn boolean_empty_and_text() {
    let v = convert_values(&CellValue::Bool(true)).unwrap();
    assert_eq!(v, Value::Bool(true));
    assert_eq!(serde_json::to_string(&v).unwrap(), "true");
    let v = convert_values(&CellValue::Bool(false)).unwrap();
    assert_eq!(v, Value::Bool(false));
    let v = convert_values(&CellValue::Empty).unwrap();
    assert_eq!(v, Value::Null);
    assert_eq!(serde_json::to_string(&v).unwrap(), "null");
    let v = convert_values(&text("abc")).unwrap();
    assert_eq!(v, Value::String("abc".to_string()));
    assert_eq!(serde_json::to_string(&v).unwrap(), "\"abc\"");
}

#[test]
fn other_cell_becomes_its_text() {
    let v = convert_values(&CellValue::Other("#N/A".to_string())).unwrap();
    assert_eq!(v, Value::String("#N/A".to_string()));
}

#[test]
fn non_finite_float_is_refused() {
    assert_eq!(convert_values(&float(f64::NAN)), Err(ConvertError::NonFiniteFloat));
    assert_eq!(convert_values(&float(f64::INFINITY)), Err(ConvertError::NonFiniteFloat));
    assert_eq!(convert_values(&float(f64::NEG_INFINITY)), Err(ConvertError::NonFiniteFloat));
}

#[test]
fn row_becomes_array_in_order() {
    let row = vec![CellValue::Int(1), text("b"), CellValue::Empty, CellValue::Bool(false)];
    let v = row_to_array(&row).unwrap();
    assert_eq!(serde_json::to_string(&v).unwrap(), "[1,\"b\",null,false]");
    assert_eq!(row_to_array(&vec![]).unwrap(), Value::Array(vec![]));
}

#[test]
fn array_fails_on_any_non_finite_cell() {
    let row = vec![CellValue::Int(1), float(f64::NAN)];
    assert_eq!(row_to_array(&row), Err(ConvertError::NonFiniteFloat));
}

#[test]
fn extra_cells_are_dropped() {
    let keys = vec!["a".to_string(), "b".to_string()];
    for extra in 0..4usize {
        let mut row = vec![CellValue::Int(1), CellValue::Int(2)];
        for i in 0..extra {
            row.push(CellValue::Int(10 + i as i64));
        }
        let v = row_to_object(&keys, &row).unwrap();
        assert_eq!(v.as_object().unwrap().len(), 2);
        assert_eq!(v, object(vec![("a", Value::from(1i64)), ("b", Value::from(2i64))]));
    }
}

#[test]
fn missing_cells_leave_keys_unset() {
    let keys = vec!["a".to_string(), "b".to_string(), "c".to_string()];
    for present in 0..=3usize {
        let row: Vec<CellValue> = (0..present).map(|i| CellValue::Int(i as i64)).collect();
        let v = row_to_object(&keys, &row).unwrap();
        let obj = v.as_object().unwrap();
        assert_eq!(obj.len(), present);
        for (i, k) in keys.iter().enumerate() {
            if i < present {
                assert_eq!(obj.get(k), Some(&Value::from(i as i64)));
            } else {
                assert_eq!(obj.get(k), None);
            }
        }
    }
}

#[test]
fn later_equal_key_overwrites() {
    let keys = vec!["k".to_string(), "other".to_string(), "k".to_string()];
    let row = vec![CellValue::Int(1), CellValue::Int(2), CellValue::Int(3)];
    let v = row_to_object(&keys, &row).unwrap();
    assert_eq!(v, object(vec![("k", Value::from(3i64)), ("other", Value::from(2i64))]));
    assert_eq!(v.as_object().unwrap().len(), 2);
}

#[test]
fn non_finite_cell_beyond_the_keys_is_not_looked_at() {
    let keys = vec!["a".to_string()];
    let row = vec![CellValue::Int(1), float(f64::NAN)];
    let v = row_to_object(&keys, &row).unwrap();
    assert_eq!(v, object(vec![("a", Value::from(1i64))]));
}

#[test]
fn non_finite_cell_under_a_key_fails() {
    let keys = vec!["a".to_string(), "b".to_string()];
    let row = vec![CellValue::Int(1), float(f64::INFINITY)];
    assert_eq!(row_to_object(&keys, &row), Err(ConvertError::NonFiniteFloat));
}

#[test]
fn object_mode_on_people() {
    let out = convert_sheet(&people(), Format::Object, 0).unwrap();
    assert_eq!(out.len(), 2);
    assert_eq!(
        out[0],
        object(vec![("name", Value::from("Ann")), ("age", Value::from(30i64))])
    );
    assert_eq!(
        out[1],
        object(vec![("name", Value::from("Bo")), ("age", Value::from("25"))])
    );
    let mut keys: Vec<&String> = out[0].as_object().unwrap().keys().collect();
    keys.sort();
    assert_eq!(keys, vec!["age", "name"]);
}

#[test]
fn list_mode_on_people() {
    let sheet = vec![
        vec![text("Name"), text("Age")],
        vec![text("Ann"), text("30")],
        vec![text("Bo"), text("25")],
    ];
    let out = convert_sheet(&sheet, Format::List, 0).unwrap();
    assert_eq!(out.len(), 3);
    assert_eq!(
        serde_json::to_string(&out).unwrap(),
        "[[\"Name\",\"Age\"],[\"Ann\",\"30\"],[\"Bo\",\"25\"]]"
    );
}

#[test]
fn row_counts_in_both_modes() {
    for r in 0..6usize {
        let sheet = rows_of(r);
        for s in 0..8usize {
            let lists = to_lists(&sheet, s).unwrap();
            assert_eq!(lists.len(), r.saturating_sub(s));
            match to_objects(&sheet, s) {
                Ok(objects) => {
                    assert!(s < r);
                    assert_eq!(objects.len(), r - s - 1);
                }
                Err(e) => {
                    assert!(r <= s);
                    assert_eq!(e, ConvertError::HeaderRowMissing);
                }
            }
        }
    }
}

#[test]
fn short_sheet_has_no_header_row() {
    assert_eq!(to_objects(&vec![], 0), Err(ConvertError::HeaderRowMissing));
    assert_eq!(to_objects(&people(), 3), Err(ConvertError::HeaderRowMissing));
    assert_eq!(
        convert_sheet(&people(), Format::Object, 7),
        Err(ConvertError::HeaderRowMissing)
    );
    assert_eq!(
        convert_sheet(&people(), Format::Object, usize::MAX),
        Err(ConvertError::HeaderRowMissing)
    );
}

#[test]
fn header_only_sheet_gives_no_objects() {
    assert_eq!(to_objects(&people(), 2), Ok(vec![]));
}

#[test]
fn skip_selects_the_header_row() {
    let out = to_objects(&people(), 1).unwrap();
    assert_eq!(out, vec![object(vec![("ann", Value::from("Bo")), ("30", Value::from("25"))])]);
}

#[test]
fn skip_in_list_mode_keeps_the_row_at_skip() {
    let out = to_lists(&people(), 1).unwrap();
    assert_eq!(serde_json::to_string(&out).unwrap(), "[[\"Ann\",30],[\"Bo\",\"25\"]]");
    assert_eq!(to_lists(&people(), 3), Ok(vec![]));
    assert_eq!(to_lists(&people(), usize::MAX), Ok(vec![]));
}

#[test]
fn ragged_rows_are_kept_as_they_are() {
    let sheet = vec![
        vec![text("a"), text("b")],
        vec![CellValue::Int(1)],
        vec![CellValue::Int(1), CellValue::Int(2), CellValue::Int(3)],
        vec![],
    ];
    let lists = to_lists(&sheet, 1).unwrap();
    assert_eq!(serde_json::to_string(&lists).unwrap(), "[[1],[1,2,3],[]]");
    let objects = to_objects(&sheet, 0).unwrap();
    assert_eq!(serde_json::to_string(&objects).unwrap(), "[{\"a\":1},{\"a\":1,\"b\":2},{}]");
}

#[test]
fn non_finite_float_fails_the_whole_sheet() {
    let mut sheet = people();
    sheet.push(vec![text("Cy"), float(f64::NAN)]);
    assert_eq!(convert_sheet(&sheet, Format::Object, 0), Err(ConvertError::NonFiniteFloat));
    assert_eq!(convert_sheet(&sheet, Format::List, 0), Err(ConvertError::NonFiniteFloat));
}

#[test]
fn non_finite_float_in_skipped_or_header_row_is_not_converted() {
    let sheet = vec![
        vec![float(f64::NAN), text("b")],
        vec![CellValue::Int(1), CellValue::Int(2)],
    ];
    assert_eq!(to_lists(&sheet, 1).unwrap().len(), 1);
    let objects = to_objects(&sheet, 0).unwrap();
    assert_eq!(objects, vec![object(vec![("nan", Value::from(1i64)), ("b", Value::from(2i64))])]);
}

#[test]
fn format_names() {
    assert_eq!(Format::Object.name(), "object");
    assert_eq!(Format::List.name(), "list");
}

#[test]
fn object_is_the_default_format() {
    assert_eq!(Format::default(), Format::Object);
}
