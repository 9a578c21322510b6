use retable::builder::DataTableBuilder;
use retable::errors::DataTableError;
use retable::value::Value;
use retable::zip::ZipIter;

fn num(mant: u64) -> Value {
    Value::Num { neg: false, mant, exp: 0 }
}

#[test]
fn build_keeps_declared_order() {
    let names = vec!["b".to_string(), "a".to_string()];
    let mut builder = DataTableBuilder::new(&names).unwrap();
    builder.add_value("b", num(1)).unwrap();
    builder.add_value("a", num(2)).unwrap();
    let t = builder.build(None).unwrap();
    assert_eq!(t.get_name(0).unwrap(), "b");
    assert_eq!(t.get_name(1).unwrap(), "a");
    assert_eq!(t.get_col(0).unwrap(), vec![num(1)]);
    assert_eq!(t.get_col(1).unwrap(), vec![num(2)]);
}

#[test]
fn duplicate_names_are_rejected() {
    let names = vec!["x".to_string(), "x".to_string()];
    let e = DataTableBuilder::new(&names).unwrap_err();
    assert_eq!(e, DataTableError::DuplicateName);
}

#[test]
fn unknown_column_is_rejected() {
    let names = vec!["x".to_string()];
    let mut builder = DataTableBuilder::new(&names).unwrap();
    let e = builder.add_value("y", num(1)).unwrap_err();
    assert_eq!(e, DataTableError::InvalidColumnName);
}

#[test]
fn build_rejects_unequal_buffers() {
    let names = vec!["x".to_string(), "y".to_string()];
    let mut builder = DataTableBuilder::new(&names).unwrap();
    builder.add_value("x", num(1)).unwrap();
    let e = builder.build(None).unwrap_err();
    assert_eq!(e, DataTableError::InconsistentBuilderData);
}

#[test]
fn build_rejects_zero_columns() {
    let names: Vec<String> = vec![];
    let builder = DataTableBuilder::new(&names).unwrap();
    let e = builder.build(None).unwrap_err();
    assert_eq!(e, DataTableError::InconsistentBuilderData);
}

#[test]
fn build_succeeds_on_equal_buffers() {
    let names = vec!["x".to_string(), "y".to_string()];
    let mut builder = DataTableBuilder::new(&names).unwrap();
    builder.add_value("x", num(1)).unwrap();
    builder.add_value("y", num(2)).unwrap();
    builder.add_value("x", num(3)).unwrap();
    builder.add_value("y", num(4)).unwrap();
    let t = builder.build(None).unwrap();
    assert_eq!(t.get_rows().len(), 2);
    assert_eq!(t.get_col(0).unwrap(), vec![num(1), num(3)]);
    assert_eq!(t.get_col(1).unwrap(), vec![num(2), num(4)]);
}

#[test]
fn build_with_unknown_base_name_fails() {
    let names = vec!["x".to_string()];
    let mut builder = DataTableBuilder::new(&names).unwrap();
    builder.add_value("x", num(1)).unwrap();
    let e = builder.build(Some("z")).unwrap_err();
    assert_eq!(e, DataTableError::InvalidBaseName);
}

#[test]
fn builder_get_len_and_row() {
    let names = vec!["x".to_string(), "y".to_string()];
    let mut builder = DataTableBuilder::new(&names).unwrap();
    builder.add_value("x", num(1)).unwrap();
    builder.add_value("y", num(2)).unwrap();
    assert_eq!(builder.get_len().unwrap(), 1);
    assert_eq!(builder.get_row(0).unwrap(), vec![num(1), num(2)]);
    assert_eq!(builder.get_row(1).unwrap_err(), DataTableError::InvalidColumnIndex);
}

#[test]
fn zip_iter_rejects_unequal_lengths() {
    let a = vec![num(1)];
    let b = vec![num(1), num(2)];
    let e = ZipIter::new(&a, &b).unwrap_err();
    assert_eq!(e, DataTableError::InconsistentContainerSize);
}

#[test]
fn zip_iter_walks_pairs() {
    let a = vec![num(1), num(2)];
    let b = vec![num(3), num(4)];
    let mut z = ZipIter::new(&a, &b).unwrap();
    assert_eq!(z.next(), Some((num(1), num(3))));
    assert_eq!(z.next(), Some((num(2), num(4))));
    assert_eq!(z.next(), None);
}
