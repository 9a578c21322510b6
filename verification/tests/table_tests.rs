use retable::errors::DataTableError;
use retable::table::DataTable;
use retable::value::Value;

fn num(mant: u64) -> Value {
    Value::Num { neg: false, mant, exp: 0 }
}

#[test]
fn empty_table_has_no_rows() {
    let t = DataTable::new(2, None, None);
    assert_eq!(t.get_rows().len(), 0);
    assert_eq!(t.get_names().len(), 2);
}

#[test]
fn default_names_count_upward() {
    let t = DataTable::new(3, None, None);
    assert_eq!(t.get_name(0).unwrap(), "0");
    assert_eq!(t.get_name(1).unwrap(), "1");
    assert_eq!(t.get_name(2).unwrap(), "2");
}

#[test]
fn add_row_appends_to_every_column() {
    let names = vec!["a".to_string(), "b".to_string()];
    let mut t = DataTable::new(2, Some(&names), None);
    t.add_row(&[num(10), num(20)]).unwrap();
    t.add_row(&[num(30), num(40)]).unwrap();
    let a = t.get_col(0).unwrap();
    let b = t.get_col(1).unwrap();
    assert_eq!(a, vec![num(10), num(30)]);
    assert_eq!(b, vec![num(20), num(40)]);
    assert_eq!(t.get_rows().len(), 2);
}

#[test]
fn add_row_rejects_wrong_width() {
    let mut t = DataTable::new(2, None, None);
    let e = t.add_row(&[num(1)]).unwrap_err();
    assert_eq!(e, DataTableError::InvalidColumnCount);
    assert_eq!(t.get_rows().len(), 0);
}

#[test]
fn auto_base_counts_from_zero() {
    let mut t = DataTable::new(1, None, None);
    t.add_row(&[num(7)]).unwrap();
    t.add_row(&[num(8)]).unwrap();
    t.add_row(&[num(9)]).unwrap();
    let base = t.get_base_data().clone();
    assert_eq!(base, vec![num(0), num(1), num(2)]);
}

#[test]
fn explicit_base_mirrors_selected_column() {
    let names = vec!["time".to_string(), "temp".to_string()];
    let mut t = DataTable::new_with_base_data_index(2, Some(&names), 0).unwrap();
    t.add_row(&[num(100), num(20)]).unwrap();
    t.add_row(&[num(200), num(21)]).unwrap();
    let base = t.get_base_data().clone();
    assert_eq!(base, vec![num(100), num(200)]);
}

#[test]
fn base_index_out_of_range_is_rejected() {
    let e = DataTable::new_with_base_data_index(2, None, 2).unwrap_err();
    assert_eq!(e, DataTableError::InvalidBaseIndex);
}

#[test]
fn base_by_name_locates_column() {
    let names = vec!["time".to_string(), "temp".to_string()];
    let mut t = DataTable::new_with_base_data_name(2, &names, "temp").unwrap();
    t.add_row(&[num(1), num(50)]).unwrap();
    assert_eq!(t.get_base_data().clone(), vec![num(50)]);
}

#[test]
fn base_by_unknown_name_is_rejected() {
    let names = vec!["time".to_string(), "temp".to_string()];
    let e = DataTable::new_with_base_data_name(2, &names, "pressure").unwrap_err();
    assert_eq!(e, DataTableError::InvalidBaseName);
}

#[test]
fn get_col_by_name_matches_get_col() {
    let names = vec!["x".to_string(), "y".to_string()];
    let mut t = DataTable::new(2, Some(&names), None);
    t.add_row(&[num(1), num(2)]).unwrap();
    t.add_row(&[num(3), num(4)]).unwrap();
    assert_eq!(t.get_col_by_name("x").unwrap(), t.get_col(0).unwrap());
    assert_eq!(t.get_col_by_name("y").unwrap(), t.get_col(1).unwrap());
    let e = t.get_col_by_name("z").unwrap_err();
    assert_eq!(e, DataTableError::InvalidColumnName);
}

#[test]
fn get_col_index_bound_is_column_count() {
    let mut t = DataTable::new(1, None, None);
    t.add_row(&[num(5)]).unwrap();
    t.add_row(&[num(6)]).unwrap();
    let e = t.get_col(1).unwrap_err();
    assert_eq!(e, DataTableError::InvalidColumnIndex);
    assert_eq!(t.get_name(1).unwrap_err(), DataTableError::InvalidColumnIndex);
}

#[test]
fn get_row_prepends_base_value() {
    let names = vec!["a".to_string(), "b".to_string()];
    let mut t = DataTable::new(2, Some(&names), None);
    t.add_row(&[num(10), num(20)]).unwrap();
    t.add_row(&[num(30), num(40)]).unwrap();
    let row = t.get_row(1).unwrap();
    assert_eq!(row, vec![num(1), num(30), num(40)]);
    let e = t.get_row(2).unwrap_err();
    assert_eq!(e, DataTableError::InvalidColumnIndex);
}

#[test]
fn get_rows_omits_base() {
    let mut t = DataTable::new(2, None, None);
    t.add_row(&[num(1), num(2)]).unwrap();
    let rows = t.get_rows();
    assert_eq!(rows, vec![vec![num(1), num(2)]]);
}

#[test]
fn error_messages_name_the_variant() {
    assert_eq!(DataTableError::DuplicateName.message(), "DuplicateName");
    let e = retable::errors::ExtractionError::TableFailure(DataTableError::InvalidBaseName);
    assert_eq!(e.message(), "TableFailure: InvalidBaseName");
}

#[test]
fn col_with_base_pairs_values() {
    let names = vec!["time".to_string(), "temp".to_string()];
    let mut t = DataTable::new_with_base_data_name(2, &names, "time").unwrap();
    t.add_row(&[num(100), num(20)]).unwrap();
    t.add_row(&[num(200), num(21)]).unwrap();
    let mut z = t.get_col_by_name_with_base("temp").unwrap();
    assert_eq!(z.next(), Some((num(100), num(20))));
    assert_eq!(z.next(), Some((num(200), num(21))));
    assert_eq!(z.next(), None);
}
