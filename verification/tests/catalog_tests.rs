use nv_driver_helper::catalog::load_flat_table;
use nv_driver_helper::catalog::load_product_catalog;
use nv_driver_helper::catalog::CatalogError;

fn product_csv() -> String {
    let mut s = String::from("pt,pst,pf,ptid,pstid,pfid\n");
    s.push_str("A,S1,P1,10,20,30\n");
    s.push_str("A,S1,P2,10,20,31\n");
    s.push_str("A,S2,P3,10,21,32\n");
    s.push_str("B,S3,P4,11,22,33\n");
    s
}

#[test]
fn product_table_grouping() {
    let cat = load_product_catalog(&product_csv()).unwrap();

    let type_labels: Vec<&str> = cat.types.iter().map(|e| e.label.as_str()).collect();
    assert_eq!(type_labels, vec!["A", "B"]);

    let s0: Vec<&str> = cat.series[0].iter().map(|e| e.label.as_str()).collect();
    assert_eq!(s0, vec!["S1", "S2"]);
    let s1: Vec<&str> = cat.series[1].iter().map(|e| e.label.as_str()).collect();
    assert_eq!(s1, vec!["S3"]);

    let p00: Vec<&str> = cat.products[0][0].iter().map(|e| e.label.as_str()).collect();
    assert_eq!(p00, vec!["P1", "P2"]);
    let p01: Vec<&str> = cat.products[0][1].iter().map(|e| e.label.as_str()).collect();
    assert_eq!(p01, vec!["P3"]);
    let p10: Vec<&str> = cat.products[1][0].iter().map(|e| e.label.as_str()).collect();
    assert_eq!(p10, vec!["P4"]);

    // the ids of the first row of each group are kept alongside the labels
    assert_eq!(cat.types[0].id, "10");
    assert_eq!(cat.series[0][1].id, "21");
    assert_eq!(cat.products[1][0][0].id, "33");
}

#[test]
fn product_table_tree_shape() {
    // one series list per type, one product list per series, none empty
    let cat = load_product_catalog(&product_csv()).unwrap();
    assert_eq!(cat.series.len(), cat.types.len());
    assert_eq!(cat.products.len(), cat.types.len());
    for t in 0..cat.types.len() {
        assert!(!cat.series[t].is_empty());
        assert_eq!(cat.products[t].len(), cat.series[t].len());
        for s in 0..cat.series[t].len() {
            assert!(!cat.products[t][s].is_empty());
        }
    }
}

#[test]
fn same_label_different_id_merges() {
    // boundary detection goes by the label, not the id: a repeated type label
    // with a new id stays in the same group
    let mut s = String::from("pt,pst,pf,ptid,pstid,pfid\n");
    s.push_str("A,S1,P1,10,20,30\n");
    s.push_str("A,S1,P2,99,20,31\n");
    let cat = load_product_catalog(&s).unwrap();
    assert_eq!(cat.types.len(), 1);
    assert_eq!(cat.types[0].id, "10");
    assert_eq!(cat.products[0][0].len(), 2);
}

#[test]
fn product_table_wrong_width_is_malformed() {
    let mut s = String::from("pt,pst,pf,ptid,pstid\n");
    s.push_str("A,S1,P1,10,20\n");
    let r = load_product_catalog(&s);
    assert_eq!(r.unwrap_err(), CatalogError::MalformedCatalog);
}

#[test]
fn product_table_ragged_row_is_malformed() {
    let mut s = String::from("pt,pst,pf,ptid,pstid,pfid\n");
    s.push_str("A,S1,P1,10,20,30\n");
    s.push_str("A,S1\n");
    let r = load_product_catalog(&s);
    assert_eq!(r.unwrap_err(), CatalogError::MalformedCatalog);
}

#[test]
fn flat_table_order_and_columns() {
    let data = "osid,os\n57,Windows 10 64-bit\n135,Windows 11\n";
    let list = load_flat_table(data).unwrap();
    assert_eq!(list.len(), 2);
    assert_eq!(list[0].label, "Windows 10 64-bit");
    assert_eq!(list[0].id, "57");
    assert_eq!(list[1].label, "Windows 11");
    assert_eq!(list[1].id, "135");
}

#[test]
fn flat_table_wrong_width_is_malformed() {
    let data = "osid,os,extra\n57,Windows 10 64-bit,x\n";
    let r = load_flat_table(data);
    assert_eq!(r.unwrap_err(), CatalogError::MalformedCatalog);
}
