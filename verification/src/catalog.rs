use vstd::prelude::*;

verus! {

/// One catalog option: a human-readable label shown to the user and the
/// opaque id that is sent to the remote lookup service for that option.
#[derive(Debug)]
pub struct CatalogEntry {
    pub label: String,
    pub id: String,
}

/// Ghost image of a catalog entry: both strings as character sequences.
pub struct EntryModel {
    pub label: Seq<char>,
    pub id: Seq<char>,
}

impl CatalogEntry {
    pub open spec fn model(self) -> EntryModel {
        EntryModel { label: self.label@, id: self.id@ }
    }
}

/// Ghost image of the three-level product tree. `types[t]` is the t-th
/// product type, `series[t][s]` the s-th series of type t, and
/// `products[t][s][p]` the p-th product of that series.
pub struct CatalogModel {
    pub types: Seq<EntryModel>,
    pub series: Seq<Seq<EntryModel>>,
    pub products: Seq<Seq<Seq<EntryModel>>>,
}

/// The structural invariant of a built catalog: one series list per type,
/// one product list per series, and no empty series or product list.
pub open spec fn catalog_model_wf(m: CatalogModel) -> bool {
    &&& m.series.len() == m.types.len()
    &&& m.products.len() == m.types.len()
    &&& forall|t: int| 0 <= t < m.types.len() ==> (#[trigger] m.series[t]).len() > 0
    &&& forall|t: int| 0 <= t < m.types.len() ==> (#[trigger] m.products[t]).len() == m.series[t].len()
    &&& forall|t: int, s: int|
        0 <= t < m.types.len() && 0 <= s < m.products[t].len() ==> (
        #[trigger] m.products[t][s]).len() > 0
}

/// A product table row is a sequence of six fields:
/// type label, series label, product label, type id, series id, product id.
pub open spec fn row_type_entry(r: Seq<Seq<char>>) -> EntryModel {
    EntryModel { label: r[0], id: r[3] }
}

pub open spec fn row_series_entry(r: Seq<Seq<char>>) -> EntryModel {
    EntryModel { label: r[1], id: r[4] }
}

pub open spec fn row_product_entry(r: Seq<Seq<char>>) -> EntryModel {
    EntryModel { label: r[2], id: r[5] }
}

pub open spec fn empty_catalog_model() -> CatalogModel {
    CatalogModel { types: Seq::empty(), series: Seq::empty(), products: Seq::empty() }
}

/// How one row extends the tree. A new group boundary is detected by
/// comparing the row's type and series labels (not ids) with those of the
/// previous row, which are the labels last appended to the tree.
pub open spec fn catalog_push_row(m: CatalogModel, r: Seq<Seq<char>>) -> CatalogModel {
    if m.types.len() == 0 || m.types.last().label != r[0] {
        CatalogModel {
            types: m.types.push(row_type_entry(r)),
            series: m.series.push(seq![row_series_entry(r)]),
            products: m.products.push(seq![seq![row_product_entry(r)]]),
        }
    } else if m.series.last().last().label != r[1] {
        CatalogModel {
            types: m.types,
            series: m.series.update(
                m.series.len() - 1,
                m.series.last().push(row_series_entry(r)),
            ),
            products: m.products.update(
                m.products.len() - 1,
                m.products.last().push(seq![row_product_entry(r)]),
            ),
        }
    } else {
        CatalogModel {
            types: m.types,
            series: m.series,
            products: m.products.update(
                m.products.len() - 1,
                m.products.last().update(
                    m.products.last().len() - 1,
                    m.products.last().last().push(row_product_entry(r)),
                ),
            ),
        }
    }
}

/// The tree built from a row-ordered product table, row by row.
pub open spec fn build_catalog_model(rows: Seq<Seq<Seq<char>>>) -> CatalogModel
    decreases rows.len(),
{
    if rows.len() == 0 {
        empty_catalog_model()
    } else {
        catalog_push_row(build_catalog_model(rows.drop_last()), rows.last())
    }
}

/// Pushing one row onto a well-formed tree keeps it well-formed.
pub proof fn lemma_catalog_push_row_wf(m: CatalogModel, r: Seq<Seq<char>>)
    requires
        catalog_model_wf(m),
    ensures
        catalog_model_wf(catalog_push_row(m, r)),
{
    let m2 = catalog_push_row(m, r);
    if m.types.len() == 0 || m.types.last().label != r[0] {
        assert forall|t: int| 0 <= t < m2.types.len() implies (#[trigger] m2.series[t]).len() > 0 by {
            if t < m.types.len() {
            }
        }
    } else if m.series.last().last().label != r[1] {
        assert(m2.series[m.series.len() - 1] == m.series.last().push(row_series_entry(r)));
    } else {
        assert(m2.products[m.products.len() - 1] == m.products.last().update(
            m.products.last().len() - 1,
            m.products.last().last().push(row_product_entry(r)),
        ));
    }
}

/// Every catalog built from a row-ordered product table is well-formed:
/// there is exactly one series list per type entry and one non-empty
/// product list per series entry.
pub proof fn lemma_build_catalog_model_wf(rows: Seq<Seq<Seq<char>>>)
    ensures
        catalog_model_wf(build_catalog_model(rows)),
    decreases rows.len(),
{
    if rows.len() == 0 {
    } else {
        lemma_build_catalog_model_wf(rows.drop_last());
        lemma_catalog_push_row_wf(build_catalog_model(rows.drop_last()), rows.last());
    }
}

/// The three-level product tree, as built from the product table.
#[derive(Debug)]
pub struct ProductCatalog {
    pub types: Vec<CatalogEntry>,
    pub series: Vec<Vec<CatalogEntry>>,
    pub products: Vec<Vec<Vec<CatalogEntry>>>,
}

/// Ghost image of an option list.
pub open spec fn entries_model(s: Seq<CatalogEntry>) -> Seq<EntryModel> {
    s.map_values(|e: CatalogEntry| e.model())
}

pub open spec fn series_block_model(v: Seq<Vec<CatalogEntry>>) -> Seq<Seq<EntryModel>> {
    v.map_values(|w: Vec<CatalogEntry>| entries_model(w@))
}

impl ProductCatalog {
    pub open spec fn model(self) -> CatalogModel {
        CatalogModel {
            types: entries_model(self.types@),
            series: series_block_model(self.series@),
            products: self.products@.map_values(
                |v: Vec<Vec<CatalogEntry>>| series_block_model(v@),
            ),
        }
    }
}

/// Whether every record of a parsed table has exactly `width` fields.
pub fn records_well_formed(records: &Vec<Vec<String>>, width: usize) -> (b: bool)
    ensures
        b == forall|i: int|
            0 <= i < records@.len() ==> (#[trigger] records@[i])@.len() == width,
{
    let n = records.len();
    let mut i: usize = 0;
    while i < n
        invariant
            0 <= i <= n,
            n == records@.len(),
            forall|k: int| 0 <= k < i ==> (#[trigger] records@[k])@.len() == width,
        decreases n - i,
    {
        if records[i].len() != width {
            return false;
        }
        i = i + 1;
    }
    true
}

/// Builds the three-level tree from the decoded product table rows,
/// detecting type and series boundaries by label change from the
/// previous row, exactly as `build_catalog_model` describes.
pub fn build_product_catalog(records: &Vec<Vec<String>>) -> (r: ProductCatalog)
    requires
        forall|i: int| 0 <= i < records@.len() ==> (#[trigger] records@[i])@.len() == 6,
    ensures
        r.model() == build_catalog_model(records.deep_view()),
        catalog_model_wf(r.model()),
{
    let mut cat = ProductCatalog { types: Vec::new(), series: Vec::new(), products: Vec::new() };
    let ghost rows = records.deep_view();
    proof {
        assert(cat.model().types =~= empty_catalog_model().types);
        assert(cat.model().series =~= empty_catalog_model().series);
        assert(cat.model().products =~= empty_catalog_model().products);
        assert(rows.take(0) =~= Seq::<Seq<Seq<char>>>::empty());
    }
    let n = records.len();
    let mut i: usize = 0;
    while i < n
        invariant
            0 <= i <= n,
            n == records@.len(),
            rows == records.deep_view(),
            forall|k: int| 0 <= k < records@.len() ==> (#[trigger] records@[k])@.len() == 6,
            cat.model() == build_catalog_model(rows.take(i as int)),
            catalog_model_wf(cat.model()),
        decreases n - i,
    {
        let ghost prev = cat.model();
        let ghost row = rows[i as int];
        proof {
            assert(row =~= records@[i as int].deep_view());
            assert(forall|j: int|
                0 <= j < 6 ==> row[j] == (#[trigger] records@[i as int]@[j])@);
        }
        let type_entry = CatalogEntry { label: records[i][0].clone(), id: records[i][3].clone() };
        let series_entry = CatalogEntry { label: records[i][1].clone(), id: records[i][4].clone() };
        let product_entry = CatalogEntry { label: records[i][2].clone(), id: records[i][5].clone() };
        assert(type_entry.model() == row_type_entry(row));
        assert(series_entry.model() == row_series_entry(row));
        assert(product_entry.model() == row_product_entry(row));

        let tl = cat.types.len();
        assert(tl == prev.types.len());
        let is_new_type = if tl == 0 {
            true
        } else {
            let same = cat.types[tl - 1].label == records[i][0];
            assert(cat.types@[tl - 1].model() == prev.types[tl - 1]);
            assert(prev.types.last() == prev.types[tl - 1]);
            !same
        };

        if is_new_type {
            cat.types.push(type_entry);
            let mut sv: Vec<CatalogEntry> = Vec::new();
            sv.push(series_entry);
            cat.series.push(sv);
            let mut pv: Vec<CatalogEntry> = Vec::new();
            pv.push(product_entry);
            let mut pg: Vec<Vec<CatalogEntry>> = Vec::new();
            pg.push(pv);
            cat.products.push(pg);
            proof {
                let target = catalog_push_row(prev, row);
                assert(cat.model().types =~= target.types);
                assert(cat.model().series =~~= target.series);
                assert(cat.model().products =~~= target.products);
            }
        } else {
            let mut last_series = cat.series.pop().unwrap();
            let mut last_products = cat.products.pop().unwrap();
            assert(last_series@.map_values(|e: CatalogEntry| e.model()) == prev.series.last());
            let sl = last_series.len();
            assert(sl == prev.series.last().len());
            assert(sl > 0);
            let is_new_series = !(last_series[sl - 1].label == records[i][1]);
            assert(last_series@[sl - 1].model() == prev.series.last()[sl - 1]);
            assert(prev.series.last().last() == prev.series.last()[sl - 1]);

            if is_new_series {
                last_series.push(series_entry);
                let mut pv: Vec<CatalogEntry> = Vec::new();
                pv.push(product_entry);
                last_products.push(pv);
            } else {
                let mut last_group = last_products.pop().unwrap();
                last_group.push(product_entry);
                last_products.push(last_group);
            }
            cat.series.push(last_series);
            cat.products.push(last_products);
            proof {
                let target = catalog_push_row(prev, row);
                assert(cat.model().types =~= target.types);
                assert(cat.model().series =~~= target.series);
                assert(cat.model().products =~~= target.products);
            }
        }
        proof {
            assert(cat.model() == catalog_push_row(prev, row));
            assert(rows.take(i + 1).drop_last() =~= rows.take(i as int));
            assert(rows.take(i + 1).last() == row);
            lemma_catalog_push_row_wf(prev, row);
        }
        i = i + 1;
    }
    proof {
        assert(rows.take(n as int) =~= rows);
    }
    cat
}

/// What decoding a comma-separated table with a header row yields for a
/// given input text: the data records, each a sequence of fields, or nothing
/// when the text is not a well-formed table. The outcome is a function of
/// the input text alone.
pub uninterp spec fn csv_records_of(s: Seq<char>) -> Option<Seq<Seq<Seq<char>>>>;

#[verifier::external_type_specification]
#[verifier::external_body]
pub struct ExCsvError(csv::Error);

/// Relies on csv::Reader::from_reader and Reader::records: decodes a
/// comma-separated table, skipping its header row, into one list of string
/// fields per data row.
#[verifier::external_body]
fn read_csv_records(data: &str) -> (r: Result<Vec<Vec<String>>, csv::Error>)
    ensures
        r is Ok <==> csv_records_of(data@) is Some,
        r is Ok ==> r.unwrap().deep_view() == csv_records_of(data@).unwrap(),
{
    let mut rdr = csv::Reader::from_reader(data.as_bytes());
    let mut out: Vec<Vec<String>> = Vec::new();
    for rec in rdr.records() {
        let rec = rec?;
        out.push(rec.iter().map(|f| f.to_string()).collect());
    }
    Ok(out)
}

/// The failure of catalog loading: the table text cannot be decoded, or a
/// row does not carry the expected number of fields.
#[derive(Clone, Copy, Debug, PartialEq, Eq, Structural)]
pub enum CatalogError {
    MalformedCatalog,
}

/// Whether every record of a table has exactly `width` fields.
pub open spec fn all_rows_width(rows: Seq<Seq<Seq<char>>>, width: int) -> bool {
    forall|i: int| 0 <= i < rows.len() ==> (#[trigger] rows[i]).len() == width
}

/// Loads the product table: decodes the comma-separated text and builds the
/// three-level tree. Succeeds exactly when the text is a well-formed table
/// whose every data row has six fields.
pub fn load_product_catalog(data: &str) -> (r: Result<ProductCatalog, CatalogError>)
    ensures
        r is Ok <==> (csv_records_of(data@) is Some && all_rows_width(
            csv_records_of(data@).unwrap(),
            6,
        )),
        r is Ok ==> r.unwrap().model() == build_catalog_model(csv_records_of(data@).unwrap())
            && catalog_model_wf(r.unwrap().model()),
{
    match read_csv_records(data) {
        Ok(records) => {
            if records_well_formed(&records, 6) {
                proof {
                    let rows = records.deep_view();
                    assert forall|i: int| 0 <= i < rows.len() implies (#[trigger] rows[i]).len()
                        == 6 by {
                        assert(rows[i] == records@[i].deep_view());
                    }
                }
                Ok(build_product_catalog(&records))
            } else {
                proof {
                    let rows = records.deep_view();
                    let i = choose|i: int|
                        0 <= i < records@.len() && (#[trigger] records@[i])@.len() != 6;
                    assert(rows[i] == records@[i].deep_view());
                    assert(!all_rows_width(rows, 6));
                }
                Err(CatalogError::MalformedCatalog)
            }
        },
        Err(_) => Err(CatalogError::MalformedCatalog),
    }
}

/// Loads one of the flat tables (operating systems, languages, package
/// types): each data row is an `(id, label)` pair. Succeeds exactly when the
/// text is a well-formed table whose every data row has two fields.
pub fn load_flat_table(data: &str) -> (r: Result<Vec<CatalogEntry>, CatalogError>)
    ensures
        r is Ok <==> (csv_records_of(data@) is Some && all_rows_width(
            csv_records_of(data@).unwrap(),
            2,
        )),
        r is Ok ==> ({
            let rows = csv_records_of(data@).unwrap();
            let entries = r.unwrap()@;
            &&& entries.len() == rows.len()
            &&& forall|i: int|
                0 <= i < rows.len() ==> (#[trigger] entries[i]).model() == (EntryModel {
                    label: rows[i][1],
                    id: rows[i][0],
                })
        }),
{
    match read_csv_records(data) {
        Ok(records) => {
            if records_well_formed(&records, 2) {
                proof {
                    let rows = records.deep_view();
                    assert forall|i: int| 0 <= i < rows.len() implies (#[trigger] rows[i]).len()
                        == 2 by {
                        assert(rows[i] == records@[i].deep_view());
                    }
                }
                let entries = build_flat_list(&records);
                proof {
                    let rows = records.deep_view();
                    assert forall|i: int| 0 <= i < rows.len() implies (#[trigger] entries@[i]).model()
                        == (EntryModel { label: rows[i][1], id: rows[i][0] }) by {}
                }
                Ok(entries)
            } else {
                proof {
                    let rows = records.deep_view();
                    let i = choose|i: int|
                        0 <= i < records@.len() && (#[trigger] records@[i])@.len() != 2;
                    assert(rows[i] == records@[i].deep_view());
                    assert(!all_rows_width(rows, 2));
                }
                Err(CatalogError::MalformedCatalog)
            }
        },
        Err(_) => Err(CatalogError::MalformedCatalog),
    }
}

/// Builds a flat option list from a two-column table whose rows are
/// `(id, label)` pairs: the entry shows the second column and carries the
/// first as its id, in row order.
pub fn build_flat_list(records: &Vec<Vec<String>>) -> (r: Vec<CatalogEntry>)
    requires
        forall|i: int| 0 <= i < records@.len() ==> (#[trigger] records@[i])@.len() == 2,
    ensures
        r@.len() == records@.len(),
        forall|i: int|
            0 <= i < records@.len() ==> (#[trigger] r@[i]).model() == (EntryModel {
                label: records.deep_view()[i][1],
                id: records.deep_view()[i][0],
            }),
{
    let mut r: Vec<CatalogEntry> = Vec::new();
    let n = records.len();
    let mut i: usize = 0;
    while i < n
        invariant
            0 <= i <= n,
            n == records@.len(),
            forall|k: int| 0 <= k < records@.len() ==> (#[trigger] records@[k])@.len() == 2,
            r@.len() == i,
            forall|k: int|
                0 <= k < i ==> (#[trigger] r@[k]).model() == (EntryModel {
                    label: records.deep_view()[k][1],
                    id: records.deep_view()[k][0],
                }),
        decreases n - i,
    {
        r.push(CatalogEntry { label: records[i][1].clone(), id: records[i][0].clone() });
        i = i + 1;
    }
    r
}

} // verus!
