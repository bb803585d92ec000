//! The host application's build manifest: a `|`-separated table with a
//! header row, of which the `Version` and `Product` columns are read.
use vstd::prelude::*;

use crate::model::{product_named, Product};
use crate::text::text_eq;

verus! {

/// One row of the build manifest.
#[derive(Debug)]
pub struct BuildInfoEntry {
    pub version: String,
    pub product: Product,
}

/// Why no build information could be had.
#[derive(PartialEq, Eq, Structural, Copy, Clone, Debug)]
pub enum BuildInfoError {
    /// The manifest is no well-formed table.
    Malformed,
    /// The header row names no `Version` or no `Product` column.
    MissingColumn,
    /// A row is too short for a column that is read.
    ShortRow,
    /// A row names a product that is not known.
    UnknownProduct,
    /// The manifest holds no row at all.
    NoBuildInfo,
    /// No row is for the configured product.
    ProductNotFound,
}

/// The header row and the rows of fields that the `csv` reader finds in
/// `data`, read with `|` between fields and the first row as headers; `None`
/// where it reports an error.
pub uninterp spec fn delimited_table(data: Seq<u8>) -> Option<
    (Seq<Seq<char>>, Seq<Seq<Seq<char>>>),
>;

pub open spec fn row_view(row: Vec<String>) -> Seq<Seq<char>> {
    row@.map_values(|f: String| f@)
}

pub open spec fn rows_view(rows: Vec<Vec<String>>) -> Seq<Seq<Seq<char>>> {
    rows@.map_values(|r: Vec<String>| row_view(r))
}

pub open spec fn table_view(t: Option<(Vec<String>, Vec<Vec<String>>)>) -> Option<
    (Seq<Seq<char>>, Seq<Seq<Seq<char>>>),
> {
    match t {
        Some((h, rows)) => Some((row_view(h), rows_view(rows))),
        None => None,
    }
}

/// Relies on the `csv` reader (`ReaderBuilder` with `|` as delimiter and a
/// header row, then `headers` and `records`): the table depends on the bytes
/// alone.
#[verifier::external_body]
fn read_delimited_table(data: &[u8]) -> (r: Option<(Vec<String>, Vec<Vec<String>>)>)
    ensures
        table_view(r) == delimited_table(data@),
{
    let mut rdr = csv::ReaderBuilder::new().delimiter(b'|').has_headers(true).from_reader(data);
    let headers = rdr.headers().ok()?.iter().map(|h| h.to_string()).collect();
    let rows = rdr.records().map(|rec| rec.map(|rec| rec.iter().map(|f| f.to_string()).collect()))
        .collect::<Result<Vec<Vec<String>>, csv::Error>>().ok()?;
    Some((headers, rows))
}

pub open spec fn version_header() -> Seq<char> {
    "Version!STRING:0"@
}

pub open spec fn product_header() -> Seq<char> {
    "Product!STRING:0"@
}

/// Position of the first header equal to `name`.
pub open spec fn column_from(headers: Seq<Seq<char>>, name: Seq<char>, from: int) -> Option<int>
    decreases headers.len() - from,
{
    if from < 0 || from >= headers.len() {
        None
    } else if headers[from] == name {
        Some(from)
    } else {
        column_from(headers, name, from + 1)
    }
}

pub open spec fn column(headers: Seq<Seq<char>>, name: Seq<char>) -> Option<int> {
    column_from(headers, name, 0)
}

/// A row can be read with the version in column `v` and the product in `p`.
pub open spec fn row_readable(row: Seq<Seq<char>>, v: int, p: int) -> bool {
    v < row.len() && p < row.len() && product_named(row[p]) is Some
}

/// The manifest rows read as build entries, or the first reason why not.
pub open spec fn build_infos_of(headers: Seq<Seq<char>>, rows: Seq<Seq<Seq<char>>>) -> Result<
    Seq<(Seq<char>, Product)>,
    BuildInfoError,
> {
    if column(headers, version_header()) is None || column(headers, product_header()) is None {
        Err(BuildInfoError::MissingColumn)
    } else {
        let v = column(headers, version_header())->0;
        let p = column(headers, product_header())->0;
        if exists|k: int|
            0 <= k < rows.len() && !(v < rows[k].len() && p < rows[k].len()) {
            Err(BuildInfoError::ShortRow)
        } else if exists|k: int| 0 <= k < rows.len() && !row_readable(#[trigger] rows[k], v, p) {
            Err(BuildInfoError::UnknownProduct)
        } else {
            Ok(rows.map_values(|r: Seq<Seq<char>>| (r[v], product_named(r[p])->0)))
        }
    }
}

pub open spec fn entries_view(v: Seq<BuildInfoEntry>) -> Seq<(Seq<char>, Product)> {
    v.map_values(|e: BuildInfoEntry| (e.version@, e.product))
}

fn find_column(headers: &Vec<String>, name: &str) -> (r: Option<usize>)
    ensures
        r matches Some(i) ==> column(row_view(*headers), name@) == Some(i as int) && i
            < headers@.len(),
        r is None ==> column(row_view(*headers), name@) is None,
{
    let ghost h = row_view(*headers);
    let mut i: usize = 0;
    while i < headers.len()
        invariant
            i <= headers@.len(),
            h == row_view(*headers),
            column(h, name@) == column_from(h, name@, i as int),
        decreases headers@.len() - i,
    {
        if text_eq(headers[i].as_str(), name) {
            return Some(i);
        }
        i = i + 1;
    }
    None
}

/// Reads the build entries from a manifest table that is already split into
/// its header row and rows of fields.
pub fn build_infos_from_table(headers: &Vec<String>, rows: &Vec<Vec<String>>) -> (r: Result<
    Vec<BuildInfoEntry>,
    BuildInfoError,
>)
    ensures
        match build_infos_of(row_view(*headers), rows_view(*rows)) {
            Ok(es) => r matches Ok(v) && entries_view(v@) == es,
            Err(e) => r == Err::<Vec<BuildInfoEntry>, BuildInfoError>(e),
        },
{
    let ghost h = row_view(*headers);
    let ghost rs = rows_view(*rows);
    let vi = match find_column(headers, "Version!STRING:0") {
        Some(i) => i,
        None => {
            return Err(BuildInfoError::MissingColumn);
        },
    };
    let pi = match find_column(headers, "Product!STRING:0") {
        Some(i) => i,
        None => {
            return Err(BuildInfoError::MissingColumn);
        },
    };
    let mut k: usize = 0;
    while k < rows.len()
        invariant
            k <= rows@.len(),
            rs == rows_view(*rows),
            h == row_view(*headers),
            column(h, version_header()) == Some(vi as int),
            column(h, product_header()) == Some(pi as int),
            forall|j: int| 0 <= j < k ==> vi < (#[trigger] rs[j]).len() && pi < rs[j].len(),
        decreases rows@.len() - k,
    {
        if vi >= rows[k].len() || pi >= rows[k].len() {
            assert(!(vi < rs[k as int].len() && pi < rs[k as int].len()));
            assert(build_infos_of(h, rs) == Err::<Seq<(Seq<char>, Product)>, BuildInfoError>(
                BuildInfoError::ShortRow,
            ));
            return Err(BuildInfoError::ShortRow);
        }
        k = k + 1;
    }
    let mut out: Vec<BuildInfoEntry> = Vec::new();
    let mut k: usize = 0;
    while k < rows.len()
        invariant
            k <= rows@.len(),
            rs == rows_view(*rows),
            h == row_view(*headers),
            column(h, version_header()) == Some(vi as int),
            column(h, product_header()) == Some(pi as int),
            forall|j: int| 0 <= j < rs.len() ==> vi < (#[trigger] rs[j]).len() && pi < rs[j].len(),
            forall|j: int| 0 <= j < k ==> row_readable(#[trigger] rs[j], vi as int, pi as int),
            entries_view(out@) == rs.subrange(0, k as int).map_values(
                |r: Seq<Seq<char>>| (r[vi as int], product_named(r[pi as int])->0),
            ),
        decreases rows@.len() - k,
    {
        let row = &rows[k];
        assert(row_view(*row) == rs[k as int]);
        match Product::from_name(row[pi].as_str()) {
            Some(p) => {
                let ghost before = out@;
                out.push(BuildInfoEntry { version: row[vi].clone(), product: p });
                assert(entries_view(out@) =~= entries_view(before).push((rs[k as int][vi as int], p)));
                assert(rs.subrange(0, k + 1) =~= rs.subrange(0, k as int).push(rs[k as int]));
                assert(entries_view(out@) =~= rs.subrange(0, k + 1).map_values(
                    |r: Seq<Seq<char>>| (r[vi as int], product_named(r[pi as int])->0),
                ));
            },
            None => {
                assert(!row_readable(rs[k as int], vi as int, pi as int));
                assert(build_infos_of(h, rs) == Err::<Seq<(Seq<char>, Product)>, BuildInfoError>(
                    BuildInfoError::UnknownProduct,
                ));
                return Err(BuildInfoError::UnknownProduct);
            },
        }
        k = k + 1;
    }
    assert(rs.subrange(0, rs.len() as int) =~= rs);
    Ok(out)
}

/// Reads the build entries of a manifest file's contents.
pub fn get_build_infos(data: &[u8]) -> (r: Result<Vec<BuildInfoEntry>, BuildInfoError>)
    ensures
        match delimited_table(data@) {
            None => r == Err::<Vec<BuildInfoEntry>, BuildInfoError>(BuildInfoError::Malformed),
            Some((h, rows)) => match build_infos_of(h, rows) {
                Ok(es) => r matches Ok(v) && entries_view(v@) == es,
                Err(e) => r == Err::<Vec<BuildInfoEntry>, BuildInfoError>(e),
            },
        },
{
    match read_delimited_table(data) {
        Some((headers, rows)) => build_infos_from_table(&headers, &rows),
        None => Err(BuildInfoError::Malformed),
    }
}

/// Index of the first entry for `product`.
pub open spec fn first_for_product(es: Seq<(Seq<char>, Product)>, product: Product, from: int) -> Option<int>
    decreases es.len() - from,
{
    if from < 0 || from >= es.len() {
        None
    } else if es[from].1 == product {
        Some(from)
    } else {
        first_for_product(es, product, from + 1)
    }
}

pub proof fn lemma_first_for_product_found(
    es: Seq<(Seq<char>, Product)>,
    product: Product,
    from: int,
)
    ensures
        first_for_product(es, product, from) matches Some(i) ==> from <= i < es.len() && es[i].1
            == product,
    decreases es.len() - from,
{
    if 0 <= from < es.len() && es[from].1 != product {
        lemma_first_for_product_found(es, product, from + 1);
    }
}

/// The build entry of `product`: the first one for it. An empty manifest and
/// one without `product` are errors of their own.
pub fn select_build_info(entries: Vec<BuildInfoEntry>, product: Product) -> (r: Result<
    BuildInfoEntry,
    BuildInfoError,
>)
    ensures
        entries@.len() == 0 ==> r == Err::<BuildInfoEntry, BuildInfoError>(
            BuildInfoError::NoBuildInfo,
        ),
        entries@.len() > 0 && first_for_product(entries_view(entries@), product, 0) is None ==> r
            == Err::<BuildInfoEntry, BuildInfoError>(BuildInfoError::ProductNotFound),
        first_for_product(entries_view(entries@), product, 0) matches Some(i) ==> r == Ok::<
            BuildInfoEntry,
            BuildInfoError,
        >(entries@[i]),
{
    let mut list = entries;
    let ghost initial = list@;
    let ghost es = entries_view(list@);
    if list.len() == 0 {
        return Err(BuildInfoError::NoBuildInfo);
    }
    let mut k: usize = 0;
    while k < list.len()
        invariant
            k <= initial.len(),
            list@ == initial,
            initial == entries@,
            es == entries_view(initial),
            first_for_product(es, product, 0) == first_for_product(es, product, k as int),
        decreases initial.len() - k,
    {
        if list[k].product == product {
            assert(es[k as int].1 == product);
            let e = list.remove(k);
            return Ok(e);
        }
        k = k + 1;
    }
    Err(BuildInfoError::ProductNotFound)
}

} // verus!
