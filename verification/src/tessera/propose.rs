//! `mc tessera propose`: the driver chosen from a source file's extension,
//! and the recipe template written for a source and a model. Reading the
//! source schema and the model is the caller's part.
use crate::text::{join, lit, push_joined, push_str, rfind_char, split_on, str_eq};
use vstd::prelude::*;

verus! {

/// The last of the parts that is neither empty nor `.`.
pub open spec fn last_named(parts: Seq<Seq<char>>) -> Option<Seq<char>>
    decreases parts.len(),
{
    if parts.len() == 0 {
        None
    } else if parts.last().len() > 0 && parts.last() != "."@ {
        Some(parts.last())
    } else {
        last_named(parts.drop_last())
    }
}

/// The final name of a path as `std::path::Path` sees it: the last part
/// between `/`s that is neither empty nor `.`, unless that is `..`.
pub open spec fn file_name_of(p: Seq<char>) -> Option<Seq<char>> {
    match last_named(split_on(p, '/')) {
        Some(n) => if n == ".."@ {
            None
        } else {
            Some(n)
        },
        None => None,
    }
}

/// The extension of a path (`Path::extension`): what follows the last `.`
/// of the file name, when something precedes that `.`.
pub open spec fn extension_of(p: Seq<char>) -> Option<Seq<char>> {
    match file_name_of(p) {
        None => None,
        Some(n) => match rfind_char(n, '.') {
            None => None,
            Some(k) => if k == 0 {
                None
            } else {
                Some(n.subrange(k + 1, n.len() as int))
            },
        },
    }
}

/// `Path::new(p).extension()` as text. Claims that std's extension is
/// [`extension_of`]: the file name is the last normal component (empty
/// and `.` components are dropped, `..` has none), and the extension is
/// the part after its last dot unless that dot begins the name. The
/// claim is made for Unix path syntax, where only `/` separates
/// components; on Windows `\` separates them too and a prefix such as
/// `C:` is read, which this contract does not describe.
#[verifier::external_body]
fn path_extension(p: &str) -> (r: Option<String>)
    ensures
        r.deep_view() == extension_of(p@),
{
    std::path::Path::new(p).extension().and_then(|e| e.to_str()).map(String::from)
}

/// The driver for an extension; anything unknown reads as CSV.
pub open spec fn driver_for(ext: Option<Seq<char>>) -> Seq<char> {
    match ext {
        Some(e) => if e == "db"@ || e == "sqlite"@ || e == "sqlite3"@ {
            "sqlite"@
        } else if e == "duckdb"@ {
            "duckdb"@
        } else {
            "csv"@
        },
        None => "csv"@,
    }
}

/// The source driver `propose` uses for `source_path`.
pub fn propose_driver(source_path: &str) -> (r: &'static str)
    ensures
        r@ == driver_for(extension_of(source_path@)),
{
    match path_extension(source_path) {
        Some(e) => {
            if str_eq(e.as_str(), "db") || str_eq(e.as_str(), "sqlite") || str_eq(e.as_str(), "sqlite3") {
                "sqlite"
            } else if str_eq(e.as_str(), "duckdb") {
                "duckdb"
            } else {
                "csv"
            }
        },
        None => "csv",
    }
}

/// The model's dimensions other than `Measure`, in order.
pub open spec fn non_measure(dims: Seq<Seq<char>>) -> Seq<Seq<char>>
    decreases dims.len(),
{
    if dims.len() == 0 {
        Seq::empty()
    } else {
        let p = non_measure(dims.drop_last());
        if dims.last() == "Measure"@ {
            p
        } else {
            p.push(dims.last())
        }
    }
}

/// The names of the measures whose role is `Input`, in order.
pub open spec fn input_names(ms: Seq<(Seq<char>, Seq<char>)>) -> Seq<Seq<char>>
    decreases ms.len(),
{
    if ms.len() == 0 {
        Seq::empty()
    } else {
        let p = input_names(ms.drop_last());
        if ms.last().1 == "Input"@ {
            p.push(ms.last().0)
        } else {
            p
        }
    }
}

/// One mapping entry per source column.
pub open spec fn column_lines(cols: Seq<Seq<char>>) -> Seq<char>
    decreases cols.len(),
{
    if cols.len() == 0 {
        Seq::empty()
    } else {
        column_lines(cols.drop_last()) + "  - source: "@ + cols.last() + "\n    # TODO: map to dimension or measure\n"@
    }
}

/// The recipe template for `source` (read with `driver`) and `model`,
/// whose dimensions are `dims` and whose measures are `measures` (name
/// and role), over the source's `columns`.
pub open spec fn template_spec(
    source: Seq<char>,
    model: Seq<char>,
    driver: Seq<char>,
    dims: Seq<Seq<char>>,
    measures: Seq<(Seq<char>, Seq<char>)>,
    columns: Seq<Seq<char>>,
) -> Seq<char> {
    "# Tessera recipe template — generated by `mc tessera propose`\n# Source: "@ + source + "\n# Model:  "@
        + model + "\n#\n# Model dimensions: "@ + join(non_measure(dims), ", "@)
        + "\n# Model input measures: "@ + join(input_names(measures), ", "@)
        + "\n#\n# Source columns: "@ + join(columns, ", "@)
        + "\n#\n# TODO: map each source column to a dimension or measure below.\n\nversion: 1\nname: TODO-recipe-name\nmodel: "@
        + model + "\n\nsource:\n  driver: "@ + driver + "\n  path: "@ + source + "\n\ncolumns:\n"@
        + column_lines(columns)
        + "\ndefaults: {}\n\nwrite_disposition: replace\non_error: abort\non_missing_element: error\n\nbatch:\n  size: 50000\n"@
}

pub open spec fn pair_views(v: Seq<(String, String)>) -> Seq<(Seq<char>, Seq<char>)> {
    v.map_values(|p: (String, String)| (p.0@, p.1@))
}

fn kept_dims(dims: &Vec<String>) -> (r: Vec<String>)
    ensures
        r.deep_view() == non_measure(dims.deep_view()),
{
    let mut r: Vec<String> = Vec::new();
    let mut i: usize = 0;
    assert(r.deep_view() =~= non_measure(dims.deep_view().take(0)));
    while i < dims.len()
        invariant
            i <= dims@.len(),
            r.deep_view() == non_measure(dims.deep_view().take(i as int)),
        decreases dims@.len() - i,
    {
        let ghost prev = r.deep_view();
        assert(dims.deep_view().take(i + 1).drop_last() =~= dims.deep_view().take(i as int));
        assert(dims.deep_view().take(i + 1).last() == dims@[i as int]@);
        if !str_eq(dims[i].as_str(), "Measure") {
            r.push(dims[i].clone());
            assert(r.deep_view() =~= prev.push(dims@[i as int]@));
        }
        i += 1;
    }
    assert(dims.deep_view().take(dims@.len() as int) =~= dims.deep_view());
    r
}

fn input_measures(ms: &Vec<(String, String)>) -> (r: Vec<String>)
    ensures
        r.deep_view() == input_names(pair_views(ms@)),
{
    let ghost pv = pair_views(ms@);
    let mut r: Vec<String> = Vec::new();
    let mut i: usize = 0;
    assert(r.deep_view() =~= input_names(pv.take(0)));
    while i < ms.len()
        invariant
            i <= ms@.len() == pv.len(),
            pv == pair_views(ms@),
            r.deep_view() == input_names(pv.take(i as int)),
        decreases ms@.len() - i,
    {
        let ghost prev = r.deep_view();
        assert(pv.take(i + 1).drop_last() =~= pv.take(i as int));
        assert(pv.take(i + 1).last() == (ms@[i as int].0@, ms@[i as int].1@));
        if str_eq(ms[i].1.as_str(), "Input") {
            r.push(ms[i].0.clone());
            assert(r.deep_view() =~= prev.push(ms@[i as int].0@));
        }
        i += 1;
    }
    assert(pv.take(pv.len() as int) =~= pv);
    r
}

/// The recipe template `propose` writes.
pub fn propose_template(
    source: &str,
    model: &str,
    driver: &str,
    dims: &Vec<String>,
    measures: &Vec<(String, String)>,
    columns: &Vec<String>,
) -> (r: String)
    ensures
        r@ == template_spec(source@, model@, driver@, dims.deep_view(), pair_views(measures@), columns.deep_view()),
{
    let kd = kept_dims(dims);
    let im = input_measures(measures);
    let mut out = lit("# Tessera recipe template — generated by `mc tessera propose`\n# Source: ");
    push_str(&mut out, source);
    push_str(&mut out, "\n# Model:  ");
    push_str(&mut out, model);
    push_str(&mut out, "\n#\n# Model dimensions: ");
    push_joined(&mut out, &kd, ", ");
    push_str(&mut out, "\n# Model input measures: ");
    push_joined(&mut out, &im, ", ");
    push_str(&mut out, "\n#\n# Source columns: ");
    push_joined(&mut out, columns, ", ");
    push_str(
        &mut out,
        "\n#\n# TODO: map each source column to a dimension or measure below.\n\nversion: 1\nname: TODO-recipe-name\nmodel: ",
    );
    push_str(&mut out, model);
    push_str(&mut out, "\n\nsource:\n  driver: ");
    push_str(&mut out, driver);
    push_str(&mut out, "\n  path: ");
    push_str(&mut out, source);
    push_str(&mut out, "\n\ncolumns:\n");
    let ghost head = out@;
    let ghost cv = columns.deep_view();
    let mut i: usize = 0;
    assert(column_lines(cv.take(0)) =~= Seq::<char>::empty());
    while i < columns.len()
        invariant
            i <= columns@.len() == cv.len(),
            cv == columns.deep_view(),
            out@ == head + column_lines(cv.take(i as int)),
        decreases columns@.len() - i,
    {
        assert(cv.take(i + 1).drop_last() =~= cv.take(i as int));
        assert(cv.take(i + 1).last() == columns@[i as int]@);
        push_str(&mut out, "  - source: ");
        push_str(&mut out, columns[i].as_str());
        push_str(&mut out, "\n    # TODO: map to dimension or measure\n");
        i += 1;
        assert(out@ =~= head + column_lines(cv.take(i as int)));
    }
    assert(cv.take(cv.len() as int) =~= cv);
    push_str(
        &mut out,
        "\ndefaults: {}\n\nwrite_disposition: replace\non_error: abort\non_missing_element: error\n\nbatch:\n  size: 50000\n",
    );
    out
}

} // verus!
