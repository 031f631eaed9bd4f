//! Import cycles among the files of an analysis: a file is on a cycle when a
//! chain of its imports, each resolved to a file of the same analysis, leads
//! back to it.
use vstd::prelude::*;
use vstd::utf8::encode_utf8;
use crate::text::{bytes_eq, ends_with, ends_with_bytes};
use crate::types::AnalysisResult;

verus! {

/// An import target names a file when the file's path is the target, or
/// ends with `/` followed by the target.
pub open spec fn resolves(target: Seq<u8>, path: Seq<u8>) -> bool {
    path == target || ends_with(path, seq![47u8] + target)
}

/// File `i` imports file `j`.
pub open spec fn imports_file(files: Seq<AnalysisResult>, i: int, j: int) -> bool {
    exists|m: int|
        0 <= m < files[i].imports@.len() && resolves(
            encode_utf8(#[trigger] files[i].imports@[m].path@),
            encode_utf8(files[j].file_info.name@),
        )
}

/// A chain of imports leads from `i` to `j` whose intermediate files all
/// have an index below `k`: either one avoids `k - 1`, or it passes through
/// it once.
pub open spec fn chain_below(files: Seq<AnalysisResult>, k: nat, i: int, j: int) -> bool
    decreases k,
{
    if k == 0 {
        imports_file(files, i, j)
    } else {
        let m = k - 1;
        chain_below(files, m as nat, i, j) || (chain_below(files, m as nat, i, m)
            && chain_below(files, m as nat, m, j))
    }
}

/// File `i` is on an import cycle.
pub open spec fn on_import_cycle(files: Seq<AnalysisResult>, i: int) -> bool {
    chain_below(files, files.len(), i, i)
}

/// The names of the files on an import cycle, in file order.
pub open spec fn cycle_files(files: Seq<AnalysisResult>, n: int) -> Seq<Seq<char>>
    decreases n,
{
    if n <= 0 {
        seq![]
    } else if on_import_cycle(files, n - 1) {
        cycle_files(files, n - 1).push(files[n - 1].file_info.name@)
    } else {
        cycle_files(files, n - 1)
    }
}

fn resolves_exec(target: &[u8], path: &[u8]) -> (r: bool)
    ensures
        r == resolves(target@, path@),
{
    if bytes_eq(path, target) {
        return true;
    }
    let mut slashed: Vec<u8> = Vec::new();
    slashed.push(47u8);
    let mut i: usize = 0;
    while i < target.len()
        invariant
            i <= target@.len(),
            slashed@ == seq![47u8] + target@.subrange(0, i as int),
        decreases target@.len() - i,
    {
        slashed.push(target[i]);
        i = i + 1;
        proof {
            assert(slashed@ =~= seq![47u8] + target@.subrange(0, i as int));
        }
    }
    proof {
        assert(target@.subrange(0, target@.len() as int) =~= target@);
    }
    ends_with_bytes(path, slashed.as_slice())
}

fn imports_file_exec(files: &Vec<AnalysisResult>, i: usize, j: usize) -> (r: bool)
    requires
        i < files@.len(),
        j < files@.len(),
    ensures
        r == imports_file(files@, i as int, j as int),
{
    let imports = &files[i].imports;
    let name = files[j].file_info.name.as_str().as_bytes();
    let mut m: usize = 0;
    while m < imports.len()
        invariant
            m <= imports@.len(),
            imports@ == files@[i as int].imports@,
            name@ == encode_utf8(files@[j as int].file_info.name@),
            forall|x: int|
                0 <= x < m ==> !resolves(
                    encode_utf8(#[trigger] files@[i as int].imports@[x].path@),
                    encode_utf8(files@[j as int].file_info.name@),
                ),
        decreases imports@.len() - m,
    {
        if resolves_exec(imports[m].path.as_str().as_bytes(), name) {
            return true;
        }
        m = m + 1;
    }
    false
}

/// Rows of a square boolean matrix.
pub open spec fn square(rows: Seq<Vec<bool>>, n: int) -> bool {
    rows.len() == n && forall|i: int| 0 <= i < n ==> (#[trigger] rows[i])@.len() == n
}

/// The names of the files that lie on an import cycle, in file order.
pub fn include_cycles(files: &Vec<AnalysisResult>) -> (r: Vec<String>)
    ensures
        r@.map_values(|s: String| s@) == cycle_files(files@, files@.len() as int),
{
    let n = files.len();
    let mut rows: Vec<Vec<bool>> = Vec::new();
    let mut i: usize = 0;
    while i < n
        invariant
            n == files@.len(),
            i <= n,
            rows@.len() == i,
            forall|a: int| 0 <= a < i ==> (#[trigger] rows@[a])@.len() == n,
            forall|a: int, b: int|
                0 <= a < i && 0 <= b < n ==> #[trigger] rows@[a]@[b] == chain_below(
                    files@,
                    0,
                    a,
                    b,
                ),
        decreases n - i,
    {
        let mut row: Vec<bool> = Vec::new();
        let mut j: usize = 0;
        while j < n
            invariant
                n == files@.len(),
                i < n,
                j <= n,
                row@.len() == j,
                forall|b: int| 0 <= b < j ==> row@[b] == chain_below(files@, 0, i as int, b),
            decreases n - j,
        {
            row.push(imports_file_exec(files, i, j));
            j = j + 1;
        }
        rows.push(row);
        i = i + 1;
    }
    let mut k: usize = 0;
    while k < n
        invariant
            n == files@.len(),
            k <= n,
            square(rows@, n as int),
            forall|a: int, b: int|
                0 <= a < n && 0 <= b < n ==> #[trigger] rows@[a]@[b] == chain_below(
                    files@,
                    k as nat,
                    a,
                    b,
                ),
        decreases n - k,
    {
        let mut next: Vec<Vec<bool>> = Vec::new();
        let mut a: usize = 0;
        while a < n
            invariant
                n == files@.len(),
                k < n,
                a <= n,
                square(rows@, n as int),
                forall|x: int, y: int|
                    0 <= x < n && 0 <= y < n ==> #[trigger] rows@[x]@[y] == chain_below(
                        files@,
                        k as nat,
                        x,
                        y,
                    ),
                next@.len() == a,
                forall|x: int| 0 <= x < a ==> (#[trigger] next@[x])@.len() == n,
                forall|x: int, y: int|
                    0 <= x < a && 0 <= y < n ==> #[trigger] next@[x]@[y] == chain_below(
                        files@,
                        (k + 1) as nat,
                        x,
                        y,
                    ),
            decreases n - a,
        {
            let through = rows[a][k];
            let mut row: Vec<bool> = Vec::new();
            let mut b: usize = 0;
            while b < n
                invariant
                    n == files@.len(),
                    k < n,
                    a < n,
                    b <= n,
                    square(rows@, n as int),
                    forall|x: int, y: int|
                        0 <= x < n && 0 <= y < n ==> #[trigger] rows@[x]@[y] == chain_below(
                            files@,
                            k as nat,
                            x,
                            y,
                        ),
                    through == chain_below(files@, k as nat, a as int, k as int),
                    row@.len() == b,
                    forall|y: int|
                        0 <= y < b ==> row@[y] == chain_below(files@, (k + 1) as nat, a as int, y),
                decreases n - b,
            {
                let v = rows[a][b] || (through && rows[k][b]);
                row.push(v);
                b = b + 1;
            }
            next.push(row);
            a = a + 1;
        }
        rows = next;
        k = k + 1;
    }
    let mut out: Vec<String> = Vec::new();
    let mut c: usize = 0;
    while c < n
        invariant
            n == files@.len(),
            c <= n,
            square(rows@, n as int),
            forall|a: int, b: int|
                0 <= a < n && 0 <= b < n ==> #[trigger] rows@[a]@[b] == chain_below(
                    files@,
                    n as nat,
                    a,
                    b,
                ),
            out@.map_values(|s: String| s@) == cycle_files(files@, c as int),
        decreases n - c,
    {
        if rows[c][c] {
            let ghost before = out@;
            out.push(files[c].file_info.name.clone());
            proof {
                assert(out@.map_values(|s: String| s@) =~= before.map_values(|s: String| s@).push(
                    files@[c as int].file_info.name@,
                ));
            }
        }
        c = c + 1;
    }
    out
}

} // verus!
