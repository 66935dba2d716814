//! QR codes of access links, drawn as SVG.

use vstd::prelude::*;
use vstd::string::*;
use vstd::utf8::encode_utf8;
use crate::text::{decimal, u64_to_string};

verus! {

/// The modules of the QR code that qrcodegen makes of a text at medium
/// error correction, row by row, `true` for a dark module; none when the
/// text does not fit in any QR code version.
pub uninterp spec fn qr_modules(text: Seq<char>) -> Option<Seq<Seq<bool>>>;

/// The rows of a grid, each taken by its contents.
pub open spec fn grid_view(g: Seq<Vec<bool>>) -> Seq<Seq<bool>> {
    Seq::new(g.len(), |i: int| g[i]@)
}

/// `QrCode::encode_text(value, QrCodeEcc::Medium)` of qrcodegen, read out
/// with `size` and `get_module`. Trusted: the grid is named `qr_modules` of
/// the text; it is square with a side of `17 + 4 * version` for a version
/// from 1 to 40 (`encode_codewords`; `size` is documented to lie in 21 to
/// 177). A text of at most 2331 UTF-8 bytes always fits: `make_segments`
/// picks a numeric, alphanumeric or byte segment, and even the byte segment
/// (4 mode bits, 16 count bits, 8 bits per byte) fits in the 2334 data
/// codewords (18672 bits) of version 40 at medium error correction
/// (3706 codewords less 49 blocks of 28 error-correction codewords).
/// The smallest version that fits is chosen (`encode_segments` searches
/// from `Version::MIN`), so the empty text, which needs no data bits, gets
/// version 1 and a side of 21.
#[verifier::external_body]
fn qr_grid(value: &str) -> (r: Option<Vec<Vec<bool>>>)
    ensures
        r matches Some(g) ==> qr_modules(value@) == Some(grid_view(g@)),
        r matches Some(g) ==> (g@.len() - 17) % 4 == 0,
        r matches Some(g) ==> 21 <= g@.len() <= 177,
        encode_utf8(value@).len() <= 2331 ==> r is Some,
        r matches Some(g) ==> forall|i: int| 0 <= i < g@.len() ==> (#[trigger] g@[i])@.len() == g@.len(),
        r is None ==> qr_modules(value@) is None,
        value@.len() == 0 ==> r is Some && r.unwrap()@.len() == 21,
{
    let qr = match qrcodegen::QrCode::encode_text(value, qrcodegen::QrCodeEcc::Medium) {
        Ok(q) => q,
        Err(_) => return None,
    };
    let n = qr.size();
    Some((0..n).map(|y| (0..n).map(|x| qr.get_module(x, y)).collect()).collect())
}

/// The SVG path of one dark module, drawn inside a border of 4 modules.
pub open spec fn dark_module_path(x: int, y: int) -> Seq<char> {
    "M"@ + decimal((x + 4) as nat) + ","@ + decimal((y + 4) as nat) + "h1v1h-1z"@
}

/// The path of the dark modules among the first `k` of row `y`.
pub open spec fn row_path(row: Seq<bool>, y: int, k: int) -> Seq<char>
    decreases k,
{
    if k <= 0 {
        Seq::empty()
    } else {
        row_path(row, y, k - 1) + if row[k - 1] {
            dark_module_path(k - 1, y)
        } else {
            Seq::empty()
        }
    }
}

/// The path of the dark modules of the first `k` rows.
pub open spec fn grid_path(g: Seq<Seq<bool>>, k: int) -> Seq<char>
    decreases k,
{
    if k <= 0 {
        Seq::empty()
    } else {
        grid_path(g, k - 1) + row_path(g[k - 1], k - 1, g[k - 1].len() as int)
    }
}

/// The SVG picture of a grid of modules: a white square with a border of 4
/// modules and a black path over the dark ones.
pub open spec fn qr_svg_text(g: Seq<Seq<bool>>) -> Seq<char> {
    let total = decimal((g.len() + 8) as nat);
    "<svg xmlns='http://www.w3.org/2000/svg' viewBox='0 0 "@ + total + " "@ + total
        + "' shape-rendering='crispEdges'><rect width='100%' height='100%' fill='white'/><path d='"@
        + grid_path(g, g.len() as int) + "' fill='black'/></svg>"@
}

/// Draws a grid of modules as SVG (see `qr_svg_text`).
pub fn svg_of_modules(grid: &Vec<Vec<bool>>) -> (r: String)
    requires
        grid@.len() <= usize::MAX - 8,
        forall|i: int| 0 <= i < grid@.len() ==> (#[trigger] grid@[i])@.len() <= usize::MAX - 4,
    ensures
        r@ == qr_svg_text(grid_view(grid@)),
{
    let ghost g = grid_view(grid@);
    let mut path = String::new();
    let mut y: usize = 0;
    while y < grid.len()
        invariant
            g == grid_view(grid@),
            grid@.len() <= usize::MAX - 8,
            forall|i: int| 0 <= i < grid@.len() ==> (#[trigger] grid@[i])@.len() <= usize::MAX - 4,
            y <= grid@.len(),
            path@ == grid_path(g, y as int),
        decreases grid@.len() - y,
    {
        let row = &grid[y];
        assert(g[y as int] == row@);
        let mut x: usize = 0;
        let ghost start = path@;
        while x < row.len()
            invariant
                g == grid_view(grid@),
                y < grid@.len(),
                grid@.len() <= usize::MAX - 8,
                row@.len() <= usize::MAX - 4,
                row@ == g[y as int],
                x <= row@.len(),
                start == grid_path(g, y as int),
                path@ == start + row_path(row@, y as int, x as int),
            decreases row@.len() - x,
        {
            let ghost before = path@;
            if row[x] {
                path.append("M");
                let xs = u64_to_string(x as u64 + 4);
                path.append(xs.as_str());
                path.append(",");
                let ys = u64_to_string(y as u64 + 4);
                path.append(ys.as_str());
                path.append("h1v1h-1z");
                proof {
                    assert(path@ =~= before + dark_module_path(x as int, y as int));
                }
            }
            proof {
                assert(row_path(row@, y as int, x + 1) == row_path(row@, y as int, x as int) + if row@[x as int] {
                    dark_module_path(x as int, y as int)
                } else {
                    Seq::empty()
                });
                assert(path@ =~= start + row_path(row@, y as int, x + 1));
            }
            x = x + 1;
        }
        y = y + 1;
    }
    let total = u64_to_string(grid.len() as u64 + 8);
    let mut out = String::new();
    out.append("<svg xmlns='http://www.w3.org/2000/svg' viewBox='0 0 ");
    out.append(total.as_str());
    out.append(" ");
    out.append(total.as_str());
    out.append(
        "' shape-rendering='crispEdges'><rect width='100%' height='100%' fill='white'/><path d='",
    );
    out.append(path.as_str());
    out.append("' fill='black'/></svg>");
    proof {
        assert(out@ =~= qr_svg_text(g));
    }
    out
}

/// The QR code of a text as SVG; none when the text is too long for a QR
/// code. A text of at most 2331 UTF-8 bytes always has one. The grid is
/// square, with a side of `17 + 4 * version` from 21 to 177; the empty text
/// has a side of 21.
pub fn qr_svg(value: &str) -> (r: Option<String>)
    ensures
        match qr_modules(value@) {
            Some(g) => r matches Some(t) && t@ == qr_svg_text(g),
            None => r is None,
        },
        qr_modules(value@) matches Some(g) ==> {
            &&& (g.len() - 17) % 4 == 0
            &&& 21 <= g.len() <= 177
            &&& forall|i: int| 0 <= i < g.len() ==> (#[trigger] g[i]).len() == g.len()
        },
        value@.len() == 0 ==> qr_modules(value@) is Some && qr_modules(value@).unwrap().len() == 21,
        encode_utf8(value@).len() <= 2331 ==> r is Some,
{
    match qr_grid(value) {
        Some(grid) => {
            proof {
                assert forall|i: int| 0 <= i < grid@.len() implies (#[trigger] grid_view(grid@)[i]).len()
                    == grid_view(grid@).len() by {
                    assert(grid@[i]@.len() == grid@.len());
                }
            }
            Some(svg_of_modules(&grid))
        },
        None => None,
    }
}

} // verus!
