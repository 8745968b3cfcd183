//! QR codes as text.
use qrcodegen::{QrCode, QrCodeEcc};
use vstd::prelude::*;

verus! {

/// `qrcodegen::QrCode`. Which of its modules are dark is said by [`modules_of`].
#[verifier::external_type_specification]
#[verifier::external_body]
pub struct ExQrCode(qrcodegen::QrCode);

/// How much of a code may be damaged before it cannot be read any more.
#[derive(Clone, Copy, PartialEq, Eq, Structural, Debug)]
pub enum EccLevel {
    Low,
    Medium,
    Quartile,
    High,
}

/// The modules of a code, row by row from the top: true where dark.
pub uninterp spec fn modules_of(code: QrCode) -> Seq<Seq<bool>>;

/// The modules of the code for a text, or why there is none.
pub uninterp spec fn encoding(text: Seq<char>, level: EccLevel) -> Result<
    Seq<Seq<bool>>,
    Seq<char>,
>;

/// `QrCode::encode_text`: which code a text gets, or that it is too long, depends on the text and
/// the level alone. The reason is the `Debug` form of the error.
#[verifier::external_body]
fn encode_text(text: &str, level: EccLevel) -> (r: Result<QrCode, String>)
    ensures
        match encoding(text@, level) {
            Ok(modules) => r is Ok && modules_of(r->Ok_0) == modules,
            Err(reason) => r is Err && r->Err_0@ == reason,
        },
{
    let ecl = match level {
        EccLevel::Low => QrCodeEcc::Low,
        EccLevel::Medium => QrCodeEcc::Medium,
        EccLevel::Quartile => QrCodeEcc::Quartile,
        EccLevel::High => QrCodeEcc::High,
    };
    QrCode::encode_text(text, ecl).map_err(|err| format!("{:?}", err))
}

/// `QrCode::size`: how many rows, and how many modules in each, from 21 to 177.
#[verifier::external_body]
fn size(code: &QrCode) -> (r: i32)
    ensures
        21 <= r <= 177,
        modules_of(*code).len() == r,
        forall|y: int| 0 <= y < r ==> (#[trigger] modules_of(*code)[y]).len() == r,
{
    code.size()
}

/// `QrCode::get_module`: whether a module is dark; outside the code all is light.
#[verifier::external_body]
fn get_module(code: &QrCode, x: i32, y: i32) -> (r: bool)
    ensures
        r == dark(modules_of(*code), x as int, y as int),
{
    code.get_module(x, y)
}

/// Whether the module in column `x` of row `y` is dark; outside the rows all is light.
pub open spec fn dark(modules: Seq<Seq<bool>>, x: int, y: int) -> bool {
    0 <= y < modules.len() && 0 <= x < modules[y].len() && modules[y][x]
}

/// How a module is drawn.
pub open spec fn block(dark: bool) -> Seq<char> {
    if dark {
        "██"@
    } else {
        "  "@
    }
}

/// The coordinates that are drawn: those of the code, with a border of two on each side.
pub open spec fn drawn(size: nat) -> Seq<int> {
    Seq::new(size + 4, |i: int| i - 2)
}

/// One row of a drawing.
pub open spec fn row_text(modules: Seq<Seq<bool>>, y: int) -> Seq<char> {
    drawn(modules.len()).flat_map(|x: int| block(dark(modules, x, y)))
}

/// The drawing of a code.
pub open spec fn picture(modules: Seq<Seq<bool>>) -> Seq<char> {
    drawn(modules.len()).flat_map(|y: int| row_text(modules, y) + "\n"@)
}

/// What rows of modules hold.
pub open spec fn rows(modules: Seq<Vec<bool>>) -> Seq<Seq<bool>> {
    modules.map_values(|row: Vec<bool>| row@)
}

/// Reads the modules of a code.
fn read_modules(code: &QrCode) -> (r: Vec<Vec<bool>>)
    ensures
        rows(r@) == modules_of(*code),
        r@.len() <= 177,
{
    let ghost all = modules_of(*code);
    let n: i32 = size(code);
    let mut r: Vec<Vec<bool>> = Vec::new();
    let mut y: i32 = 0;
    while y < n
        invariant
            all == modules_of(*code),
            all.len() == n,
            n <= 177,
            forall|k: int| 0 <= k < n ==> (#[trigger] all[k]).len() == n,
            0 <= y <= n,
            rows(r@) == all.take(y as int),
        decreases n - y,
    {
        let mut row: Vec<bool> = Vec::new();
        let mut x: i32 = 0;
        while x < n
            invariant
                all == modules_of(*code),
                all.len() == n,
                all[y as int].len() == n,
                0 <= y < n,
                0 <= x <= n,
                row@ == all[y as int].take(x as int),
            decreases n - x,
        {
            row.push(get_module(code, x, y));
            assert(row@ =~= all[y as int].take(x + 1));
            x = x + 1;
        }
        assert(row@ =~= all[y as int]);
        let ghost before = r@;
        r.push(row);
        assert(rows(r@) =~= rows(before).push(all[y as int]));
        assert(rows(r@) =~= all.take(y + 1));
        y = y + 1;
    }
    assert(all.take(y as int) =~= all);
    assert(rows(r@).len() == r@.len());
    r
}

/// Draws rows of modules with a border of two around them, two characters for a module.
pub fn draw(modules: &Vec<Vec<bool>>) -> (r: String)
    requires
        modules@.len() + 4 <= usize::MAX,
    ensures
        r@ == picture(rows(modules@)),
{
    let ghost all = rows(modules@);
    let ghost at = drawn(all.len());
    let n: usize = modules.len();
    let ghost f = |y: int| row_text(all, y) + "\n"@;
    let mut out = String::new();
    let mut j: usize = 0;
    assert(out@ =~= at.take(0).flat_map(f));
    while j < n + 4
        invariant
            all == rows(modules@),
            at == drawn(all.len()),
            f == (|y: int| row_text(all, y) + "\n"@),
            n == modules@.len(),
            n + 4 <= usize::MAX,
            j <= n + 4,
            out@ == at.take(j as int).flat_map(f),
        decreases n + 4 - j,
    {
        let ghost y = j - 2;
        let ghost g = |x: int| block(dark(all, x, y));
        let mut line = String::new();
        let mut i: usize = 0;
        assert(line@ =~= at.take(0).flat_map(g));
        while i < n + 4
            invariant
                all == rows(modules@),
                at == drawn(all.len()),
                y == j - 2,
                g == (|x: int| block(dark(all, x, y))),
                n == modules@.len(),
                n + 4 <= usize::MAX,
                j < n + 4,
                i <= n + 4,
                line@ == at.take(i as int).flat_map(g),
            decreases n + 4 - i,
        {
            let is_dark = j >= 2 && j - 2 < n && i >= 2 && i - 2 < modules[j - 2].len()
                && modules[j - 2][i - 2];
            proof {
                if j >= 2 && j - 2 < n {
                    assert(all[j - 2] == modules@[j - 2]@);
                }
                assert(at[i as int] == i - 2);
                assert(is_dark == dark(all, i - 2, y));
                at.lemma_flat_map_take_append(g, i as int);
            }
            if is_dark {
                line.append("██");
            } else {
                line.append("  ");
            }
            i = i + 1;
        }
        assert(at.take(i as int) =~= at);
        assert(line@ == row_text(all, y));
        line.append("\n");
        out.append(line.as_str());
        proof {
            assert(at[j as int] == y);
            at.lemma_flat_map_take_append(f, j as int);
        }
        j = j + 1;
    }
    assert(at.take(j as int) =~= at);
    out
}

/// Draws the code for `data` at the medium level of error correction.
pub fn qr_text(data: &str) -> (r: Result<String, String>)
    ensures
        match encoding(data@, EccLevel::Medium) {
            Ok(modules) => r is Ok && r->Ok_0@ == picture(modules),
            Err(reason) => r is Err && r->Err_0@ == "encoding QR: "@ + reason,
        },
{
    match encode_text(data, EccLevel::Medium) {
        Ok(code) => Ok(draw(&read_modules(&code))),
        Err(reason) => {
            let mut message = "encoding QR: ".to_string();
            message.append(reason.as_str());
            Err(message)
        },
    }
}

} // verus!
