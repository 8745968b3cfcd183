//! What holds of every drawing of a code.
use vstd::prelude::*;

use crate::pair;
use crate::pair::{PairArgs, PairOutput};
use crate::qr;
use crate::qr::EccLevel;

verus! {

/// Where all parts of a concatenation have one length, its length is so many times that.
proof fn lemma_even_length<A, B>(s: Seq<A>, f: spec_fn(A) -> Seq<B>, width: nat)
    requires
        forall|i: int| 0 <= i < s.len() ==> (#[trigger] f(s[i])).len() == width,
    ensures
        s.flat_map(f).len() == s.len() * width,
    decreases s.len(),
{
    if s.len() == 0 {
        assert(s.flat_map(f) =~= Seq::<B>::empty());
    } else {
        let rest = s.drop_last();
        let n = s.len() - 1;
        assert forall|i: int| 0 <= i < rest.len() implies (#[trigger] f(rest[i])).len()
            == width by {
            assert(rest[i] == s[i]);
        }
        lemma_even_length(rest, f, width);
        s.lemma_flat_map_take_append(f, n);
        assert(s.take(n) =~= rest);
        assert(s.take(n + 1) =~= s);
        assert(f(s[n]).len() == width);
        assert(n * width + width == s.len() * width) by (nonlinear_arith)
            requires
                n == s.len() - 1,
        ;
    }
}

/// Where all parts of a concatenation have one length, each entry of a part is found by the part's
/// number and the place in it.
proof fn lemma_even_parts<A, B>(s: Seq<A>, f: spec_fn(A) -> Seq<B>, width: nat, i: int, c: int)
    requires
        forall|i: int| 0 <= i < s.len() ==> (#[trigger] f(s[i])).len() == width,
        0 <= i < s.len(),
        0 <= c < width,
    ensures
        s.flat_map(f).len() == s.len() * width,
        0 <= i * width + c < s.len() * width,
        s.flat_map(f)[i * width + c] == f(s[i])[c],
    decreases s.len(),
{
    let rest = s.drop_last();
    let n = s.len() - 1;
    assert forall|i: int| 0 <= i < rest.len() implies (#[trigger] f(rest[i])).len() == width by {
        assert(rest[i] == s[i]);
    }
    lemma_even_length(s, f, width);
    lemma_even_length(rest, f, width);
    s.lemma_flat_map_take_append(f, n);
    assert(s.take(n) =~= rest);
    assert(s.take(n + 1) =~= s);
    assert(f(s[n]).len() == width);
    assert(0 <= i * width + c < s.len() * width) by (nonlinear_arith)
        requires
            0 <= i < s.len(),
            0 <= c < width,
    ;
    if i < n {
        lemma_even_parts(rest, f, width, i, c);
        assert(rest[i] == s[i]);
    }
}

/// A drawing of `n` rows has `n + 4` lines, each of `2 * (n + 4)` characters and a line break, and
/// nothing else. A module takes two characters: full blocks exactly if it stands in the rows and is
/// dark, and blanks otherwise, so that there is a border of two light modules on each side.
pub proof fn law_every_module_is_drawn(modules: Seq<Seq<bool>>, x: int, y: int)
    requires
        -2 <= x < modules.len() + 2,
        -2 <= y < modules.len() + 2,
    ensures
        ({
            let n = modules.len() as int;
            let width = 2 * (n + 4) + 1;
            let text = qr::picture(modules);
            let at = (y + 2) * width + 2 * (x + 2);
            let dark = 0 <= y < n && 0 <= x < modules[y].len() && modules[y][x];
            &&& text.len() == (n + 4) * width
            &&& 0 <= at < at + 1 < text.len()
            &&& text[at] == if dark { '█' } else { ' ' }
            &&& text[at + 1] == if dark { '█' } else { ' ' }
            &&& text[(y + 2) * width + width - 1] == '\n'
        }),
{
    reveal_strlit("██");
    reveal_strlit("  ");
    reveal_strlit("\n");
    let n = modules.len() as int;
    let side = n + 4;
    let width = 2 * side + 1;
    let all = qr::drawn(modules.len());
    let line = |v: int| qr::row_text(modules, v) + "\n"@;
    assert(all.len() == side);
    assert forall|i: int| 0 <= i < all.len() implies (#[trigger] line(all[i])).len() == width by {
        lemma_row(modules, all[i]);
    }
    let (i, c) = (y + 2, 2 * (x + 2));
    assert(all[i] == y);
    assert(qr::picture(modules) == all.flat_map(line));
    lemma_row(modules, y);
    lemma_even_parts(all, line, width as nat, i, c);
    lemma_even_parts(all, line, width as nat, i, c + 1);
    lemma_even_parts(all, line, width as nat, i, width - 1);
    lemma_module(modules, x, y);
}

/// A row has two characters for each module that is drawn.
proof fn lemma_row(modules: Seq<Seq<bool>>, y: int)
    ensures
        qr::row_text(modules, y).len() == 2 * (modules.len() + 4),
{
    reveal_strlit("██");
    reveal_strlit("  ");
    let all = qr::drawn(modules.len());
    let cell = |v: int| qr::block(qr::dark(modules, v, y));
    lemma_even_length(all, cell, 2);
}

/// The two characters of a module.
proof fn lemma_module(modules: Seq<Seq<bool>>, x: int, y: int)
    requires
        -2 <= x < modules.len() + 2,
    ensures
        ({
            let row = qr::row_text(modules, y);
            let dark = 0 <= y < modules.len() && 0 <= x < modules[y].len() && modules[y][x];
            &&& row[2 * (x + 2)] == if dark { '█' } else { ' ' }
            &&& row[2 * (x + 2) + 1] == if dark { '█' } else { ' ' }
        }),
{
    reveal_strlit("██");
    reveal_strlit("  ");
    let all = qr::drawn(modules.len());
    let cell = |v: int| qr::block(qr::dark(modules, v, y));
    let i = x + 2;
    assert(all[i] == x);
    assert(qr::row_text(modules, y) == all.flat_map(cell));
    lemma_even_parts(all, cell, 2, i, 0);
    lemma_even_parts(all, cell, 2, i, 1);
}

/// Pairing prints the payload on a line of its own. Where a code is asked for, an empty line
/// follows, and after it the drawing of the payload's code, or, where the payload is too long for
/// one, nothing; only then there is an error, which gives the reason.
pub proof fn law_pairing_prints_payload_and_code(
    args: PairArgs,
    payload: Seq<char>,
    output: PairOutput,
)
    requires
        pair::prints(args, payload, output),
    ensures
        ({
            let code = qr::encoding(payload, EccLevel::Medium);
            let n = payload.len() as int;
            let text = output.text@;
            &&& text.len() > n
            &&& text.take(n) == payload
            &&& text[n] == '\n'
            &&& !args.qr ==> text.len() == n + 1 && output.error is None
            &&& args.qr ==> text.len() >= n + 2 && text[n + 1] == '\n'
            &&& args.qr && code is Ok ==> text.skip(n + 2) == qr::picture(code->Ok_0)
                && output.error is None
            &&& args.qr && code is Err ==> text.len() == n + 2 && output.error is Some
                && output.error->0@ == "encoding QR: "@ + code->Err_0
        }),
{
    reveal_strlit("\n");
    let n = payload.len() as int;
    let text = output.text@;
    assert(text.take(n) =~= payload);
    let code = qr::encoding(payload, EccLevel::Medium);
    if args.qr && code is Ok {
        assert(text.skip(n + 2) =~= qr::picture(code->Ok_0));
    }
}

} // verus!
