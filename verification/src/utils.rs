//! Small helpers: the extensions the indexer picks up, hidden names, and
//! human-readable file sizes.
use vstd::prelude::*;
use crate::extractors::plaintext::plaintext_extension_list;
use crate::paths::{file_name, file_name_of};
use crate::text::{decimal, digit_char, int_decimal, owned, push_char, push_i64, push_str, push_u64};

verus! {

/// The extensions supported for text extraction: the plain-text ones, then `rtf`.
pub open spec fn supported_extension_list() -> Seq<Seq<char>> {
    plaintext_extension_list().push("rtf"@)
}

/// Returns all file extensions supported for text extraction, each once.
pub fn supported_extensions() -> (r: Vec<String>)
    ensures
        r@.map_values(|e: String| e@) == supported_extension_list(),
{
    let exts = [
        "txt", "md", "csv", "json", "xml", "yaml", "yml", "toml",
        "py", "js", "ts", "html", "css", "rs", "go", "java",
        "c", "cpp", "h", "sh", "bat", "ps1", "cfg", "ini", "log",
        "rtf",
    ];
    let ghost target = supported_extension_list();
    assert(exts@.map_values(|e: &str| e@) =~= target);
    let mut r: Vec<String> = Vec::new();
    let mut i: usize = 0;
    while i < 26
        invariant
            i <= 26,
            exts@.len() == 26,
            exts@.map_values(|e: &str| e@) == target,
            r@.map_values(|e: String| e@) == target.take(i as int),
        decreases 26 - i,
    {
        let e = owned(exts[i]);
        assert(exts@.map_values(|e: &str| e@)[i as int] == exts@[i as int]@);
        assert(target[i as int] == e@);
        let ghost old_r = r@;
        r.push(e);
        assert(r@ == old_r.push(e));
        assert(r@.map_values(|e: String| e@) =~= old_r.map_values(|e: String| e@).push(e@));
        assert(r@.map_values(|e: String| e@) =~= target.take(i + 1));
        i = i + 1;
    }
    assert(target.take(26) =~= target);
    r
}

/// A path names a hidden file or directory: its file name starts with a dot.
pub open spec fn hidden(path: Seq<char>) -> bool {
    match file_name_of(path) {
        Some(n) => n.len() > 0 && n[0] == '.',
        None => false,
    }
}

/// Checks whether a path component is hidden (starts with a dot).
pub fn is_hidden(path: &str) -> (r: bool)
    ensures
        r == hidden(path@),
{
    match file_name(path) {
        Some(n) => {
            let v = crate::text::chars_of(n.as_str());
            v.len() > 0 && v[0] == '.'
        },
        None => false,
    }
}

} // verus!

verus! {

/// Spacing of `f64` values around the non-negative integer `b`: 1 below
/// 2^53, doubling with every further bit.
pub open spec fn f64_spacing(b: nat) -> nat
    decreases b,
{
    if b < 0x20_0000_0000_0000 {
        1
    } else {
        2 * f64_spacing(b / 2)
    }
}

/// `n / d` rounded to the nearest integer, ties to even.
pub open spec fn div_round_even(n: nat, d: nat) -> nat {
    let q = n / d;
    let r = n % d;
    if 2 * r > d || (2 * r == d && q % 2 == 1) {
        q + 1
    } else {
        q
    }
}

/// The value of `b as f64` for a non-negative integer `b`: the nearest
/// multiple of the spacing, ties to even.
pub open spec fn f64_of(b: nat) -> nat {
    div_round_even(b, f64_spacing(b)) * f64_spacing(b)
}

/// `x / unit` written with two decimals, as `{:.2}` writes the exact
/// quotient: rounded to the nearest hundredth, ties to even.
pub open spec fn two_decimals(x: nat, unit: nat) -> Seq<char> {
    let h = div_round_even(x * 100, unit);
    decimal(h / 100) + seq!['.', digit_char((h % 100) / 10), digit_char(h % 10)]
}

/// The binary units of `format_file_size`, in bytes.
pub open spec fn kib() -> nat { 1024 }
pub open spec fn mib() -> nat { 1024 * 1024 }
pub open spec fn gib() -> nat { 1024 * 1024 * 1024 }
pub open spec fn tib() -> nat { 1024 * 1024 * 1024 * 1024 }

/// The human-readable form of a byte count.
pub open spec fn file_size_text(bytes: int) -> Seq<char> {
    if bytes >= tib() {
        two_decimals(f64_of(bytes as nat), tib()) + seq![' ', 'T', 'B']
    } else if bytes >= gib() {
        two_decimals(f64_of(bytes as nat), gib()) + seq![' ', 'G', 'B']
    } else if bytes >= mib() {
        two_decimals(f64_of(bytes as nat), mib()) + seq![' ', 'M', 'B']
    } else if bytes >= kib() {
        two_decimals(f64_of(bytes as nat), kib()) + seq![' ', 'K', 'B']
    } else {
        int_decimal(bytes) + seq![' ', 'B']
    }
}

fn round_even(n: u128, d: u128) -> (r: u128)
    requires
        0 < d < 0x1_0000_0000_0000_0000,
        n < 0x1_0000_0000_0000_0000_0000_0000,
    ensures
        r == div_round_even(n as nat, d as nat),
{
    let q = n / d;
    let r = n % d;
    if 2 * r > d || (2 * r == d && q % 2 == 1) {
        q + 1
    } else {
        q
    }
}

/// `b as f64`, for `0 <= b < 2^63`, as an integer.
fn f64_value(b: u128) -> (m: u128)
    requires
        b < 0x8000_0000_0000_0000,
    ensures
        m == f64_of(b as nat),
        m <= 0x8000_0000_0000_1000,
        b < 0x20_0000_0000_0000 ==> m == b,
        b >= 0x20_0000_0000_0000 ==> m >= 0x10_0000_0000_0000,
{
    let mut u: u128 = 1;
    while b / u >= 0x20_0000_0000_0000
        invariant
            1 <= u <= 2048,
            b < 0x8000_0000_0000_0000,
            f64_spacing(b as nat) == u * f64_spacing((b / u) as nat),
            b / u >= 0x20_0000_0000_0000 ==> u < 1024,
        decreases 2048 - u,
    {
        proof {
            let bi: int = b as int;
            let ui: int = u as int;
            vstd::arithmetic::div_mod::lemma_div_denominator(bi, ui, 2);
            assert((bi / ui) / 2 == bi / (ui * 2));
            assert(bi / ui >= 0x20_0000_0000_0000);
            assert(f64_spacing((bi / ui) as nat) == 2 * f64_spacing(((bi / ui) / 2) as nat));
            let x = f64_spacing((bi / (ui * 2)) as nat) as int;
            assert(ui * (2 * x) == (ui * 2) * x) by (nonlinear_arith);
            assert(f64_spacing(b as nat) == (ui * 2) * x);
            assert(bi >= ui * 0x20_0000_0000_0000) by (nonlinear_arith)
                requires
                    ui >= 1,
                    bi / ui >= 0x20_0000_0000_0000,
            {
            }
            assert(bi / (ui * 2) >= 0x20_0000_0000_0000 ==> ui * 2 < 1024) by (nonlinear_arith)
                requires
                    bi < 0x8000_0000_0000_0000,
                    ui >= 1,
            {
            }
        }
        u = u * 2;
    }
    assert(f64_spacing((b / u) as nat) == 1);
    assert(u * 1 == u);
    assert(f64_spacing(b as nat) == u);
    let q = round_even(b, u);
    proof {
        assert(q <= b / u + 1);
        assert((b / u) * u <= b) by (nonlinear_arith)
            requires
                u >= 1,
        {
        }
        vstd::arithmetic::div_mod::lemma_fundamental_div_mod(b as int, u as int);
        assert(q >= b / u);
        assert(q * u >= (b / u) * u) by (nonlinear_arith)
            requires
                q >= b / u,
                u >= 1,
        {
        }
        if b < 0x20_0000_0000_0000 {
            assert(u == 1);
        }
        assert(q * u <= 0x8000_0000_0000_1000) by (nonlinear_arith)
            requires
                q <= b / u + 1,
                (b / u) * u <= b,
                b < 0x8000_0000_0000_0000,
                u <= 2048,
                u >= 1,
                b / u < 0x20_0000_0000_0000,
        {
        }
    }
    q * u
}

/// Appends `x / unit` with two decimals.
fn push_two_decimals(s: &mut String, x: u128, unit: u128)
    requires
        x <= 0x8000_0000_0000_1000,
        1024 <= unit <= 0x100_0000_0000,
        x >= unit,
    ensures
        final(s)@ == old(s)@ + two_decimals(x as nat, unit as nat),
{
    let h = round_even(x * 100, unit);
    proof {
        let xx: int = x * 100;
        let uu: int = unit as int;
        assert(h <= xx / uu + 1);
        assert(xx / uu <= xx) by (nonlinear_arith)
            requires
                uu >= 1,
                xx >= 0,
        {
        }
    }
    push_u64(s, (h / 100) as u64);
    push_char(s, '.');
    let frac = h % 100;
    push_u64(s, (frac / 10) as u64);
    push_u64(s, (frac % 10) as u64);
}

/// Formats a byte count into a human-readable string.
pub fn format_file_size(bytes: i64) -> (r: String)
    ensures
        r@ == file_size_text(bytes as int),
{
    let mut r = String::new();
    if bytes >= 1024 {
        let m = f64_value(bytes as u128);
        let (unit, name) = if bytes >= 0x100_0000_0000 {
            (0x100_0000_0000u128, "TB")
        } else if bytes >= 0x4000_0000 {
            (0x4000_0000u128, "GB")
        } else if bytes >= 0x10_0000 {
            (0x10_0000u128, "MB")
        } else {
            (0x400u128, "KB")
        };
        proof {
            reveal_strlit("TB");
            reveal_strlit("GB");
            reveal_strlit("MB");
            reveal_strlit("KB");
        }
        push_two_decimals(&mut r, m, unit);
        push_char(&mut r, ' ');
        push_str(&mut r, name);
    } else {
        push_i64(&mut r, bytes);
        proof {
            reveal_strlit(" B");
        }
        push_str(&mut r, " B");
    }
    r
}

} // verus!
